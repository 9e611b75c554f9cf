# quire

The logic of an e-ink reader, written in Verus. The functions under `src/` have contracts that are proved; the few
that only call the standard library or another crate say in their doc comment what is taken from it unproved.

| Module | What it holds |
| --- | --- |
| `input`, `keys` | Key events, and the debouncing of the key ladders that makes them |
| `index`, `order` | The library index: listings, collections, positions, what a save writes |
| `layout` | The geometry of the reading page, fonts and languages |
| `ui`, `platform` | The screen stack: who gets an event, what an action does, how the panel is refreshed |
| `draw`, `widgets`, `tabs`, `charts` | What is drawn, as a list of operations on a sheet |
| `firstrun`, `keyboard`, `jump` (and their `_draw` modules) | Screens: the first-run wizard, the keyboard, Jump |
| `routes`, `http`, `upload`, `multipart` | The Drop page: routing, answers, uploads |
| `net` | Wi-Fi sessions, from command to command and second to second |
| `card` | Paths, walks and reads on the card |
| `device` | The main loop, light sleep, the clock |
| `text` | The string operations the rest is built on |

Public proof functions whose names start with `law_` state what holds across functions: what a listing holds,
what undoes what, what an upload leaves on the card.

The screens and the servers do no input or output themselves. They say what is to be done, and are told what
became of it. `app/` is a program that does it at a desk: a folder stands for the card, standard input for the
keys, a listing of the frame for the panel, and a local port for the Drop page.
