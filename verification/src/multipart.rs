//! Files that arrive in a form: the fallback for iOS Shortcuts, share targets and old browsers.
use vstd::prelude::*;

use crate::card;
use crate::card::FsError;
use crate::http;
use crate::http::{Answer, Resp, Said, Status};
use crate::routes;
use crate::text;
use crate::upload;
use crate::upload::{quietly, telling, Ask, AskView, Files, Note, Out, Told};

verus! {

/// Where receiving a form stands: what was asked last.
#[derive(Clone, Copy, Debug, PartialEq, Eq, Structural)]
pub enum FormState {
    /// Nothing: the next piece of the form can come.
    Idle,
    /// Whether the file's folder is there.
    Folder,
    /// To make the folder.
    Mkdir,
    /// To create the part.
    Create,
    /// To write to the part.
    Write,
    /// To flush the part.
    Flush,
    /// Whether the file is there already.
    Target,
    /// To delete the file that is there.
    Remove,
    /// To put the part in its place.
    Rename,
}

/// A form being received.
pub struct Form {
    /// Whether a part is open for writing.
    pub open: bool,
    /// Where the file at hand goes.
    pub path: String,
    /// The files received whole.
    pub added: Vec<String>,
    /// The first thing that went wrong.
    pub error: Option<FsError>,
    /// Where it stands.
    pub state: FormState,
}

/// A form being received, with texts as sequences of characters.
pub struct FormView {
    pub open: bool,
    pub path: Seq<char>,
    pub added: Seq<Seq<char>>,
    pub error: Option<FsError>,
    pub state: FormState,
}

impl View for Form {
    type V = FormView;

    open spec fn view(&self) -> FormView {
        FormView {
            open: self.open,
            path: self.path@,
            added: text::texts(self.added@),
            error: self.error,
            state: self.state,
        }
    }
}

/// How a form goes on: how it then stands, what is told, and what is asked.
pub type FormStep = (FormView, Seq<Note<Seq<char>>>, AskView);

/// A step at which nothing is told.
pub open spec fn silent(f: FormView, ask: AskView) -> FormStep {
    (f, Seq::empty(), ask)
}

/// The path a file of this name goes to, if it may go anywhere.
pub open spec fn goes_to(filename: Option<Seq<char>>) -> Option<Seq<char>> {
    match filename {
        Some(f) => routes::sanitized(f),
        None => None,
    }
}

/// A new piece of the form starts, with this file name if it has one.
pub open spec fn form_headers(f: FormView, filename: Option<Seq<char>>) -> FormStep {
    if f.error is Some {
        silent(f, Ask::Nothing)
    } else {
        match goes_to(filename) {
            None => silent(FormView { open: false, path: Seq::empty(), ..f }, Ask::Nothing),
            Some(p) => if card::folder(p).len() > 0 {
                silent(
                    FormView { open: false, path: p, state: FormState::Folder, ..f },
                    Ask::Exists(card::folder(p)),
                )
            } else {
                silent(
                    FormView { open: false, path: p, state: FormState::Create, ..f },
                    Ask::Create(upload::part_of(p)),
                )
            },
        }
    }
}

/// Data of the piece at hand came.
pub open spec fn form_data(f: FormView) -> FormStep {
    if f.error is None && f.open {
        silent(FormView { state: FormState::Write, ..f }, Ask::Write)
    } else {
        silent(f, Ask::Nothing)
    }
}

/// The piece at hand ended.
pub open spec fn form_end(f: FormView) -> FormStep {
    if f.error is None && f.open {
        silent(FormView { open: false, state: FormState::Flush, ..f }, Ask::Flush)
    } else {
        silent(f, Ask::Nothing)
    }
}

/// Whether the platform can report this to a form that stands so.
pub open spec fn form_expects(state: FormState, ev: Told) -> bool {
    match state {
        FormState::Idle => false,
        FormState::Folder | FormState::Target => ev is Exists,
        _ => ev is Done || ev is Failed,
    }
}

/// How a form goes on after a report.
pub open spec fn form_next(f: FormView, ev: Told) -> FormStep {
    let part = upload::part_of(f.path);
    let name = card::leaf(f.path);
    match (f.state, ev) {
        (FormState::Folder, Told::Exists(false)) => silent(
            FormView { state: FormState::Mkdir, ..f },
            Ask::MkdirAll(card::folder(f.path)),
        ),
        (FormState::Folder, _) => silent(FormView { state: FormState::Create, ..f }, Ask::Create(part)),
        (FormState::Mkdir, _) => silent(FormView { state: FormState::Create, ..f }, Ask::Create(part)),
        (FormState::Create, Told::Done) => (
            FormView { open: true, state: FormState::Idle, ..f },
            seq![Note::Started(name, f.path, None, 0)],
            Ask::Nothing,
        ),
        (FormState::Flush, Told::Done) => silent(FormView { state: FormState::Target, ..f }, Ask::Exists(f.path)),
        (FormState::Target, Told::Exists(true)) => silent(
            FormView { state: FormState::Remove, ..f },
            Ask::Remove(f.path),
        ),
        (FormState::Target, _) => silent(FormView { state: FormState::Rename, ..f }, Ask::Rename(part, f.path)),
        (FormState::Remove, _) => silent(FormView { state: FormState::Rename, ..f }, Ask::Rename(part, f.path)),
        (FormState::Rename, Told::Done) => (
            FormView { added: f.added.push(f.path), state: FormState::Idle, ..f },
            seq![Note::Finished(name)],
            Ask::Nothing,
        ),
        (FormState::Flush, Told::Failed(e)) | (FormState::Rename, Told::Failed(e)) => (
            FormView { error: Some(e), state: FormState::Idle, ..f },
            seq![Note::Failed(name, e.name())],
            Ask::Nothing,
        ),
        (_, Told::Failed(e)) => silent(FormView { error: Some(e), state: FormState::Idle, ..f }, Ask::Nothing),
        _ => silent(FormView { state: FormState::Idle, ..f }, Ask::Nothing),
    }
}

impl Form {
    /// Whether the file at hand goes where a request may write: its path is empty or a sanitized one, and so is
    /// that of every file received.
    pub open spec fn wf(self) -> bool {
        &&& self.path@.len() > 0 ==> is_safe(self.path@)
        &&& self.open || self.state != FormState::Idle && self.state != FormState::Write ==> self.path@.len() > 0
        &&& self.state == FormState::Write ==> self.open
        &&& forall|i: int| 0 <= i < self.added@.len() ==> is_safe((#[trigger] self.added@[i])@)
    }

    /// Begin to receive a form, if the request has a boundary.
    pub fn begin(boundary: bool) -> (r: Result<Form, Answer>)
        ensures
            match r {
                Ok(f) => boundary && f.wf() && f@ == (FormView {
                    open: false,
                    path: Seq::empty(),
                    added: Seq::empty(),
                    error: None,
                    state: FormState::Idle,
                }),
                Err(a) => !boundary && a@ == Said::Error(Status::BadRequest, "expected multipart/form-data"@),
            },
    {
        if boundary {
            let f = Form {
                open: false,
                path: String::new(),
                added: Vec::new(),
                error: None,
                state: FormState::Idle,
            };
            assert(text::texts(f.added@) =~= Seq::<Seq<char>>::empty());
            assert(f.path@ =~= Seq::<char>::empty());
            Ok(f)
        } else {
            Err(http::error(Status::BadRequest, "expected multipart/form-data"))
        }
    }

    /// A new piece of the form starts, with this file name if it has one.
    pub fn headers(&mut self, filename: Option<&str>) -> (r: Out)
        requires
            old(self).wf(),
            old(self).state == FormState::Idle,
        ensures
            final(self).wf(),
            ({
                let step = form_headers(
                    old(self)@,
                    match filename {
                        Some(f) => Some(f@),
                        None => None,
                    },
                );
                final(self)@ == step.0 && upload::says(r, step.1, step.2)
            }),
    {
        if self.error.is_some() {
            return quietly(Ask::Nothing);
        }
        self.open = false;
        let to = match filename {
            Some(f) => routes::sanitize_path(f),
            None => None,
        };
        match to {
            None => {
                self.path = String::new();
                assert(self.path@ =~= Seq::<char>::empty());
                quietly(Ask::Nothing)
            },
            Some(p) => {
                proof {
                    let q = filename->0@;
                    assert(routes::sanitized(q) == Some(p@));
                    routes::law_sanitized_is_safe(q);
                }
                let parent = card::parent(&p);
                self.path = p;
                if parent.as_str().is_empty() {
                    self.state = FormState::Create;
                    quietly(Ask::Create(upload::part_name(&self.path)))
                } else {
                    self.state = FormState::Folder;
                    quietly(Ask::Exists(parent))
                }
            },
        }
    }

    /// Data of the piece at hand came.
    pub fn data(&mut self) -> (r: Out)
        requires
            old(self).wf(),
            old(self).state == FormState::Idle,
        ensures
            final(self).wf(),
            final(self)@ == form_data(old(self)@).0,
            upload::says(r, form_data(old(self)@).1, form_data(old(self)@).2),
    {
        if self.error.is_none() && self.open {
            self.state = FormState::Write;
            quietly(Ask::Write)
        } else {
            quietly(Ask::Nothing)
        }
    }

    /// The piece at hand ended.
    pub fn end(&mut self) -> (r: Out)
        requires
            old(self).wf(),
            old(self).state == FormState::Idle,
        ensures
            final(self).wf(),
            final(self)@ == form_end(old(self)@).0,
            upload::says(r, form_end(old(self)@).1, form_end(old(self)@).2),
    {
        if self.error.is_none() && self.open {
            self.open = false;
            self.state = FormState::Flush;
            quietly(Ask::Flush)
        } else {
            quietly(Ask::Nothing)
        }
    }

    /// The platform did what was asked, or could not.
    pub fn step(&mut self, ev: Told) -> (r: Out)
        requires
            old(self).wf(),
            form_expects(old(self).state, ev),
        ensures
            final(self).wf(),
            final(self)@ == form_next(old(self)@, ev).0,
            upload::says(r, form_next(old(self)@, ev).1, form_next(old(self)@, ev).2),
    {
        let state = self.state;
        match (state, ev) {
            (FormState::Folder, Told::Exists(false)) => {
                self.state = FormState::Mkdir;
                quietly(Ask::MkdirAll(card::parent(&self.path)))
            },
            (FormState::Folder, _) | (FormState::Mkdir, _) => {
                self.state = FormState::Create;
                quietly(Ask::Create(upload::part_name(&self.path)))
            },
            (FormState::Create, Told::Done) => {
                self.open = true;
                self.state = FormState::Idle;
                telling(Note::Started(card::file_name(&self.path), self.path.clone(), None, 0), Ask::Nothing)
            },
            (FormState::Flush, Told::Done) => {
                self.state = FormState::Target;
                quietly(Ask::Exists(self.path.clone()))
            },
            (FormState::Target, Told::Exists(true)) => {
                self.state = FormState::Remove;
                quietly(Ask::Remove(self.path.clone()))
            },
            (FormState::Target, _) | (FormState::Remove, _) => {
                self.state = FormState::Rename;
                quietly(Ask::Rename(upload::part_name(&self.path), self.path.clone()))
            },
            (FormState::Rename, Told::Done) => {
                self.state = FormState::Idle;
                self.added.push(self.path.clone());
                assert(text::texts(self.added@) =~= text::texts(old(self).added@).push(self.path@));
                telling(Note::Finished(card::file_name(&self.path)), Ask::Nothing)
            },
            (FormState::Flush, Told::Failed(e)) | (FormState::Rename, Told::Failed(e)) => {
                self.state = FormState::Idle;
                let why = e.text();
                self.error = Some(e);
                telling(Note::Failed(card::file_name(&self.path), why), Ask::Nothing)
            },
            (_, Told::Failed(e)) => {
                self.state = FormState::Idle;
                self.error = Some(e);
                quietly(Ask::Nothing)
            },
            _ => {
                self.state = FormState::Idle;
                quietly(Ask::Nothing)
            },
        }
    }

    /// What went wrong so far, after a block of the body: it ends the streaming.
    pub fn chunk(&self) -> (r: Result<(), FsError>)
        ensures
            match self.error {
                Some(e) => r matches Err(x) && x == e,
                None => r is Ok,
            },
    {
        match &self.error {
            Some(e) => Err(copy_error(e)),
            None => Ok(()),
        }
    }

    /// More of the body is on the card.
    pub fn progress(&self) -> (r: Vec<Note<String>>)
        ensures
            upload::note_views(r@) == seq![Note::<Seq<char>>::Downloads],
    {
        let mut v: Vec<Note<String>> = Vec::new();
        v.push(Note::Downloads);
        assert(upload::note_views(v@) =~= seq![Note::<Seq<char>>::Downloads]);
        v
    }

    /// The body was streamed to its end, or was not; `wants_html` says that the client takes a page.
    pub fn finish(&self, ev: Told, wants_html: bool) -> (r: Out)
        requires
            !(ev is Exists),
            self.added@.len() <= u32::MAX,
        ensures
            upload::says(r, finish_notes(self@, ev), AskView::Reply(finish_answer(self@, ev, wants_html))),
            ({
                let n = self.added@.len();
                let notes: Seq<Note<Seq<char>>> = if ev is Done && n > 0 {
                    seq![Note::DownloadsSurely, Note::BooksChanged, Note::Books(n as u32)]
                } else {
                    Seq::empty()
                };
                upload::says(
                    r,
                    notes,
                    AskView::Reply(
                        match ev {
                            Told::Failed(e) => http::card_error(e),
                            Told::Lost => Said::Error(Status::BadRequest, "body ended early"@),
                            _ => if wants_html {
                                Said::Redirect(Status::SeeOther, "/?added="@ + text::decimal(n))
                            } else {
                                Said::Added(text::texts(self.added@))
                            },
                        },
                    ),
                )
            }),
    {
        match ev {
            Told::Failed(e) => quietly(Ask::Reply(http::fs_error(&e))),
            Told::Lost => quietly(Ask::Reply(http::error(Status::BadRequest, "body ended early"))),
            _ => {
                let n: usize = self.added.len();
                let mut notes: Vec<Note<String>> = Vec::new();
                if n > 0 {
                    notes.push(Note::DownloadsSurely);
                    notes.push(Note::BooksChanged);
                    notes.push(Note::Books(n as u32));
                    assert(upload::note_views(notes@) =~= seq![
                        Note::DownloadsSurely,
                        Note::BooksChanged,
                        Note::Books(n as u32),
                    ]);
                } else {
                    assert(upload::note_views(notes@) =~= Seq::<Note<Seq<char>>>::empty());
                }
                let a: Answer = if wants_html {
                    Resp::Redirect(Status::SeeOther, text::join2("/?added=", &text::number(n as u64)))
                } else {
                    Resp::Added(copy_list(&self.added))
                };
                Out { notes, ask: Ask::Reply(a) }
            },
        }
    }
}

fn copy_error(e: &FsError) -> (r: FsError)
    ensures
        r == *e,
{
    match e {
        FsError::NotFound => FsError::NotFound,
        FsError::Full => FsError::Full,
        FsError::InvalidPath => FsError::InvalidPath,
        FsError::Eof => FsError::Eof,
        FsError::Io(s) => FsError::Io(s.clone()),
    }
}

fn copy_list(v: &Vec<String>) -> (r: Vec<String>)
    ensures
        r@ == v@,
{
    let mut out: Vec<String> = Vec::new();
    let mut i: usize = 0;
    while i < v.len()
        invariant
            i <= v@.len(),
            out@ == v@.take(i as int),
        decreases v@.len() - i,
    {
        out.push(v[i].clone());
        assert(out@ =~= v@.take(i + 1));
        i += 1;
    }
    assert(out@ =~= v@);
    out
}

/// Whether a client takes a page: its `Accept` header names one.
pub fn wants_html(accept: Option<&str>) -> (r: bool)
    ensures
        r == (accept matches Some(a) && text::has_text(a@, "text/html"@)),
{
    match accept {
        Some(a) => text::contains(a, "text/html"),
        None => false,
    }
}

/// Whether a path is one a request may write to.
pub open spec fn is_safe(p: Seq<char>) -> bool {
    exists|q: Seq<char>| #[trigger] routes::sanitized(q) == Some(p)
}

/// Whatever a form names its files, none of them lands in the cache folder or outside the card's root.
pub proof fn law_form_files_land_safely(f: FormView, filename: Option<Seq<char>>)
    ensures
        match form_headers(f, filename).2 {
            Ask::Create(part) => exists|p: Seq<char>|
                part == #[trigger] upload::part_of(p) && is_safe(p) && p[0] == '/' && !routes::in_cache(p),
            Ask::Exists(folder) => exists|p: Seq<char>|
                folder == #[trigger] card::folder(p) && is_safe(p) && p[0] == '/' && !routes::in_cache(p),
            ask => ask is Nothing,
        },
{
    if let Some(name) = filename {
        if let Some(p) = routes::sanitized(name) {
            routes::law_sanitized_is_safe(name);
            assert(is_safe(p));
        }
    }
}

/// Once something went wrong nothing more is asked of the card.
pub proof fn law_error_stops_a_form(f: FormView, filename: Option<Seq<char>>)
    requires
        f.error is Some,
    ensures
        form_headers(f, filename) == silent(f, Ask::Nothing),
        form_data(f) == silent(f, Ask::Nothing),
        form_end(f) == silent(f, Ask::Nothing),
{
}

/// How many reports a form still waits for.
pub open spec fn reports_left(s: FormState) -> nat {
    match s {
        FormState::Folder => 7,
        FormState::Mkdir => 6,
        FormState::Create => 5,
        FormState::Flush => 4,
        FormState::Target => 3,
        FormState::Remove => 2,
        FormState::Rename => 1,
        FormState::Write => 1,
        FormState::Idle => 0,
    }
}

/// The form and the files once everything asked was done, on a card that does what is asked; `data` is what is
/// written.
pub open spec fn settled(
    f: FormView,
    ask: AskView,
    files: Files,
    folders: Set<Seq<char>>,
    data: Seq<u8>,
) -> (FormView, Files)
    decreases reports_left(f.state),
{
    let part = upload::part_of(f.path);
    let ev = upload::answer(files, folders, ask);
    let after = if ask is Write {
        files.insert(part, files[part] + data)
    } else {
        upload::effect(files, ask, part, data)
    };
    if !form_expects(f.state, ev) {
        (f, files)
    } else {
        let (g, _, next) = form_next(f, ev);
        settled(g, next, after, folders, data)
    }
}

/// The form and the files after these pieces of data.
pub open spec fn data_settled(
    f: FormView,
    files: Files,
    folders: Set<Seq<char>>,
    data: Seq<Seq<u8>>,
    n: int,
) -> (FormView, Files)
    decreases n,
{
    if n <= 0 {
        (f, files)
    } else {
        let (g, fs) = data_settled(f, files, folders, data, n - 1);
        settled(form_data(g).0, form_data(g).2, fs, folders, data[n - 1])
    }
}

/// The first `n` pieces of data in a row.
pub open spec fn in_a_row(data: Seq<Seq<u8>>, n: int) -> Seq<u8>
    decreases n,
{
    if n <= 0 {
        Seq::empty()
    } else {
        in_a_row(data, n - 1) + data[n - 1]
    }
}

/// The form and the files after one whole piece: its headers, its data and its end.
pub open spec fn piece_settled(
    f: FormView,
    filename: Option<Seq<char>>,
    files: Files,
    folders: Set<Seq<char>>,
    data: Seq<Seq<u8>>,
) -> (FormView, Files) {
    let (f1, files1) = settled(
        form_headers(f, filename).0,
        form_headers(f, filename).2,
        files,
        folders,
        Seq::empty(),
    );
    let (f2, files2) = data_settled(f1, files1, folders, data, data.len() as int);
    settled(form_end(f2).0, form_end(f2).2, files2, folders, Seq::empty())
}

proof fn lemma_data_settled(
    f: FormView,
    files: Files,
    folders: Set<Seq<char>>,
    data: Seq<Seq<u8>>,
    n: int,
)
    requires
        f.error is None,
        f.open,
        f.state == FormState::Idle,
        files.dom().contains(upload::part_of(f.path)),
        files[upload::part_of(f.path)].len() == 0,
        0 <= n <= data.len(),
    ensures
        data_settled(f, files, folders, data, n) == (f, files.insert(upload::part_of(f.path), in_a_row(data, n))),
    decreases n,
{
    let part = upload::part_of(f.path);
    if n <= 0 {
        assert(files[part] =~= Seq::<u8>::empty());
        assert(files.insert(part, in_a_row(data, 0)) =~= files);
    } else {
        lemma_data_settled(f, files, folders, data, n - 1);
        reveal_with_fuel(settled, 3);
        let before = files.insert(part, in_a_row(data, n - 1));
        assert(before.insert(part, before[part] + data[n - 1]) =~= files.insert(part, in_a_row(data, n)));
    }
}

/// A file sent in a form ends in place, holding exactly its data in order, whatever stood there before, with no
/// part left; and it is among those added.
pub proof fn law_form_file_reads_back(
    f: FormView,
    filename: Seq<char>,
    files: Files,
    folders: Set<Seq<char>>,
    data: Seq<Seq<u8>>,
)
    requires
        f.error is None,
        f.state == FormState::Idle,
        routes::sanitized(filename) is Some,
        !folders.contains(routes::sanitized(filename)->0),
    ensures
        ({
            let p = routes::sanitized(filename)->0;
            let done = piece_settled(f, Some(filename), files, folders, data);
            &&& done.1 == files.remove(upload::part_of(p)).insert(p, in_a_row(data, data.len() as int))
            &&& done.0 == (FormView { open: false, path: p, added: f.added.push(p), ..f })
        }),
{
    let p = routes::sanitized(filename)->0;
    let part = upload::part_of(p);
    assert(part.len() > p.len()) by {
        reveal_strlit(".part");
    }
    let (f1, files1) = settled(
        form_headers(f, Some(filename)).0,
        form_headers(f, Some(filename)).2,
        files,
        folders,
        Seq::empty(),
    );
    assert(f1 == (FormView { open: true, path: p, ..f }) && files1 == files.insert(part, Seq::empty())) by {
        reveal_with_fuel(settled, 5);
    }
    let n = data.len() as int;
    let whole = in_a_row(data, n);
    lemma_data_settled(f1, files1, folders, data, n);
    let (f2, files2) = data_settled(f1, files1, folders, data, n);
    assert(files2 =~= files.insert(part, whole));
    reveal_with_fuel(settled, 6);
    let goal = files.remove(part).insert(p, whole);
    assert(files2.remove(part).insert(p, whole) =~= goal);
    assert(files2.remove(p).remove(part).insert(p, whole) =~= goal);
}

/// What goes wrong with a file of a form is kept and stops the form; a file that could not be finished is told so by its
/// name, and is not among those added.
pub proof fn law_failed_form_files_are_told(f: FormView, e: FsError)
    requires
        f.state == FormState::Flush || f.state == FormState::Rename || f.state == FormState::Create || f.state == FormState::Write,
    ensures
        form_next(f, Told::Failed(e)).0.error == Some(e),
        form_next(f, Told::Failed(e)).0.added == f.added,
        form_next(f, Told::Failed(e)).2 is Nothing,
        f.state == FormState::Flush || f.state == FormState::Rename ==> form_next(f, Told::Failed(e)).1 == seq![
            Note::Failed(card::leaf(f.path), e.name()),
        ],
{
}

/// A piece of a form without a file name, or with one that may not be stored, is passed over: nothing is written of it.
pub proof fn law_other_fields_are_passed_over(f: FormView, filename: Option<Seq<char>>)
    requires
        f.error is None,
        filename is None || routes::sanitized(filename->0) is None,
    ensures
        form_headers(f, filename).2 is Nothing,
        form_data(form_headers(f, filename).0).2 is Nothing,
        form_end(form_headers(f, filename).0).2 is Nothing,
{
}

/// What is told when a form is over.
pub open spec fn finish_notes(f: FormView, ev: Told) -> Seq<Note<Seq<char>>> {
    if ev is Done && f.added.len() > 0 {
        seq![Note::DownloadsSurely, Note::BooksChanged, Note::Books(f.added.len() as u32)]
    } else {
        Seq::empty()
    }
}

/// What a form is answered.
pub open spec fn finish_answer(f: FormView, ev: Told, wants_html: bool) -> Said {
    match ev {
        Told::Failed(e) => http::card_error(e),
        Told::Lost => Said::Error(Status::BadRequest, "body ended early"@),
        _ => if wants_html {
            Said::Redirect(Status::SeeOther, "/?added="@ + text::decimal(f.added.len()))
        } else {
            Said::Added(f.added)
        },
    }
}

/// A form that came whole is answered with the files added, or sends a browser back to the page with their number, and
/// the books are read anew where there were any; one that broke off or failed is answered so, and nothing is told.
pub proof fn law_forms_are_answered(f: FormView, e: FsError, wants_html: bool)
    ensures
        finish_answer(f, Told::Done, false) == Said::Added(f.added),
        finish_answer(f, Told::Done, true) matches Resp::Redirect(s, to) && s.number() == 303 && to == "/?added="@
            + text::decimal(f.added.len()),
        finish_answer(f, Told::Lost, wants_html).status_of().number() == 400,
        finish_answer(f, Told::Failed(e), wants_html) == http::card_error(e),
        f.added.len() > 0 ==> finish_notes(f, Told::Done).contains(Note::BooksChanged),
        f.added.len() == 0 ==> finish_notes(f, Told::Done).len() == 0,
        finish_notes(f, Told::Lost).len() == 0 && finish_notes(f, Told::Failed(e)).len() == 0,
{
    if f.added.len() > 0 {
        assert(finish_notes(f, Told::Done)[1] == Note::<Seq<char>>::BooksChanged);
    }
}

/// What stands in the way of a file of a form is seen to first: a folder that is not there is made, and a file that is
/// there is deleted before the part gets its name.
pub proof fn law_form_files_clear_their_way(f: FormView, path: Seq<char>)
    ensures
        ({
            let at = |s: FormState| FormView { state: s, path, ..f };
            &&& form_next(at(FormState::Folder), Told::Exists(false)).2 == AskView::MkdirAll(card::folder(path))
            &&& form_next(at(FormState::Folder), Told::Exists(true)).2 == AskView::Create(path + ".part"@)
            &&& form_next(at(FormState::Target), Told::Exists(true)).2 == AskView::Remove(path)
            &&& form_next(at(FormState::Target), Told::Exists(false)).2 == AskView::Rename(path + ".part"@, path)
            &&& form_next(at(FormState::Remove), Told::Done).2 == AskView::Rename(path + ".part"@, path)
            &&& form_next(at(FormState::Create), Told::Done).1 == seq![Note::Started(card::leaf(path), path, None, 0)]
            &&& form_next(at(FormState::Rename), Told::Done).1 == seq![Note::<Seq<char>>::Finished(card::leaf(path))]
        }),
{
}

} // verus!
