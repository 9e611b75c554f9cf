use quire::card::FsError;
use quire::http::{Resp, Status};
use quire::multipart::{wants_html, Form};
use quire::upload::{part_name, rename_done, Ask, Delete, Note, Put, PutState, SleepPut, Stream, StreamAsk, Told, UploadPlan};
use std::collections::BTreeMap;

type A = Ask<String, Vec<String>>;
type R = Resp<String, Vec<String>>;

/// A card in memory that does what it is asked.
struct Card {
    files: BTreeMap<String, Vec<u8>>,
    folders: Vec<String>,
    open: String,
}

impl Card {
    fn new() -> Card {
        Card { files: BTreeMap::new(), folders: vec!["/Books".into()], open: String::new() }
    }

    fn obey(&mut self, ask: &A, data: &[u8]) -> Told {
        match ask {
            Ask::Exists(p) => return Told::Exists(self.files.contains_key(p) || self.folders.contains(p)),
            Ask::MkdirAll(p) => self.folders.push(p.clone()),
            Ask::Create(p) => {
                self.files.insert(p.clone(), Vec::new());
                self.open = p.clone();
            }
            Ask::Append(p) => {
                self.files.entry(p.clone()).or_default();
                self.open = p.clone();
            }
            Ask::Write | Ask::Stream(_) => self.files.get_mut(&self.open).unwrap().extend_from_slice(data),
            Ask::Remove(p) => {
                if self.files.remove(p).is_none() {
                    return Told::Failed(FsError::NotFound);
                }
            }
            Ask::Rename(a, b) => {
                let f = self.files.remove(a).unwrap();
                self.files.insert(b.clone(), f);
            }
            _ => {}
        }
        Told::Done
    }
}

fn put(card: &mut Card, path: &str, body: &[u8], have: Option<u64>, plan: UploadPlan) -> (R, Vec<Note<String>>) {
    let (mut p, mut ask) = Put::begin(path, body.len(), have, None, Ok(plan));
    let mut notes = Vec::new();
    loop {
        if let Ask::Reply(r) = ask {
            return (r, notes);
        }
        let ev = card.obey(&ask, body);
        let out = p.step(ev);
        notes.extend(out.notes);
        ask = out.ask;
    }
}

#[test]
fn a_body_is_streamed_in_blocks() {
    let mut s = Stream::new(40_000, 0);
    assert_eq!(s.ask(), StreamAsk::Read(0, 32_768));
    s.read(Some(30_000));
    assert_eq!(s.ask(), StreamAsk::Read(30_000, 2_768));
    s.read(Some(2_768));
    assert_eq!(s.ask(), StreamAsk::Write(32_768));
    assert_eq!(s.written(500), None);
    assert_eq!(s.ask(), StreamAsk::Read(0, 7_232));
    s.read(Some(7_232));
    assert_eq!(s.ask(), StreamAsk::Write(7_232));
    assert_eq!(s.written(1_000), Some(40_000));
    assert_eq!(s.ask(), StreamAsk::Done);
    assert_eq!(Stream::new(0, 0).ask(), StreamAsk::Done);
    assert_eq!(Stream::new(3, 0).block, 512);
}

#[test]
fn a_client_that_stops_is_lost() {
    let mut s = Stream::new(100, 0);
    s.read(Some(60));
    s.read(Some(0));
    // What came is written before the stream gives up.
    assert_eq!(s.ask(), StreamAsk::Write(60));
    s.written(10);
    assert_eq!(s.ask(), StreamAsk::Read(0, 40));
    s.read(Some(0));
    assert_eq!(s.ask(), StreamAsk::Lost);
    let mut s = Stream::new(100, 0);
    s.read(None);
    assert_eq!(s.ask(), StreamAsk::Lost);
}

#[test]
fn progress_is_reported_once_a_second() {
    let mut s = Stream::new(100_000, u32::MAX - 100);
    s.read(Some(32_768));
    assert_eq!(s.written(800), None);
    s.read(Some(32_768));
    assert_eq!(s.written(899), Some(65_536));
}

#[test]
fn an_upload_reads_back() {
    let mut card = Card::new();
    card.files.insert("/Books/a.epub".into(), b"old".to_vec());
    let (r, notes) = put(&mut card, "/Books/a.epub", b"new body", None, UploadPlan::Fresh(true));
    assert_eq!(r, Resp::Received(Status::Created, 8, true));
    assert_eq!(card.files.len(), 1);
    assert_eq!(card.files["/Books/a.epub"], b"new body");
    assert_eq!(
        notes,
        [
            Note::Started("a.epub".into(), "/Books/a.epub".into(), Some(8), 0),
            Note::Downloads,
            Note::Finished("a.epub".into()),
            Note::DownloadsSurely,
            Note::BooksChanged,
            Note::Page("a.epub".into(), 8, 8, "done"),
            Note::Books(1),
        ]
    );
}

#[test]
fn two_bodies_make_one_file() {
    let mut card = Card::new();
    card.files.insert("/new/a.txt".into(), b"old".to_vec());
    let (r, _) = put(&mut card, "/new/a.txt", b"one ", None, UploadPlan::Fresh(false));
    assert_eq!(r, Resp::Received(Status::Okay, 4, false));
    assert_eq!(card.files["/new/a.txt"], b"old");
    assert_eq!(card.files[&part_name("/new/a.txt")], b"one ");
    assert!(card.folders.contains(&"/new".to_string()));
    let (r, _) = put(&mut card, "/new/a.txt", b"two", Some(4), UploadPlan::Append(true));
    assert_eq!(r, Resp::Received(Status::Created, 7, true));
    assert_eq!(card.files.len(), 1);
    assert_eq!(card.files["/new/a.txt"], b"one two");
}

#[test]
fn a_plan_that_does_not_fit_is_answered() {
    let (p, ask) = Put::begin("/a", 5, Some(9), None, Ok(UploadPlan::Mismatch(9)));
    assert_eq!(p.state, PutState::Over);
    assert_eq!(ask, Ask::Reply(Resp::Received(Status::Conflict, 9, false)));
    let (_, ask) = Put::begin("/a", 5, None, None, Err("bad range".into()));
    assert_eq!(ask, Ask::Reply(Resp::Error(Status::BadRequest, "bad range".into())));
    // A file in the root needs no folder.
    let (_, ask) = Put::begin("/a", 5, None, None, Ok(UploadPlan::Fresh(true)));
    assert_eq!(ask, Ask::Create("/a.part".into()));
}

#[test]
fn a_lost_client_leaves_the_file_alone() {
    let (mut p, _) = Put::begin("/a", 5, None, Some(50), Ok(UploadPlan::Fresh(true)));
    let out = p.step(Told::Done);
    assert_eq!(out.ask, Ask::Stream(5));
    assert_eq!(
        p.progress(3),
        [Note::Progress("a".into(), 3), Note::Downloads, Note::Page("a".into(), 3, 50, "uploading")]
    );
    let out = p.step(Told::Lost);
    assert_eq!(out.ask, Ask::Reply(Resp::Error(Status::BadRequest, "body ended early".into())));
    assert_eq!(out.notes, [Note::Failed("a".into(), "connection lost".into()), Note::Downloads]);
}

#[test]
fn a_full_card_is_answered() {
    let (mut p, _) = Put::begin("/a", 5, None, None, Ok(UploadPlan::Fresh(true)));
    p.step(Told::Done);
    let out = p.step(Told::Failed(FsError::Full));
    assert_eq!(out.ask, Ask::Reply(Resp::Error(Status::InsufficientStorage, "card full".into())));
    assert_eq!(out.notes, [Note::Failed("a".into(), "Full".into()), Note::Downloads]);
    // A failed flush never touches the file.
    let (mut p, _) = Put::begin("/a", 5, None, None, Ok(UploadPlan::Fresh(true)));
    p.step(Told::Done);
    assert_eq!(p.step(Told::Done).ask, Ask::Flush);
    let out = p.step(Told::Failed(FsError::Eof));
    assert_eq!(out.notes, [Note::Failed("a".into(), "Eof".into())]);
    assert_eq!(p.state, PutState::Over);
    // A failed folder, and a failed rename.
    let (mut p, _) = Put::begin("/d/a", 5, None, None, Ok(UploadPlan::Fresh(true)));
    assert_eq!(p.step(Told::Exists(false)).ask, Ask::MkdirAll("/d".into()));
    assert_eq!(p.step(Told::Failed(FsError::NotFound)).ask, Ask::Reply(Resp::Error(Status::NotFound, "not found".into())));
}

#[test]
fn a_deleted_file_is_gone_with_its_part() {
    let mut card = Card::new();
    card.files.insert("/Books/a".into(), vec![1]);
    card.files.insert("/Books/a.part".into(), vec![2]);
    let (mut d, mut ask) = Delete::begin("/Books/a");
    let mut notes = Vec::new();
    let reply = loop {
        if let Ask::Reply(r) = ask {
            break r;
        }
        let ev = card.obey(&ask, b"");
        let out = d.step(ev);
        notes.extend(out.notes);
        ask = out.ask;
    };
    assert_eq!(reply, Resp::Empty(Status::NoContent));
    assert_eq!(notes, [Note::BooksChanged]);
    assert!(card.files.is_empty());
    let (mut d, ask) = Delete::begin("/x");
    assert_eq!(ask, Ask::Exists("/x.part".into()));
    assert_eq!(d.step(Told::Exists(false)).ask, Ask::Remove("/x".into()));
    assert_eq!(d.step(Told::Failed(FsError::NotFound)).ask, Ask::Reply(Resp::Error(Status::NotFound, "not found".into())));
}

#[test]
fn a_renamed_file_is_told() {
    let out = rename_done("/Books/b".into(), Told::Done);
    assert_eq!(out.ask, Ask::Reply(Resp::Path(Status::Okay, "/Books/b".into())));
    assert_eq!(out.notes, [Note::BooksChanged]);
    assert!(rename_done("/Books/b".into(), Told::Failed(FsError::Full)).notes.is_empty());
}

#[test]
fn sleep_images_land_in_their_folder() {
    let (mut s, mut ask) = SleepPut::begin(Some("a/b".into()), 3, "/Sleep").unwrap();
    assert_eq!(s.path, "/Sleep/a_b.pbm");
    let mut card = Card::new();
    loop {
        if let Ask::Reply(r) = &ask {
            assert_eq!(*r, Resp::Path(Status::Created, "/Sleep/a_b.pbm".into()));
            break;
        }
        let ev = card.obey(&ask, b"P4x");
        ask = s.step(ev);
    }
    assert_eq!(card.files["/Sleep/a_b.pbm"], b"P4x");
    let err = |n: Option<&str>, len: usize| SleepPut::begin(n.map(String::from), len, "/Sleep").err().unwrap();
    assert_eq!(err(None, 3), Resp::Error(Status::BadRequest, "name=".into()));
    assert_eq!(err(Some("a"), 65_537), Resp::Error(Status::PayloadTooLarge, "too large for a sleep image".into()));
    assert_eq!(err(Some("a:b"), 3), Resp::Error(Status::BadRequest, "bad name".into()));
    let (mut s, _) = SleepPut::begin(Some("x.pbm".into()), 3, "/Sleep").unwrap();
    assert_eq!(s.path, "/Sleep/x.pbm");
    assert_eq!(s.step(Told::Exists(false)), Ask::MkdirAll("/Sleep".into()));
    // A folder that cannot be made does not stop it.
    assert_eq!(s.step(Told::Failed(FsError::Full)), Ask::Create("/Sleep/x.pbm".into()));
    assert_eq!(s.step(Told::Done), Ask::Stream(3));
    assert_eq!(s.step(Told::Lost), Ask::Reply(Resp::Error(Status::BadRequest, "body ended early".into())));
}

fn settle(form: &mut Form, card: &mut Card, mut ask: A, data: &[u8], notes: &mut Vec<Note<String>>) {
    while ask != Ask::Nothing {
        let ev = card.obey(&ask, data);
        let out = form.step(ev);
        notes.extend(out.notes);
        ask = out.ask;
    }
}

#[test]
fn a_form_reads_back() {
    let mut card = Card::new();
    card.files.insert("/Books/a.txt".into(), b"old".to_vec());
    let mut form = Form::begin(true).unwrap();
    let mut notes = Vec::new();
    for (name, data) in [(Some("a.txt"), "one"), (None, "field"), (Some("/deep/b.txt"), "two"), (Some("../c"), "bad")] {
        let out = form.headers(name);
        settle(&mut form, &mut card, out.ask, b"", &mut notes);
        for piece in data.as_bytes().chunks(2) {
            let out = form.data();
            settle(&mut form, &mut card, out.ask, piece, &mut notes);
        }
        let out = form.end();
        settle(&mut form, &mut card, out.ask, b"", &mut notes);
    }
    assert_eq!(form.chunk(), Ok(()));
    assert_eq!(card.files.len(), 2);
    assert_eq!(card.files["/Books/a.txt"], b"one");
    assert_eq!(card.files["/deep/b.txt"], b"two");
    assert_eq!(notes[0], Note::Started("a.txt".into(), "/Books/a.txt".into(), None, 0));
    assert_eq!(notes[1], Note::Finished("a.txt".into()));
    assert_eq!(form.progress(), [Note::Downloads]);
    let out = form.finish(Told::Done, false);
    assert_eq!(out.ask, Ask::Reply(Resp::Added(vec!["/Books/a.txt".into(), "/deep/b.txt".into()])));
    assert_eq!(out.notes, [Note::DownloadsSurely, Note::BooksChanged, Note::Books(2)]);
    assert_eq!(form.finish(Told::Done, true).ask, Ask::Reply(Resp::Redirect(Status::SeeOther, "/?added=2".into())));
}

#[test]
fn an_error_stops_a_form() {
    let mut form = Form::begin(true).unwrap();
    form.headers(Some("/a.txt"));
    form.step(Told::Failed(FsError::Full));
    assert_eq!(form.chunk(), Err(FsError::Full));
    assert_eq!(form.headers(Some("/b.txt")).ask, Ask::Nothing);
    assert_eq!(form.data().ask, Ask::Nothing);
    assert_eq!(form.end().ask, Ask::Nothing);
    assert_eq!(form.finish(Told::Failed(FsError::Full), true).ask, Ask::Reply(Resp::Error(Status::InsufficientStorage, "card full".into())));
    assert_eq!(form.finish(Told::Lost, true).ask, Ask::Reply(Resp::Error(Status::BadRequest, "body ended early".into())));
    assert!(form.finish(Told::Done, false).notes.is_empty());
    assert_eq!(Form::begin(false).err(), Some(Resp::Error(Status::BadRequest, "expected multipart/form-data".into())));
    assert!(wants_html(Some("text/html,*/*")) && !wants_html(Some("*/*")) && !wants_html(None));
}

#[test]
fn a_form_file_that_cannot_be_kept_is_told() {
    let mut form = Form::begin(true).unwrap();
    form.headers(Some("/a.txt"));
    form.step(Told::Done);
    form.end();
    let out = form.step(Told::Failed(FsError::Io("bus".into())));
    assert_eq!(out.notes, [Note::Failed("a.txt".into(), "Io(\"bus\")".into())]);
    assert_eq!(form.chunk(), Err(FsError::Io("bus".into())));
    assert!(form.added.is_empty());
}
