//! Files that arrive over the Drop page: bodies streamed to the card a block at a time, and files put in place
//! only once they are whole.
use vstd::prelude::*;

use crate::card;
use crate::card::FsError;
use crate::http;
use crate::http::{Answer, Resp, Said, Status, MAX_SLEEP_BODY};
use crate::routes;
use crate::text;

verus! {

/// Uploads go to the card in blocks this size; one block is shared by all uploads.
pub const BLOCK: usize = 32768;

/// How long between two reports of progress, in milliseconds.
pub const REPORT_MS: u32 = 1000;

/// What a body that is being streamed needs next.
#[derive(Clone, Copy, Debug, PartialEq, Eq, Structural)]
pub enum StreamAsk {
    /// Read up to so many bytes into the block, from this place on.
    Read(usize, usize),
    /// Write the block's first bytes, so many, to the card.
    Write(usize),
    /// Nothing: it is all there.
    Done,
    /// Nothing: the client went away.
    Lost,
}

/// A body streamed through the shared block.
#[derive(Clone, Copy, Debug, PartialEq, Eq, Structural)]
pub struct Stream {
    /// Bytes in the body.
    pub len: usize,
    /// Size of the block.
    pub block: usize,
    /// Bytes written to the card.
    pub received: usize,
    /// Bytes in the block.
    pub filled: usize,
    /// Whether the client stopped sending.
    pub ended: bool,
    /// Whether the client went away.
    pub lost: bool,
    /// When progress was last reported.
    pub last_report: u32,
}

impl Stream {
    /// Whether the block holds no more than fits in it and in the body.
    pub open spec fn wf(self) -> bool {
        &&& 0 < self.block <= BLOCK
        &&& self.filled <= self.block
        &&& self.received + self.filled <= self.len
    }

    /// How many bytes the next read asks for.
    pub open spec fn wanted(self) -> int {
        let (room, left) = (self.block - self.filled, self.len - self.received - self.filled);
        if room < left {
            room
        } else {
            left
        }
    }

    /// What comes next: nothing once every byte was written or the client went away; a write of a block that
    /// is full, holds the last of the body, or gets no more; else a read.
    pub open spec fn next(self) -> StreamAsk {
        if self.received == self.len {
            StreamAsk::Done
        } else if self.lost || (self.ended && self.filled == 0) {
            StreamAsk::Lost
        } else if self.ended || self.wanted() == 0 {
            StreamAsk::Write(self.filled)
        } else {
            StreamAsk::Read(self.filled, self.wanted() as usize)
        }
    }

    /// A body of `len` bytes.
    pub fn new(len: usize, now: u32) -> (r: Self)
        ensures
            r.wf(),
            r == (Stream {
                len,
                block: if len < 512 {
                    512
                } else if len < BLOCK {
                    len
                } else {
                    BLOCK
                },
                received: 0,
                filled: 0,
                ended: false,
                lost: false,
                last_report: now,
            }),
    {
        let block: usize = if len < 512 {
            512
        } else if len < BLOCK {
            len
        } else {
            BLOCK
        };
        Stream { len, block, received: 0, filled: 0, ended: false, lost: false, last_report: now }
    }

    /// What comes next.
    pub fn ask(&self) -> (r: StreamAsk)
        requires
            self.wf(),
        ensures
            r == self.next(),
    {
        if self.received == self.len {
            return StreamAsk::Done;
        }
        if self.lost || (self.ended && self.filled == 0) {
            return StreamAsk::Lost;
        }
        let room: usize = self.block - self.filled;
        let left: usize = self.len - self.received - self.filled;
        let want: usize = if room < left { room } else { left };
        if self.ended || want == 0 {
            StreamAsk::Write(self.filled)
        } else {
            StreamAsk::Read(self.filled, want)
        }
    }

    /// A read gave so many bytes (none: the client stopped sending), or failed.
    pub fn read(&mut self, n: Option<usize>)
        requires
            old(self).wf(),
            old(self).next() is Read,
            n matches Some(k) ==> k <= old(self).wanted(),
        ensures
            *final(self) == stream_read(*old(self), n),
            final(self).wf(),
            *final(self) == match n {
                None => Stream { lost: true, ..*old(self) },
                Some(k) => if k == 0 {
                    Stream { ended: true, ..*old(self) }
                } else {
                    Stream { filled: (old(self).filled + k) as usize, ..*old(self) }
                },
            },
    {
        match n {
            None => {
                self.lost = true;
            },
            Some(k) => {
                if k == 0 {
                    self.ended = true;
                } else {
                    self.filled = self.filled + k;
                }
            },
        }
    }

    /// The block was written to the card. Returns how much was received so far where that is to be reported:
    /// about once a second.
    pub fn written(&mut self, now: u32) -> (r: Option<usize>)
        requires
            old(self).wf(),
            old(self).next() is Write,
        ensures
            r == stream_report(*old(self), now),
            *final(self) == stream_written(*old(self), now),
            final(self).wf(),
            ({
                let due = now.wrapping_sub(old(self).last_report) >= REPORT_MS;
                let got = (old(self).received + old(self).filled) as usize;
                &&& r == if due {
                    Some(got)
                } else {
                    None
                }
                &&& *final(self) == (Stream {
                    received: got,
                    filled: 0,
                    ended: false,
                    last_report: if due {
                        now
                    } else {
                        old(self).last_report
                    },
                    ..*old(self)
                })
            }),
    {
        self.received = self.received + self.filled;
        self.filled = 0;
        self.ended = false;
        if now.wrapping_sub(self.last_report) >= REPORT_MS {
            self.last_report = now;
            Some(self.received)
        } else {
            None
        }
    }
}

/// What happens to a streamed body: a read of so many bytes, or a write of the block.
pub enum StreamEvent {
    /// A read gave these bytes.
    Read(Seq<u8>),
    /// The block was written.
    Written,
}

/// Whether an event is one the stream asked for.
pub open spec fn stream_expects(s: Stream, ev: StreamEvent) -> bool {
    match ev {
        StreamEvent::Read(b) => s.next() is Read && b.len() <= s.wanted(),
        StreamEvent::Written => s.next() is Write,
    }
}

/// The stream after an event; when progress was last reported does not matter here.
pub open spec fn stream_after(s: Stream, ev: StreamEvent) -> Stream {
    match ev {
        StreamEvent::Read(b) => if b.len() == 0 {
            Stream { ended: true, ..s }
        } else {
            Stream { filled: (s.filled + b.len()) as usize, ..s }
        },
        StreamEvent::Written => Stream { received: (s.received + s.filled) as usize, filled: 0, ended: false, ..s },
    }
}

/// The stream after the first `n` events.
pub open spec fn stream_run(s: Stream, evs: Seq<StreamEvent>, n: int) -> Stream
    decreases n,
{
    if n <= 0 {
        s
    } else {
        stream_after(stream_run(s, evs, n - 1), evs[n - 1])
    }
}

/// The bytes read in the first `n` events.
pub open spec fn bytes_read(evs: Seq<StreamEvent>, n: int) -> Seq<u8>
    decreases n,
{
    if n <= 0 {
        Seq::empty()
    } else {
        bytes_read(evs, n - 1) + (match evs[n - 1] {
            StreamEvent::Read(b) => b,
            StreamEvent::Written => Seq::empty(),
        })
    }
}

/// The bytes on the card after the first `n` events: at each write, everything read before it.
pub open spec fn bytes_stored(evs: Seq<StreamEvent>, n: int) -> Seq<u8>
    decreases n,
{
    if n <= 0 {
        Seq::empty()
    } else {
        match evs[n - 1] {
            StreamEvent::Read(_) => bytes_stored(evs, n - 1),
            StreamEvent::Written => bytes_read(evs, n - 1),
        }
    }
}

proof fn lemma_stream(s: Stream, evs: Seq<StreamEvent>, n: int)
    requires
        s.wf(),
        s.received == 0,
        s.filled == 0,
        !s.lost,
        !s.ended,
        0 <= n <= evs.len(),
        forall|i: int| 0 <= i < n ==> stream_expects(#[trigger] stream_run(s, evs, i), evs[i]),
    ensures
        stream_run(s, evs, n).wf(),
        stream_run(s, evs, n).len == s.len,
        stream_run(s, evs, n).block == s.block,
        !stream_run(s, evs, n).lost,
        stream_run(s, evs, n).received == bytes_stored(evs, n).len(),
        stream_run(s, evs, n).received + stream_run(s, evs, n).filled == bytes_read(evs, n).len(),
        bytes_stored(evs, n) == bytes_read(evs, n).take(bytes_stored(evs, n).len() as int),
    decreases n,
{
    if n > 0 {
        lemma_stream(s, evs, n - 1);
        let before = stream_run(s, evs, n - 1);
        assert(stream_expects(before, evs[n - 1]));
        assert(bytes_stored(evs, n) =~= bytes_read(evs, n).take(bytes_stored(evs, n).len() as int));
    } else {
        assert(bytes_stored(evs, n) =~= bytes_read(evs, n).take(0));
    }
}

/// A stream that is done has put on the card exactly the body's bytes, in the order they were read.
pub proof fn law_streamed_body_is_stored_whole(s: Stream, evs: Seq<StreamEvent>)
    requires
        s.wf(),
        s.received == 0,
        s.filled == 0,
        !s.lost,
        !s.ended,
        forall|i: int| 0 <= i < evs.len() ==> stream_expects(#[trigger] stream_run(s, evs, i), evs[i]),
        stream_run(s, evs, evs.len() as int).next() is Done,
    ensures
        bytes_stored(evs, evs.len() as int) == bytes_read(evs, evs.len() as int),
        bytes_stored(evs, evs.len() as int).len() == s.len,
{
    let n = evs.len() as int;
    lemma_stream(s, evs, n);
    assert(bytes_read(evs, n).take(bytes_read(evs, n).len() as int) =~= bytes_read(evs, n));
}

/// A stream never takes a byte beyond its body, and the block never overflows.
pub proof fn law_stream_stays_in_its_body(s: Stream, evs: Seq<StreamEvent>)
    requires
        s.wf(),
        s.received == 0,
        s.filled == 0,
        !s.lost,
        !s.ended,
        forall|i: int| 0 <= i < evs.len() ==> stream_expects(#[trigger] stream_run(s, evs, i), evs[i]),
    ensures
        bytes_read(evs, evs.len() as int).len() <= s.len,
        stream_run(s, evs, evs.len() as int).filled <= BLOCK,
{
    lemma_stream(s, evs, evs.len() as int);
}

/// What is told to the rest of the device while a file arrives. `T` is a text.
#[derive(Clone, Debug, PartialEq, Eq)]
pub enum Note<T> {
    /// A transfer started: name, path, bytes in all if known, bytes already there.
    Started(T, T, Option<u64>, u64),
    /// A transfer has so many bytes.
    Progress(T, u64),
    /// A transfer ended well.
    Finished(T),
    /// A transfer failed, and why.
    Failed(T, T),
    /// The list of downloads changed; dropped if the main loop is busy.
    Downloads,
    /// The list of downloads changed; waits for the main loop.
    DownloadsSurely,
    /// There are new books.
    BooksChanged,
    /// Told to the page: name, bytes so far, bytes in all, and how it stands.
    Page(T, u64, u64, &'static str),
    /// Told to the page: so many books arrived.
    Books(u32),
}

/// A note as it is read.
pub open spec fn note_view(n: Note<String>) -> Note<Seq<char>> {
    match n {
        Note::Started(a, b, t, s) => Note::Started(a@, b@, t, s),
        Note::Progress(a, n) => Note::Progress(a@, n),
        Note::Finished(a) => Note::Finished(a@),
        Note::Failed(a, b) => Note::Failed(a@, b@),
        Note::Downloads => Note::Downloads,
        Note::DownloadsSurely => Note::DownloadsSurely,
        Note::BooksChanged => Note::BooksChanged,
        Note::Page(a, n, t, s) => Note::Page(a@, n, t, s),
        Note::Books(n) => Note::Books(n),
    }
}

/// Notes as they are read.
pub open spec fn note_views(v: Seq<Note<String>>) -> Seq<Note<Seq<char>>> {
    v.map_values(|n: Note<String>| note_view(n))
}

/// What a handler asks of the card, or answers. `T` is a text, `L` a list of texts.
#[derive(Clone, Debug, PartialEq, Eq)]
pub enum Ask<T, L> {
    /// Is this path there?
    Exists(T),
    /// Make this folder and all above it.
    MkdirAll(T),
    /// Create this file, empty, and keep it open.
    Create(T),
    /// Open this file at its end.
    Append(T),
    /// Write the data at hand to the open file.
    Write,
    /// Stream so many bytes of the body to the open file.
    Stream(usize),
    /// Flush and close the open file.
    Flush,
    /// Delete this file.
    Remove(T),
    /// Give this file that name.
    Rename(T, T),
    /// Answer.
    Reply(Resp<T, L>),
    /// Nothing.
    Nothing,
}

/// An ask, with texts as sequences of characters.
pub type AskView = Ask<Seq<char>, Seq<Seq<char>>>;

impl View for Ask<String, Vec<String>> {
    type V = Ask<Seq<char>, Seq<Seq<char>>>;

    open spec fn view(&self) -> Ask<Seq<char>, Seq<Seq<char>>> {
        match *self {
            Ask::Exists(p) => Ask::Exists(p@),
            Ask::MkdirAll(p) => Ask::MkdirAll(p@),
            Ask::Create(p) => Ask::Create(p@),
            Ask::Append(p) => Ask::Append(p@),
            Ask::Write => Ask::Write,
            Ask::Stream(n) => Ask::Stream(n),
            Ask::Flush => Ask::Flush,
            Ask::Remove(p) => Ask::Remove(p@),
            Ask::Rename(a, b) => Ask::Rename(a@, b@),
            Ask::Reply(r) => Ask::Reply(r@),
            Ask::Nothing => Ask::Nothing,
        }
    }
}

/// What the platform reports back.
#[derive(Clone, Debug, PartialEq, Eq)]
pub enum Told {
    /// Whether the path is there.
    Exists(bool),
    /// It was done.
    Done,
    /// The card refused.
    Failed(FsError),
    /// The client went away.
    Lost,
}

/// One step of a handler: what is told, then what is asked.
pub struct Out {
    /// What is told.
    pub notes: Vec<Note<String>>,
    /// What is asked.
    pub ask: Ask<String, Vec<String>>,
}

/// What a step says.
pub open spec fn says(out: Out, notes: Seq<Note<Seq<char>>>, ask: AskView) -> bool {
    note_views(out.notes@) == notes && out.ask@ == ask
}

pub(crate) fn quietly(ask: Ask<String, Vec<String>>) -> (r: Out)
    ensures
        says(r, Seq::empty(), ask@),
{
    let r = Out { notes: Vec::new(), ask };
    assert(note_views(r.notes@) =~= Seq::<Note<Seq<char>>>::empty());
    r
}

pub(crate) fn telling(a: Note<String>, ask: Ask<String, Vec<String>>) -> (r: Out)
    ensures
        says(r, seq![note_view(a)], ask@),
{
    let mut notes: Vec<Note<String>> = Vec::new();
    notes.push(a);
    let r = Out { notes, ask };
    assert(note_views(r.notes@) =~= seq![note_view(a)]);
    r
}

fn telling2(a: Note<String>, b: Note<String>, ask: Ask<String, Vec<String>>) -> (r: Out)
    ensures
        says(r, seq![note_view(a), note_view(b)], ask@),
{
    let mut notes: Vec<Note<String>> = Vec::new();
    notes.push(a);
    notes.push(b);
    let r = Out { notes, ask };
    assert(note_views(r.notes@) =~= seq![note_view(a), note_view(b)]);
    r
}

/// The file that an upload to a path is collected in.
pub open spec fn part_of(path: Seq<char>) -> Seq<char> {
    path + ".part"@
}

/// The file that an upload to a path is collected in.
pub fn part_name(path: &str) -> (r: String)
    ensures
        r@ == part_of(path@),
{
    text::join2(path, ".part")
}

/// How an upload goes on from what is there.
#[derive(Clone, Copy, Debug, PartialEq, Eq, Structural)]
pub enum UploadPlan {
    /// From the start; whether this body is the last.
    Fresh(bool),
    /// Where the part ends; whether this body is the last.
    Append(bool),
    /// Not at all: the part has so many bytes.
    Mismatch(u64),
}

/// Where an upload stands: what was asked last.
#[derive(Clone, Copy, Debug, PartialEq, Eq, Structural)]
pub enum PutState {
    /// Whether the folder is there.
    Folder,
    /// To make the folder.
    Mkdir,
    /// To open the part.
    Open,
    /// To stream the body.
    Body,
    /// To flush the part.
    Flush,
    /// Whether the file is there already.
    Target,
    /// To delete the file that is there.
    Remove,
    /// To put the part in its place.
    Rename,
    /// Nothing more.
    Over,
}

/// A file being put on the card: streamed to `<path>.part` and renamed into place when complete.
pub struct Put {
    /// Where it goes.
    pub path: String,
    /// Where it is collected.
    pub part: String,
    /// The folder it goes in.
    pub parent: String,
    /// Its name.
    pub name: String,
    /// Bytes in this body.
    pub len: usize,
    /// Whether this body is the last.
    pub last: bool,
    /// Bytes in the part before this body.
    pub start: u64,
    /// Bytes in all.
    pub total: u64,
    /// Where it stands.
    pub state: PutState,
}

impl Put {
    /// Whether the names fit together and the bytes can be counted.
    pub open spec fn wf(self) -> bool {
        &&& self.part@ == part_of(self.path@)
        &&& self.parent@ == card::folder(self.path@)
        &&& self.name@ == card::leaf(self.path@)
        &&& self.start + self.len <= u64::MAX
    }

    /// Bytes received once this body is.
    pub open spec fn received(self) -> u64 {
        (self.start + self.len) as u64
    }
}

/// What an upload starts with, by its plan.
pub open spec fn put_start(p: Put, plan: Result<UploadPlan, Seq<char>>) -> (PutState, AskView) {
    match plan {
        Err(e) => (PutState::Over, Ask::Reply(Resp::Error(Status::BadRequest, e))),
        Ok(UploadPlan::Mismatch(have)) => (PutState::Over, Ask::Reply(Resp::Received(Status::Conflict, have, false))),
        Ok(UploadPlan::Fresh(_)) => if p.parent@.len() > 0 {
            (PutState::Folder, Ask::Exists(p.parent@))
        } else {
            (PutState::Open, Ask::Create(p.part@))
        },
        Ok(UploadPlan::Append(_)) => (PutState::Open, Ask::Append(p.part@)),
    }
}

/// Whether the platform can report this to an upload that stands so.
pub open spec fn put_expects(state: PutState, ev: Told) -> bool {
    match state {
        PutState::Folder | PutState::Target => ev is Exists,
        PutState::Mkdir | PutState::Open | PutState::Flush | PutState::Remove | PutState::Rename => ev is Done || ev is Failed,
        PutState::Body => ev is Done || ev is Failed || ev is Lost,
        PutState::Over => false,
    }
}

/// How an upload goes on: where it then stands, what is told, and what is asked.
pub open spec fn put_next(p: Put, ev: Told) -> (PutState, Seq<Note<Seq<char>>>, AskView) {
    let none = Seq::<Note<Seq<char>>>::empty();
    let (path, part, name) = (p.path@, p.part@, p.name@);
    match (p.state, ev) {
        (PutState::Folder, Told::Exists(there)) => if there {
            (PutState::Open, none, Ask::Create(part))
        } else {
            (PutState::Mkdir, none, Ask::MkdirAll(p.parent@))
        },
        (PutState::Mkdir, Told::Done) => (PutState::Open, none, Ask::Create(part)),
        (PutState::Mkdir, Told::Failed(e)) => (PutState::Over, none, Ask::Reply(http::card_error(e))),
        (PutState::Open, Told::Done) => (
            PutState::Body,
            seq![Note::Started(name, path, Some(p.total), p.start), Note::Downloads],
            Ask::Stream(p.len),
        ),
        (PutState::Open, Told::Failed(e)) => (PutState::Over, none, Ask::Reply(http::card_error(e))),
        (PutState::Body, Told::Done) => (PutState::Flush, none, Ask::Flush),
        (PutState::Body, Told::Lost) => (
            PutState::Over,
            seq![Note::Failed(name, "connection lost"@), Note::Downloads],
            Ask::Reply(Resp::Error(Status::BadRequest, "body ended early"@)),
        ),
        (PutState::Body, Told::Failed(e)) => (
            PutState::Over,
            seq![Note::Failed(name, e.name()), Note::Downloads],
            Ask::Reply(http::card_error(e)),
        ),
        (PutState::Flush, Told::Done) => if p.last {
            (PutState::Target, none, Ask::Exists(path))
        } else {
            (
                PutState::Over,
                seq![Note::Progress(name, p.received()), Note::Downloads],
                Ask::Reply(Resp::Received(Status::Okay, p.received(), false)),
            )
        },
        (PutState::Target, Told::Exists(there)) => if there {
            (PutState::Remove, none, Ask::Remove(path))
        } else {
            (PutState::Rename, none, Ask::Rename(part, path))
        },
        (PutState::Remove, _) => (PutState::Rename, none, Ask::Rename(part, path)),
        (PutState::Rename, Told::Done) => (
            PutState::Over,
            seq![
                Note::Finished(name),
                Note::DownloadsSurely,
                Note::BooksChanged,
                Note::Page(name, p.received(), p.total, "done"),
                Note::Books(1),
            ],
            Ask::Reply(Resp::Received(Status::Created, p.received(), true)),
        ),
        (_, Told::Failed(e)) => (PutState::Over, seq![Note::Failed(name, e.name())], Ask::Reply(http::card_error(e))),
        _ => (PutState::Over, none, Ask::Nothing),
    }
}

impl Put {
    /// A body of `len` bytes for a path. `have` is how many bytes its part has, if it is there, `total` how many
    /// the file has in all, if the request says so, and `plan` how the two go together, or why they do not.
    pub fn begin(
        path: &str,
        len: usize,
        have: Option<u64>,
        total: Option<u64>,
        plan: Result<UploadPlan, String>,
    ) -> (r: (Put, Ask<String, Vec<String>>))
        requires
            have matches Some(h) ==> h + len <= u64::MAX,
        ensures
            (r.0.last, r.0.start, r.0.total) == put_begun(match plan { Ok(p) => Some(p), Err(_) => None }, have, total, len),
            r.0.wf(),
            r.0.path@ == path@,
            r.0.len == len,
            r.0.last == (plan == Ok::<UploadPlan, String>(UploadPlan::Fresh(true)) || plan == Ok::<UploadPlan, String>(
                UploadPlan::Append(true),
            )),
            r.0.start == if plan matches Ok(UploadPlan::Append(_)) {
                match have {
                    Some(h) => h,
                    None => 0,
                }
            } else {
                0
            },
            r.0.total == match total {
                Some(t) => t,
                None => len as u64,
            },
            (r.0.state, r.1@) == put_start(
                r.0,
                match plan {
                    Ok(p) => Ok(p),
                    Err(e) => Err(e@),
                },
            ),
    {
        let total: u64 = match total {
            Some(t) => t,
            None => len as u64,
        };
        let mut p = Put {
            path: text::owned(path),
            part: part_name(path),
            parent: card::parent(path),
            name: card::file_name(path),
            len,
            last: false,
            start: 0,
            total,
            state: PutState::Over,
        };
        match plan {
            Err(e) => {
                let a = http::error(Status::BadRequest, &e);
                (p, Ask::Reply(a))
            },
            Ok(UploadPlan::Mismatch(h)) => (p, Ask::Reply(Resp::Received(Status::Conflict, h, false))),
            Ok(UploadPlan::Fresh(last)) => {
                p.last = last;
                if p.parent.as_str().is_empty() {
                    p.state = PutState::Open;
                    let part = p.part.clone();
                    (p, Ask::Create(part))
                } else {
                    p.state = PutState::Folder;
                    let parent = p.parent.clone();
                    (p, Ask::Exists(parent))
                }
            },
            Ok(UploadPlan::Append(last)) => {
                p.last = last;
                p.start = match have {
                    Some(h) => h,
                    None => 0,
                };
                p.state = PutState::Open;
                let part = p.part.clone();
                (p, Ask::Append(part))
            },
        }
    }

    /// So many bytes of this body are on the card.
    pub fn progress(&self, got: usize) -> (r: Vec<Note<String>>)
        requires
            self.wf(),
            got <= self.len,
        ensures
            note_views(r@) == progress_notes(*self, got),
            note_views(r@) == seq![
                Note::Progress(self.name@, (self.start + got) as u64),
                Note::Downloads,
                Note::Page(self.name@, (self.start + got) as u64, self.total, "uploading"),
            ],
    {
        let done: u64 = self.start + got as u64;
        let mut v: Vec<Note<String>> = Vec::new();
        v.push(Note::Progress(self.name.clone(), done));
        v.push(Note::Downloads);
        v.push(Note::Page(self.name.clone(), done, self.total, "uploading"));
        assert(note_views(v@) =~= seq![
            Note::Progress(self.name@, (self.start + got) as u64),
            Note::Downloads,
            Note::Page(self.name@, (self.start + got) as u64, self.total, "uploading"),
        ]);
        v
    }

    fn placed(&self) -> (r: Out)
        requires
            self.wf(),
            self.state == PutState::Rename,
        ensures
            says(r, put_next(*self, Told::Done).1, put_next(*self, Told::Done).2),
    {
        let received: u64 = self.start + self.len as u64;
        let mut notes: Vec<Note<String>> = Vec::new();
        notes.push(Note::Finished(self.name.clone()));
        notes.push(Note::DownloadsSurely);
        notes.push(Note::BooksChanged);
        notes.push(Note::Page(self.name.clone(), received, self.total, "done"));
        notes.push(Note::Books(1));
        let r = Out { notes, ask: Ask::Reply(Resp::Received(Status::Created, received, true)) };
        assert(note_views(r.notes@) =~= put_next(*self, Told::Done).1);
        r
    }

    fn give_up(&self, e: &FsError) -> (r: Out)
        ensures
            says(r, seq![Note::Failed(self.name@, e.name())], AskView::Reply(http::card_error(*e))),
    {
        telling(Note::Failed(self.name.clone(), e.text()), Ask::Reply(http::fs_error(e)))
    }

    /// The platform did what was asked, or could not.
    pub fn step(&mut self, ev: Told) -> (r: Out)
        requires
            old(self).wf(),
            put_expects(old(self).state, ev),
        ensures
            final(self).wf(),
            *final(self) == (Put { state: put_next(*old(self), ev).0, ..*old(self) }),
            says(r, put_next(*old(self), ev).1, put_next(*old(self), ev).2),
    {
        let state = self.state;
        match (state, ev) {
            (PutState::Folder, Told::Exists(there)) => {
                if there {
                    self.state = PutState::Open;
                    quietly(Ask::Create(self.part.clone()))
                } else {
                    self.state = PutState::Mkdir;
                    quietly(Ask::MkdirAll(self.parent.clone()))
                }
            },
            (PutState::Mkdir, Told::Done) => {
                self.state = PutState::Open;
                quietly(Ask::Create(self.part.clone()))
            },
            (PutState::Mkdir, Told::Failed(e)) => {
                self.state = PutState::Over;
                quietly(Ask::Reply(http::fs_error(&e)))
            },
            (PutState::Open, Told::Done) => {
                self.state = PutState::Body;
                telling2(
                    Note::Started(self.name.clone(), self.path.clone(), Some(self.total), self.start),
                    Note::Downloads,
                    Ask::Stream(self.len),
                )
            },
            (PutState::Open, Told::Failed(e)) => {
                self.state = PutState::Over;
                quietly(Ask::Reply(http::fs_error(&e)))
            },
            (PutState::Body, Told::Done) => {
                self.state = PutState::Flush;
                quietly(Ask::Flush)
            },
            (PutState::Body, Told::Lost) => {
                self.state = PutState::Over;
                telling2(
                    Note::Failed(self.name.clone(), text::owned("connection lost")),
                    Note::Downloads,
                    Ask::Reply(http::error(Status::BadRequest, "body ended early")),
                )
            },
            (PutState::Body, Told::Failed(e)) => {
                self.state = PutState::Over;
                telling2(
                    Note::Failed(self.name.clone(), e.text()),
                    Note::Downloads,
                    Ask::Reply(http::fs_error(&e)),
                )
            },
            (PutState::Flush, Told::Done) => {
                if self.last {
                    self.state = PutState::Target;
                    quietly(Ask::Exists(self.path.clone()))
                } else {
                    self.state = PutState::Over;
                    let received: u64 = self.start + self.len as u64;
                    telling2(
                        Note::Progress(self.name.clone(), received),
                        Note::Downloads,
                        Ask::Reply(Resp::Received(Status::Okay, received, false)),
                    )
                }
            },
            (PutState::Target, Told::Exists(there)) => {
                if there {
                    self.state = PutState::Remove;
                    quietly(Ask::Remove(self.path.clone()))
                } else {
                    self.state = PutState::Rename;
                    quietly(Ask::Rename(self.part.clone(), self.path.clone()))
                }
            },
            (PutState::Remove, _) => {
                self.state = PutState::Rename;
                quietly(Ask::Rename(self.part.clone(), self.path.clone()))
            },
            (PutState::Rename, Told::Done) => {
                let r = self.placed();
                self.state = PutState::Over;
                r
            },
            (_, Told::Failed(e)) => {
                self.state = PutState::Over;
                self.give_up(&e)
            },
            _ => {
                self.state = PutState::Over;
                quietly(Ask::Nothing)
            },
        }
    }
}

/// The files on a card, by path.
pub type Files = Map<Seq<char>, Seq<u8>>;

/// The files on a card that does what is asked; `open` is the file that is open, `body` what is streamed to it.
pub open spec fn effect(files: Files, ask: AskView, open: Seq<char>, body: Seq<u8>) -> Files {
    match ask {
        Ask::Create(p) => files.insert(p, Seq::empty()),
        Ask::Append(p) => if files.dom().contains(p) {
            files
        } else {
            files.insert(p, Seq::empty())
        },
        Ask::Stream(_) => files.insert(open, files[open] + body),
        Ask::Remove(p) => files.remove(p),
        Ask::Rename(a, b) => files.remove(a).insert(b, files[a]),
        _ => files,
    }
}

/// What a card that does what is asked reports back.
pub open spec fn answer(files: Files, folders: Set<Seq<char>>, ask: AskView) -> Told {
    match ask {
        Ask::Exists(p) => Told::Exists(files.dom().contains(p) || folders.contains(p)),
        _ => Told::Done,
    }
}

/// How many steps an upload can still take.
pub open spec fn steps_left(s: PutState) -> nat {
    match s {
        PutState::Folder => 8,
        PutState::Mkdir => 7,
        PutState::Open => 6,
        PutState::Body => 5,
        PutState::Flush => 4,
        PutState::Target => 3,
        PutState::Remove => 2,
        PutState::Rename => 1,
        PutState::Over => 0,
    }
}

/// The files and the answer once an upload has run to its end, from the report `ev` on, on a card that does what
/// is asked.
pub open spec fn put_run(p: Put, ev: Told, files: Files, folders: Set<Seq<char>>, body: Seq<u8>) -> (Files, Option<Said>)
    decreases steps_left(p.state),
{
    if p.state == PutState::Over || !put_expects(p.state, ev) {
        (files, None)
    } else {
        let (state, _, ask) = put_next(p, ev);
        match ask {
            Ask::Reply(r) => (files, Some(r)),
            _ => put_run(
                Put { state, ..p },
                answer(files, folders, ask),
                effect(files, ask, p.part@, body),
                folders,
                body,
            ),
        }
    }
}

/// The files and the answer once an upload has run to its end.
pub open spec fn put_whole(
    p: Put,
    plan: UploadPlan,
    files: Files,
    folders: Set<Seq<char>>,
    body: Seq<u8>,
) -> (Files, Option<Said>) {
    let (state, ask) = put_start(p, Ok(plan));
    match ask {
        Ask::Reply(r) => (files, Some(r)),
        _ => put_run(
            Put { state, ..p },
            answer(files, folders, ask),
            effect(files, ask, p.part@, body),
            folders,
            body,
        ),
    }
}

/// An upload sent in one body ends with the file in place, holding exactly the body, whatever stood there before,
/// and with no part left.
pub proof fn law_upload_reads_back(p: Put, files: Files, folders: Set<Seq<char>>, body: Seq<u8>)
    requires
        p.wf(),
        p.last,
        p.start == 0,
        body.len() == p.len,
        !folders.contains(p.path@),
    ensures
        put_whole(p, UploadPlan::Fresh(true), files, folders, body) == (
            files.remove(p.part@).insert(p.path@, body),
            Some(Said::Received(Status::Created, p.len as u64, true)),
        ),
{
    reveal_with_fuel(put_run, 9);
    assert(p.part@.len() > p.path@.len()) by {
        reveal_strlit(".part");
    }
    let empty = files.insert(p.part@, Seq::<u8>::empty());
    assert(empty[p.part@] + body =~= body);
    let full = empty.insert(p.part@, empty[p.part@] + body);
    assert(full.remove(p.part@).insert(p.path@, body) =~= files.remove(p.part@).insert(p.path@, body));
    assert(full.remove(p.path@).remove(p.part@).insert(p.path@, body) =~= files.remove(p.part@).insert(p.path@, body));
}

/// A body that is not the last is kept in the part, behind what the part holds; the file itself stays as it is.
pub proof fn law_early_body_is_kept_aside(
    p: Put,
    plan: UploadPlan,
    files: Files,
    folders: Set<Seq<char>>,
    body: Seq<u8>,
)
    requires
        p.wf(),
        !p.last,
        plan == UploadPlan::Fresh(false) && p.start == 0 || plan == UploadPlan::Append(false) && files.dom().contains(
            p.part@,
        ) && files[p.part@].len() == p.start,
        body.len() == p.len,
    ensures
        put_whole(p, plan, files, folders, body) == (
            files.insert(
                p.part@,
                (if plan == UploadPlan::Fresh(false) {
                    Seq::empty()
                } else {
                    files[p.part@]
                }) + body,
            ),
            Some(Said::Received(Status::Okay, (p.start + p.len) as u64, false)),
        ),
        put_whole(p, plan, files, folders, body).0.dom().contains(p.path@) == files.dom().contains(p.path@),
        files.dom().contains(p.path@) ==> put_whole(p, plan, files, folders, body).0[p.path@] == files[p.path@],
{
    reveal_with_fuel(put_run, 9);
    assert(p.part@.len() > p.path@.len()) by {
        reveal_strlit(".part");
    }
    let empty = files.insert(p.part@, Seq::<u8>::empty());
    assert(empty.insert(p.part@, empty[p.part@] + body) =~= files.insert(p.part@, Seq::<u8>::empty() + body));
}

/// A last body that goes on where the part ends puts the file in place, holding the part and the body.
pub proof fn law_last_body_completes_the_file(p: Put, files: Files, folders: Set<Seq<char>>, body: Seq<u8>)
    requires
        p.wf(),
        p.last,
        files.dom().contains(p.part@),
        files[p.part@].len() == p.start,
        body.len() == p.len,
        !folders.contains(p.path@),
    ensures
        put_whole(p, UploadPlan::Append(true), files, folders, body) == (
            files.remove(p.part@).insert(p.path@, files[p.part@] + body),
            Some(Said::Received(Status::Created, (p.start + p.len) as u64, true)),
        ),
{
    reveal_with_fuel(put_run, 9);
    assert(p.part@.len() > p.path@.len()) by {
        reveal_strlit(".part");
    }
    let whole = files[p.part@] + body;
    let full = files.insert(p.part@, whole);
    assert(full.remove(p.part@).insert(p.path@, whole) =~= files.remove(p.part@).insert(p.path@, whole));
    assert(full.remove(p.path@).remove(p.part@).insert(p.path@, whole) =~= files.remove(p.part@).insert(p.path@, whole));
}

/// A file sent in two bodies ends on the card as if it had been sent in one.
pub proof fn law_two_bodies_make_one_file(
    first: Put,
    second: Put,
    one: Put,
    files: Files,
    folders: Set<Seq<char>>,
    a: Seq<u8>,
    b: Seq<u8>,
)
    requires
        first.wf(),
        second.wf(),
        one.wf(),
        first.path@ == one.path@,
        second.path@ == one.path@,
        !first.last,
        first.start == 0,
        first.len == a.len(),
        second.last,
        second.start == a.len(),
        second.len == b.len(),
        one.last,
        one.start == 0,
        one.len == a.len() + b.len(),
        !folders.contains(one.path@),
    ensures
        ({
            let between = put_whole(first, UploadPlan::Fresh(false), files, folders, a).0;
            put_whole(second, UploadPlan::Append(true), between, folders, b).0 == put_whole(
                one,
                UploadPlan::Fresh(true),
                files,
                folders,
                a + b,
            ).0
        }),
{
    law_early_body_is_kept_aside(first, UploadPlan::Fresh(false), files, folders, a);
    let between = put_whole(first, UploadPlan::Fresh(false), files, folders, a).0;
    assert(Seq::<u8>::empty() + a =~= a);
    law_last_body_completes_the_file(second, between, folders, b);
    law_upload_reads_back(one, files, folders, a + b);
    assert(between.remove(one.part@).insert(one.path@, a + b) =~= files.remove(one.part@).insert(one.path@, a + b));
}

/// An upload after the first `n` reports.
pub open spec fn put_after(p: Put, evs: Seq<Told>, n: int) -> Put
    decreases n,
{
    if n <= 0 {
        p
    } else {
        Put { state: put_next(put_after(p, evs, n - 1), evs[n - 1]).0, ..p }
    }
}

/// Whether the whole body was streamed and flushed within the first `n` reports.
pub open spec fn is_whole(p: Put, evs: Seq<Told>, n: int) -> bool {
    exists|i: int, j: int|
        0 <= i < j < n && #[trigger] put_after(p, evs, i).state == PutState::Body && evs[i] is Done && #[trigger] put_after(
            p,
            evs,
            j,
        ).state == PutState::Flush && evs[j] is Done
}

proof fn lemma_put_after(p: Put, evs: Seq<Told>, n: int)
    requires
        p.state == PutState::Folder || p.state == PutState::Open,
        0 <= n <= evs.len(),
        forall|i: int| 0 <= i < n ==> put_expects(#[trigger] put_after(p, evs, i).state, evs[i]),
    ensures
        put_after(p, evs, n) == (Put { state: put_after(p, evs, n).state, ..p }),
        put_after(p, evs, n).state == PutState::Flush ==> n > 0 && put_after(p, evs, n - 1).state == PutState::Body
            && evs[n - 1] is Done,
        put_after(p, evs, n).state == PutState::Target || put_after(p, evs, n).state == PutState::Remove || put_after(
            p,
            evs,
            n,
        ).state == PutState::Rename ==> p.last && is_whole(p, evs, n),
    decreases n,
{
    if n > 0 {
        lemma_put_after(p, evs, n - 1);
        let q = put_after(p, evs, n - 1);
        assert(put_expects(q.state, evs[n - 1]));
        if q.state == PutState::Flush && evs[n - 1] is Done {
            assert(put_after(p, evs, n - 2).state == PutState::Body);
            assert(is_whole(p, evs, n));
        }
        if is_whole(p, evs, n - 1) {
            assert(is_whole(p, evs, n));
        }
    }
}

/// Whatever the card and the client do, the file itself is deleted or replaced only by a last body that was
/// streamed and flushed whole; until then only its part and its folder are touched.
pub proof fn law_file_is_replaced_only_when_whole(p: Put, evs: Seq<Told>, n: int)
    requires
        p.wf(),
        p.state == PutState::Folder || p.state == PutState::Open,
        0 <= n < evs.len(),
        forall|i: int| 0 <= i <= n ==> put_expects(#[trigger] put_after(p, evs, i).state, evs[i]),
    ensures
        match put_next(put_after(p, evs, n), evs[n]).2 {
            Ask::Remove(q) => q == p.path@ && p.last && is_whole(p, evs, n),
            Ask::Rename(a, b) => a == p.part@ && b == p.path@ && p.last && is_whole(p, evs, n),
            Ask::Create(q) => q == p.part@,
            Ask::Append(q) => false,
            Ask::MkdirAll(q) => q == p.parent@,
            _ => true,
        },
{
    lemma_put_after(p, evs, n);
    assert(put_expects(put_after(p, evs, n).state, evs[n]));
}

/// Where deleting a file stands: what was asked last.
#[derive(Clone, Copy, Debug, PartialEq, Eq, Structural)]
pub enum DeleteState {
    /// Whether it has a part.
    Part,
    /// To delete the part.
    RemovePart,
    /// To delete the file.
    Remove,
    /// Nothing more.
    Over,
}

/// A file being deleted, with the part of an upload that was left.
pub struct Delete {
    /// The file.
    pub path: String,
    /// Its part.
    pub part: String,
    /// Where it stands.
    pub state: DeleteState,
}

/// Whether the platform can report this to a deletion that stands so.
pub open spec fn delete_expects(state: DeleteState, ev: Told) -> bool {
    match state {
        DeleteState::Part => ev is Exists,
        DeleteState::RemovePart | DeleteState::Remove => ev is Done || ev is Failed,
        DeleteState::Over => false,
    }
}

/// How a deletion goes on: where it then stands, what is told, and what is asked. That the part could not be
/// deleted does not matter.
pub open spec fn delete_next(d: Delete, ev: Told) -> (DeleteState, Seq<Note<Seq<char>>>, AskView) {
    let none = Seq::<Note<Seq<char>>>::empty();
    match (d.state, ev) {
        (DeleteState::Part, Told::Exists(true)) => (DeleteState::RemovePart, none, Ask::Remove(d.part@)),
        (DeleteState::Part, _) | (DeleteState::RemovePart, _) => (DeleteState::Remove, none, Ask::Remove(d.path@)),
        (DeleteState::Remove, Told::Failed(e)) => (DeleteState::Over, none, Ask::Reply(http::card_error(e))),
        _ => (DeleteState::Over, seq![Note::BooksChanged], Ask::Reply(Resp::Empty(Status::NoContent))),
    }
}

impl Delete {
    /// Begin to delete a file: first it is asked whether it has a part.
    pub fn begin(path: &str) -> (r: (Delete, Ask<String, Vec<String>>))
        ensures
            r.0.path@ == path@,
            r.0.part@ == part_of(path@),
            r.0.state == DeleteState::Part,
            r.1@ == AskView::Exists(part_of(path@)),
    {
        let d = Delete { path: text::owned(path), part: part_name(path), state: DeleteState::Part };
        let ask = Ask::Exists(d.part.clone());
        (d, ask)
    }

    /// The platform did what was asked, or could not.
    pub fn step(&mut self, ev: Told) -> (r: Out)
        requires
            delete_expects(old(self).state, ev),
        ensures
            *final(self) == (Delete { state: delete_next(*old(self), ev).0, ..*old(self) }),
            says(r, delete_next(*old(self), ev).1, delete_next(*old(self), ev).2),
    {
        let state = self.state;
        match (state, ev) {
            (DeleteState::Part, Told::Exists(true)) => {
                self.state = DeleteState::RemovePart;
                quietly(Ask::Remove(self.part.clone()))
            },
            (DeleteState::Part, _) | (DeleteState::RemovePart, _) => {
                self.state = DeleteState::Remove;
                quietly(Ask::Remove(self.path.clone()))
            },
            (DeleteState::Remove, Told::Failed(e)) => {
                self.state = DeleteState::Over;
                quietly(Ask::Reply(http::fs_error(&e)))
            },
            _ => {
                self.state = DeleteState::Over;
                telling(Note::BooksChanged, Ask::Reply(Resp::Empty(Status::NoContent)))
            },
        }
    }
}

/// A file that was renamed, or could not be, to `to`.
pub fn rename_done(to: String, ev: Told) -> (r: Out)
    requires
        ev is Done || ev is Failed,
    ensures
        match ev {
            Told::Failed(e) => says(r, Seq::empty(), AskView::Reply(http::card_error(e))),
            _ => says(r, seq![Note::BooksChanged], AskView::Reply(Resp::Path(Status::Okay, to@))),
        },
{
    match ev {
        Told::Failed(e) => quietly(Ask::Reply(http::fs_error(&e))),
        _ => telling(Note::BooksChanged, Ask::Reply(Resp::Path(Status::Okay, to))),
    }
}

/// A name with every slash turned into an underscore.
pub open spec fn flat(name: Seq<char>) -> Seq<char> {
    name.map_values(|c: char| if c == '/' { '_' } else { c })
}

fn flatten(name: &str) -> (r: String)
    ensures
        r@ == flat(name@),
{
    let v = text::chars_of(name);
    let mut out = String::new();
    let mut i: usize = 0;
    assert(out@ =~= flat(v@.take(0)));
    while i < v.len()
        invariant
            i <= v@.len(),
            out@ == flat(v@.take(i as int)),
        decreases v@.len() - i,
    {
        let c: char = v[i];
        out.push(if c == '/' { '_' } else { c });
        assert(out@ =~= flat(v@.take(i + 1)));
        i += 1;
    }
    assert(v@.take(i as int) =~= v@);
    out
}

/// The file a sleep image of this name is stored in: a flat name, with the extension of a bitmap.
pub open spec fn image_name(name: Seq<char>) -> Seq<char> {
    if ".pbm"@.is_suffix_of(flat(name)) {
        flat(name)
    } else {
        flat(name) + ".pbm"@
    }
}

/// Where receiving a sleep image stands: what was asked last.
#[derive(Clone, Copy, Debug, PartialEq, Eq, Structural)]
pub enum SleepState {
    /// Whether the folder is there.
    Folder,
    /// To make the folder.
    Mkdir,
    /// To create the file.
    Create,
    /// To stream the body.
    Body,
    /// To flush the file.
    Flush,
    /// Nothing more.
    Over,
}

/// A sleep image being received: a dithered 1-bit PBM for the sleep folder.
pub struct SleepPut {
    /// The folder.
    pub folder: String,
    /// Where it goes.
    pub path: String,
    /// Bytes in the body.
    pub len: usize,
    /// Where it stands.
    pub state: SleepState,
}

/// Whether the platform can report this to a sleep image that stands so.
pub open spec fn sleep_expects(state: SleepState, ev: Told) -> bool {
    match state {
        SleepState::Folder => ev is Exists,
        SleepState::Mkdir | SleepState::Create | SleepState::Flush => ev is Done || ev is Failed,
        SleepState::Body => ev is Done || ev is Failed || ev is Lost,
        SleepState::Over => false,
    }
}

/// How a sleep image goes on: where it then stands, and what is asked. That the folder could not be made does
/// not matter.
pub open spec fn sleep_next(s: SleepPut, ev: Told) -> (SleepState, AskView) {
    match (s.state, ev) {
        (SleepState::Folder, Told::Exists(false)) => (SleepState::Mkdir, Ask::MkdirAll(s.folder@)),
        (SleepState::Folder, _) | (SleepState::Mkdir, _) => (SleepState::Create, Ask::Create(s.path@)),
        (SleepState::Create, Told::Done) => (SleepState::Body, Ask::Stream(s.len)),
        (SleepState::Body, Told::Done) => (SleepState::Flush, Ask::Flush),
        (SleepState::Body, Told::Lost) => (
            SleepState::Over,
            Ask::Reply(Resp::Error(Status::BadRequest, "body ended early"@)),
        ),
        (_, Told::Failed(e)) => (SleepState::Over, Ask::Reply(http::card_error(e))),
        _ => (SleepState::Over, Ask::Reply(Resp::Path(Status::Created, s.path@))),
    }
}

impl SleepPut {
    /// Begin to receive a sleep image of this name into the sleep folder, or what is answered instead. First it is
    /// asked whether the folder is there.
    pub fn begin(name: Option<String>, len: usize, folder: &str) -> (r: Result<(SleepPut, Ask<String, Vec<String>>), Answer>)
        ensures
            match name {
                None => r matches Err(a) && a@ == Said::Error(Status::BadRequest, "name="@),
                Some(n) => if len > MAX_SLEEP_BODY {
                    r matches Err(a) && a@ == Said::Error(Status::PayloadTooLarge, "too large for a sleep image"@)
                } else {
                    match routes::sanitized(folder@ + "/"@ + image_name(n@)) {
                        None => r matches Err(a) && a@ == Said::Error(Status::BadRequest, "bad name"@),
                        Some(p) => r matches Ok((s, ask)) && s.folder@ == folder@ && s.path@ == p && s.len == len && s.state
                            == SleepState::Folder && ask@ == AskView::Exists(folder@),
                    }
                },
            },
    {
        let name = match name {
            Some(n) => n,
            None => {
                return Err(http::error(Status::BadRequest, "name="));
            },
        };
        if len > MAX_SLEEP_BODY {
            return Err(http::error(Status::PayloadTooLarge, "too large for a sleep image"));
        }
        let mut file = flatten(&name);
        if !text::ends_with(&file, ".pbm") {
            file = text::join2(&file, ".pbm");
        }
        match routes::sanitize_path(&text::join3(folder, "/", &file)) {
            Some(path) => {
                let s = SleepPut { folder: text::owned(folder), path, len, state: SleepState::Folder };
                Ok((s, Ask::Exists(text::owned(folder))))
            },
            None => Err(http::error(Status::BadRequest, "bad name")),
        }
    }

    /// The platform did what was asked, or could not.
    pub fn step(&mut self, ev: Told) -> (r: Ask<String, Vec<String>>)
        requires
            sleep_expects(old(self).state, ev),
        ensures
            *final(self) == (SleepPut { state: sleep_next(*old(self), ev).0, ..*old(self) }),
            r@ == sleep_next(*old(self), ev).1,
    {
        let state = self.state;
        match (state, ev) {
            (SleepState::Folder, Told::Exists(false)) => {
                self.state = SleepState::Mkdir;
                Ask::MkdirAll(self.folder.clone())
            },
            (SleepState::Folder, _) | (SleepState::Mkdir, _) => {
                self.state = SleepState::Create;
                Ask::Create(self.path.clone())
            },
            (SleepState::Create, Told::Done) => {
                self.state = SleepState::Body;
                Ask::Stream(self.len)
            },
            (SleepState::Body, Told::Done) => {
                self.state = SleepState::Flush;
                Ask::Flush
            },
            (SleepState::Body, Told::Lost) => {
                self.state = SleepState::Over;
                Ask::Reply(http::error(Status::BadRequest, "body ended early"))
            },
            (_, Told::Failed(e)) => {
                self.state = SleepState::Over;
                Ask::Reply(http::fs_error(&e))
            },
            _ => {
                self.state = SleepState::Over;
                Ask::Reply(Resp::Path(Status::Created, self.path.clone()))
            },
        }
    }
}

/// A sleep image's name holds no slash, so the image lands in the sleep folder itself.
pub proof fn law_image_names_are_flat(name: Seq<char>, i: int)
    requires
        0 <= i < image_name(name).len(),
    ensures
        image_name(name)[i] != '/',
        ".pbm"@.is_suffix_of(image_name(name)),
{
    reveal_strlit(".pbm");
    if !".pbm"@.is_suffix_of(flat(name)) {
        assert(".pbm"@ =~= image_name(name).skip(flat(name).len() as int));
    }
}

/// Deleting a file leaves neither it nor its part, and nothing else changes, on a card that does what is asked.
pub proof fn law_deleted_file_is_gone(d: Delete, files: Files)
    requires
        d.state == DeleteState::Part,
        d.part@ == part_of(d.path@),
    ensures
        ({
            let has_part = Told::Exists(files.dom().contains(d.part@));
            let (s1, _, a1) = delete_next(d, has_part);
            let files1 = effect(files, a1, d.part@, Seq::empty());
            let (s2, _, a2) = delete_next(Delete { state: s1, ..d }, Told::Done);
            let files2 = if has_part == Told::Exists(true) {
                effect(files1, a2, d.part@, Seq::empty())
            } else {
                files1
            };
            files2 == files.remove(d.part@).remove(d.path@)
        }),
{
    let gone = files.remove(d.part@).remove(d.path@);
    if !files.dom().contains(d.part@) {
        assert(files.remove(d.path@) =~= gone);
    }
}

/// The files once a deletion has run to its end, on a card that does what is asked.
pub open spec fn delete_run(d: Delete, files: Files) -> Files {
    let has_part = files.dom().contains(d.part@);
    let (s1, _, a1) = delete_next(d, Told::Exists(has_part));
    let files1 = effect(files, a1, d.part@, Seq::empty());
    let (_, _, a2) = delete_next(Delete { state: s1, ..d }, Told::Done);
    if has_part {
        effect(files1, a2, d.part@, Seq::empty())
    } else {
        files1
    }
}

/// After a request to delete a file that is let through, the file that its path names is no longer on the card, nor
/// what was left of an upload to it; every other file is as it was.
pub proof fn law_delete_request_removes_the_file(
    rest: Seq<char>,
    p: Seq<char>,
    wifi: crate::platform::WifiState,
    ap_ip: Seq<char>,
    d: Delete,
    files: Files,
    other: Seq<char>,
)
    requires
        routes::sanitized(routes::percent_decoded(rest)) == Some(p),
        d.path@ == p,
        d.part@ == part_of(p),
        d.state == DeleteState::Part,
        other != p,
        other != p + ".part"@,
    ensures
        http::handled(routes::routed("DELETE"@, "/api/files/"@ + rest), true, wifi, ap_ip) == http::ActView::FileDelete(p),
        !delete_run(d, files).dom().contains(p),
        !delete_run(d, files).dom().contains(p + ".part"@),
        delete_run(d, files).dom().contains(other) == files.dom().contains(other),
        files.dom().contains(other) ==> delete_run(d, files)[other] == files[other],
{
    http::law_file_requests_reach_their_file(rest, p, wifi, ap_ip);
    law_deleted_file_is_gone(d, files);
}

/// A deletion that went well is answered so, and the books are read anew; one that the card could not do is answered
/// with its error.
pub proof fn law_deletion_is_answered(d: Delete, ev: Told)
    requires
        d.state == DeleteState::Remove,
        delete_expects(d.state, ev),
    ensures
        ev is Done ==> (delete_next(d, ev).2 matches Ask::Reply(r) && r.status_of().number() == 204) && delete_next(d, ev).1.contains(
            Note::BooksChanged,
        ),
        ev matches Told::Failed(e) ==> delete_next(d, ev).2 == AskView::Reply(http::card_error(e)) && delete_next(d, ev).1.len()
            == 0,
{
    if ev is Done {
        assert(delete_next(d, ev).1[0] == Note::<Seq<char>>::BooksChanged);
    }
}

/// A part is never taken for its file, and no two files share one.
pub proof fn law_parts_are_told_apart(a: Seq<char>, b: Seq<char>)
    ensures
        part_of(a) != a,
        part_of(a) == part_of(b) ==> a == b,
        a.is_prefix_of(part_of(a)),
{
    reveal_strlit(".part");
    assert(part_of(a).len() == a.len() + 5);
    assert(part_of(a).take(a.len() as int) =~= a);
    assert(part_of(b).take(b.len() as int) =~= b);
    assert(part_of(a).subrange(0, a.len() as int) =~= a);
}

/// The files once a sleep image has been received, on a card that does what is asked, and the answer.
pub open spec fn sleep_run(s: SleepPut, ev: Told, files: Files, body: Seq<u8>, left: nat) -> (Files, Option<Said>)
    decreases left,
{
    if left == 0 || s.state == SleepState::Over || !sleep_expects(s.state, ev) {
        (files, None)
    } else {
        let (state, ask) = sleep_next(s, ev);
        match ask {
            Ask::Reply(r) => (files, Some(r)),
            _ => sleep_run(
                SleepPut { state, ..s },
                Told::Done,
                effect(files, ask, s.path@, body),
                body,
                (left - 1) as nat,
            ),
        }
    }
}

/// A sleep image ends up in its file, holding exactly what was sent, whether its folder was there or not, and the
/// answer says where it is.
pub proof fn law_sleep_image_is_stored(s: SleepPut, there: bool, files: Files, body: Seq<u8>)
    requires
        s.state == SleepState::Folder,
    ensures
        ({
            let (after, said) = sleep_run(s, Told::Exists(there), files, body, 6);
            &&& after == files.insert(s.path@, body)
            &&& said matches Some(r) && r.status_of().number() == 201 && r == Said::Path(Status::Created, s.path@)
        }),
{
    reveal_with_fuel(sleep_run, 7);
    let made = files.insert(s.path@, Seq::empty());
    assert(made[s.path@] + body =~= body);
    assert(made.insert(s.path@, body) =~= files.insert(s.path@, body));
}

/// A sleep image keeps its name, slashes apart, and gets the extension of a bitmap where it has none.
pub proof fn law_image_keeps_its_name(name: Seq<char>)
    requires
        !name.contains('/'),
    ensures
        ".pbm"@.is_suffix_of(name) ==> image_name(name) == name,
        !".pbm"@.is_suffix_of(name) ==> image_name(name) == name + ".pbm"@,
{
    assert forall|i: int| 0 <= i < name.len() implies flat(name)[i] == name[i] by {
        assert(name[i] != '/');
    }
    assert(flat(name) =~= name);
}

/// The stream after a read that gave so many bytes, or failed.
pub open spec fn stream_read(s: Stream, n: Option<usize>) -> Stream {
    match n {
        None => Stream { lost: true, ..s },
        Some(k) => if k == 0 {
            Stream { ended: true, ..s }
        } else {
            Stream { filled: (s.filled + k) as usize, ..s }
        },
    }
}

/// The stream after its block was written.
pub open spec fn stream_written(s: Stream, now: u32) -> Stream {
    Stream {
        received: (s.received + s.filled) as usize,
        filled: 0,
        ended: false,
        last_report: if now.wrapping_sub(s.last_report) >= REPORT_MS {
            now
        } else {
            s.last_report
        },
        ..s
    }
}

/// What is reported of the stream then: how much was received, if it is time.
pub open spec fn stream_report(s: Stream, now: u32) -> Option<usize> {
    if now.wrapping_sub(s.last_report) >= REPORT_MS {
        Some((s.received + s.filled) as usize)
    } else {
        None
    }
}

/// The steps of a stream are those of which it is said that the body is stored whole: a read adds to the block, and a
/// write puts the block behind what was received. A read that failed loses the stream.
pub proof fn law_streams_go_step_by_step(s: Stream, b: Seq<u8>, now: u32)
    requires
        s.wf(),
        b.len() <= s.wanted(),
    ensures
        stream_read(s, Some(b.len() as usize)) == stream_after(s, StreamEvent::Read(b)),
        (Stream { last_report: s.last_report, ..stream_written(s, now) }) == stream_after(s, StreamEvent::Written),
        stream_read(s, None).next() is Lost || s.received == s.len,
        b.len() > 0 ==> stream_read(s, Some(b.len() as usize)).filled == s.filled + b.len(),
        stream_written(s, now).received == s.received + s.filled,
        stream_written(s, now).filled == 0,
{
}

/// How far an upload is, is reported again only some time after the last report, with what was received by then.
pub proof fn law_reports_keep_their_distance(s: Stream, passed: u32, more: u32)
    requires
        s.wf(),
    ensures
        ({
            let now = s.last_report.wrapping_add(passed);
            &&& stream_report(s, now) is Some <==> passed >= 1000
            &&& stream_report(s, now) matches Some(got) ==> got == stream_written(s, now).received && stream_written(s, now).last_report
                == now
            &&& stream_report(s, now) is None ==> stream_written(s, now).last_report == s.last_report
            &&& stream_report(s, now) is Some && more < REPORT_MS ==> stream_report(stream_written(s, now), now.wrapping_add(more)) is None
        }),
{
    let now = s.last_report.wrapping_add(passed);
    assert(now.wrapping_sub(s.last_report) == passed);
    assert(now.wrapping_add(more).wrapping_sub(now) == more);
}

/// What is told while an upload comes in.
pub open spec fn progress_notes(p: Put, got: usize) -> Seq<Note<Seq<char>>> {
    seq![
        Note::Progress(p.name@, (p.start + got) as u64),
        Note::Downloads,
        Note::Page(p.name@, (p.start + got) as u64, p.total, "uploading"),
    ]
}

/// What is told of an upload counts what was there before: its share grows with what comes in, under the file's name.
pub proof fn law_progress_counts_what_was_there(p: Put, got: usize)
    requires
        p.wf(),
        got <= p.len,
    ensures
        progress_notes(p, got)[0] == Note::Progress(p.name@, (p.start + got) as u64),
        progress_notes(p, got)[2] matches Note::Page(name, n, total, _) && name == p.name@ && n == p.start + got && total == p.total,
        progress_notes(p, p.len)[0] == Note::Progress(p.name@, p.received()),
{
}

/// Whether a body is the last of its file, how much is there before it, and how long the file is in all.
pub open spec fn put_begun(plan: Option<UploadPlan>, have: Option<u64>, total: Option<u64>, len: usize) -> (bool, u64, u64) {
    (
        plan == Some(UploadPlan::Fresh(true)) || plan == Some(UploadPlan::Append(true)),
        match plan {
            Some(UploadPlan::Append(_)) => match have {
                Some(h) => h,
                None => 0,
            },
            _ => 0,
        },
        match total {
            Some(t) => t,
            None => len as u64,
        },
    )
}

/// A body that goes behind a part starts where the part ends; a fresh one starts at nothing. The file is as long as the
/// request says, or as this body where it says nothing.
pub proof fn law_bodies_start_where_the_part_ends(last: bool, h: u64, t: u64, len: usize, have: Option<u64>, total: Option<u64>)
    ensures
        put_begun(Some(UploadPlan::Append(last)), Some(h), total, len).1 == h,
        put_begun(Some(UploadPlan::Fresh(last)), have, total, len).1 == 0,
        put_begun(Some(UploadPlan::Append(last)), have, total, len).0 == last,
        put_begun(Some(UploadPlan::Fresh(last)), have, total, len).0 == last,
        put_begun(Some(UploadPlan::Fresh(last)), have, Some(t), len).2 == t,
        put_begun(Some(UploadPlan::Fresh(last)), have, None, len).2 == len,
{
}

/// An upload that does not go with the part there is, is told how much the part has, and nothing is touched; one that
/// makes no sense is told why.
pub proof fn law_uploads_that_do_not_fit_are_told(p: Put, have: u64, why: Seq<char>)
    ensures
        put_start(p, Ok(UploadPlan::Mismatch(have))).1 == AskView::Reply(Resp::Received(Status::Conflict, have, false)),
        put_start(p, Ok(UploadPlan::Mismatch(have))).0 == PutState::Over,
        put_start(p, Err(why)).1 == AskView::Reply(Resp::Error(Status::BadRequest, why)),
        put_start(p, Ok(UploadPlan::Append(true))).1 == AskView::Append(p.part@),
        p.parent@.len() > 0 ==> put_start(p, Ok(UploadPlan::Fresh(true))).1 == AskView::Exists(p.parent@),
        p.parent@.len() == 0 ==> put_start(p, Ok(UploadPlan::Fresh(true))).1 == AskView::Create(p.part@),
{
}

/// What an upload tells: that it started, with how much is there already; that it failed, and why; and when it is whole,
/// that it is, and that there is a book more.
pub proof fn law_uploads_tell_how_they_go(p: Put, e: FsError)
    requires
        p.wf(),
    ensures
        ({
            let at = |s: PutState| Put { state: s, ..p };
            let done = put_next(at(PutState::Rename), Told::Done);
            &&& put_next(at(PutState::Open), Told::Done).1[0] == Note::Started(p.name@, p.path@, Some(p.total), p.start)
            &&& put_next(at(PutState::Body), Told::Lost).1[0] == Note::Failed(p.name@, "connection lost"@)
            &&& put_next(at(PutState::Body), Told::Failed(e)).1[0] == Note::Failed(p.name@, e.name())
            &&& put_next(at(PutState::Body), Told::Failed(e)).2 == AskView::Reply(http::card_error(e))
            &&& put_next(at(PutState::Body), Told::Lost).2 matches Ask::Reply(r) && r.status_of().number() == 400
            &&& done.1.contains(Note::Finished(p.name@)) && done.1.contains(Note::BooksChanged) && done.1.contains(Note::Books(1))
            &&& done.2 matches Ask::Reply(r) && r.status_of().number() == 201 && r == Said::Received(Status::Created, p.received(), true)
        }),
{
    let done = put_next(Put { state: PutState::Rename, ..p }, Told::Done).1;
    assert(done[0] == Note::Finished(p.name@));
    assert(done[2] == Note::<Seq<char>>::BooksChanged);
    assert(done[4] == Note::<Seq<char>>::Books(1));
}

/// What stands in the way of an upload is seen to first: a folder that is not there is made, and a file that is there is
/// deleted before the part gets its name; where nothing is in the way, neither is done.
pub proof fn law_uploads_clear_their_way(p: Put, e: FsError)
    ensures
        ({
            let at = |s: PutState| Put { state: s, ..p };
            &&& put_next(at(PutState::Folder), Told::Exists(false)).2 == AskView::MkdirAll(p.parent@)
            &&& put_next(at(PutState::Folder), Told::Exists(true)).2 == AskView::Create(p.part@)
            &&& put_next(at(PutState::Mkdir), Told::Failed(e)).2 == AskView::Reply(http::card_error(e))
            &&& put_next(at(PutState::Target), Told::Exists(true)).2 == AskView::Remove(p.path@)
            &&& put_next(at(PutState::Target), Told::Exists(false)).2 == AskView::Rename(p.part@, p.path@)
            &&& put_next(at(PutState::Remove), Told::Done).2 == AskView::Rename(p.part@, p.path@)
            &&& put_next(at(PutState::Flush), Told::Failed(e)).2 == AskView::Reply(http::card_error(e))
            &&& put_next(at(PutState::Rename), Told::Failed(e)).2 == AskView::Reply(http::card_error(e))
            &&& put_next(at(PutState::Open), Told::Failed(e)).2 == AskView::Reply(http::card_error(e))
        }),
{
}

/// A folder for sleep images that is not there is made; an image that breaks off or cannot be stored is answered so.
pub proof fn law_sleep_images_that_fail_are_told(s: SleepPut, e: FsError)
    ensures
        ({
            let at = |st: SleepState| SleepPut { state: st, ..s };
            &&& sleep_next(at(SleepState::Folder), Told::Exists(false)).1 == AskView::MkdirAll(s.folder@)
            &&& sleep_next(at(SleepState::Folder), Told::Exists(true)).1 == AskView::Create(s.path@)
            &&& sleep_next(at(SleepState::Create), Told::Failed(e)).1 == AskView::Reply(http::card_error(e))
            &&& sleep_next(at(SleepState::Body), Told::Failed(e)).1 == AskView::Reply(http::card_error(e))
            &&& sleep_next(at(SleepState::Flush), Told::Failed(e)).1 == AskView::Reply(http::card_error(e))
            &&& sleep_next(at(SleepState::Body), Told::Lost).1 matches Ask::Reply(r) && r.status_of().number() == 400
            &&& sleep_next(at(SleepState::Create), Told::Done).1 == AskView::Stream(s.len)
        }),
{
}

/// The part of an upload that was left is deleted where there is one, and its file in any case.
pub proof fn law_left_parts_are_deleted_too(d: Delete, ev: Told)
    ensures
        ({
            let at = |s: DeleteState| Delete { state: s, ..d };
            &&& delete_next(at(DeleteState::Part), Told::Exists(true)).2 == AskView::Remove(d.part@)
            &&& delete_next(at(DeleteState::Part), Told::Exists(false)).2 == AskView::Remove(d.path@)
            &&& delete_next(at(DeleteState::RemovePart), ev).2 == AskView::Remove(d.path@)
        }),
{
}

} // verus!
