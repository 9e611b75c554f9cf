//! The card: what its driver's errors mean, how its paths are walked one directory at a time, how a file is
//! read at any offset, and what a listing holds.
use vstd::prelude::*;

use crate::text;
use crate::text::same;

verus! {

/// What a card operation can fail with.
#[derive(Clone, Debug, PartialEq, Eq)]
pub enum FsError {
    /// No such file or directory.
    NotFound,
    /// The card is full.
    Full,
    /// Not a path the card can hold.
    InvalidPath,
    /// Past the end of a file.
    Eof,
    /// Anything else, with the driver's words.
    Io(String),
}

/// What the card's driver can fail with.
#[derive(Clone, Debug, PartialEq, Eq)]
pub enum DriverError {
    /// No such entry.
    NotFound,
    /// No free cluster.
    DiskFull,
    /// No room in a directory.
    NotEnoughSpace,
    /// Not a file name.
    FilenameError,
    /// A cluster number out of range.
    BadCluster,
    /// An offset outside the file.
    InvalidOffset,
    /// Past the end of the file.
    EndOfFile,
    /// Anything else, with the driver's words.
    Other(String),
}

/// What `str`'s `Debug` writes of a text: the text in quotes, with escapes.
pub uninterp spec fn quoted(s: Seq<char>) -> Seq<char>;

/// `<str as Debug>::fmt`: a text in quotes, with escapes; the result is named [`quoted`].
#[verifier::external_body]
fn quote(s: &str) -> (r: String)
    ensures
        r@ == quoted(s@),
{
    format!("{s:?}")
}

impl FsError {
    /// What the error is called.
    pub open spec fn name(self) -> Seq<char> {
        match self {
            FsError::NotFound => "NotFound"@,
            FsError::Full => "Full"@,
            FsError::InvalidPath => "InvalidPath"@,
            FsError::Eof => "Eof"@,
            FsError::Io(s) => "Io("@ + quoted(s@) + ")"@,
        }
    }

    /// What the error is called.
    pub fn text(&self) -> (r: String)
        ensures
            r@ == self.name(),
    {
        match self {
            FsError::NotFound => text::owned("NotFound"),
            FsError::Full => text::owned("Full"),
            FsError::InvalidPath => text::owned("InvalidPath"),
            FsError::Eof => text::owned("Eof"),
            FsError::Io(s) => text::join3("Io(", &quote(s), ")"),
        }
    }
}

impl DriverError {
    /// What an error of the driver means to the reader.
    pub open spec fn meaning(self) -> FsError {
        match self {
            DriverError::NotFound => FsError::NotFound,
            DriverError::DiskFull | DriverError::NotEnoughSpace => FsError::Full,
            DriverError::FilenameError | DriverError::BadCluster | DriverError::InvalidOffset => FsError::InvalidPath,
            DriverError::EndOfFile => FsError::Eof,
            DriverError::Other(s) => FsError::Io(s),
        }
    }
}

/// What an error of the driver means to the reader.
pub fn map(e: DriverError) -> (r: FsError)
    ensures
        r == e.meaning(),
{
    match e {
        DriverError::NotFound => FsError::NotFound,
        DriverError::DiskFull | DriverError::NotEnoughSpace => FsError::Full,
        DriverError::FilenameError | DriverError::BadCluster | DriverError::InvalidOffset => FsError::InvalidPath,
        DriverError::EndOfFile => FsError::Eof,
        DriverError::Other(s) => FsError::Io(s),
    }
}

/// Where the last `c` stands, or -1 in a text without one.
pub open spec fn last_at(s: Seq<char>, c: char) -> int
    decreases s.len(),
{
    if s.len() == 0 {
        -1
    } else if s.last() == c {
        s.len() - 1
    } else {
        last_at(s.drop_last(), c)
    }
}

/// Where what follows the last `c` of a text starts.
fn after_last(v: &[char], c: char) -> (r: usize)
    ensures
        r == last_at(v@, c) + 1,
        r <= v@.len(),
        r > 0 ==> v@[r - 1] == c,
{
    let mut i: usize = v.len();
    assert(v@.take(i as int) =~= v@);
    while i > 0 && v[i - 1] != c
        invariant
            i <= v@.len(),
            last_at(v@, c) == last_at(v@.take(i as int), c),
        decreases i,
    {
        assert(v@.take(i as int).drop_last() =~= v@.take(i - 1));
        i -= 1;
    }
    i
}

/// The folder a path lies in: what stands before its last slash.
pub open spec fn folder(p: Seq<char>) -> Seq<char> {
    p.take(if last_at(p, '/') < 0 { 0 } else { last_at(p, '/') })
}

/// The name a path ends in: what stands behind its last slash.
pub open spec fn leaf(p: Seq<char>) -> Seq<char> {
    p.skip(last_at(p, '/') + 1)
}

/// The folder a path lies in; empty for the root.
pub fn parent(p: &str) -> (r: String)
    ensures
        r@ == folder(p@),
{
    let v = text::chars_of(p);
    let n: usize = after_last(&v, '/');
    let r = text::text_of(&v, 0, if n == 0 { 0 } else { n - 1 });
    assert(r@ =~= folder(p@));
    r
}

/// The name a path ends in.
pub fn file_name(p: &str) -> (r: String)
    ensures
        r@ == leaf(p@),
{
    let v = text::chars_of(p);
    let r = text::text_of(&v, after_last(&v, '/'), v.len());
    assert(r@ =~= leaf(p@));
    r
}

/// A path is its folder, a slash and its name.
pub proof fn law_path_parts_join(p: Seq<char>)
    requires
        last_at(p, '/') >= 0,
    ensures
        folder(p).push('/') + leaf(p) == p,
{
    lemma_last_at(p, '/');
    assert(folder(p).push('/') + leaf(p) =~= p);
}

proof fn lemma_last_at(s: Seq<char>, c: char)
    ensures
        -1 <= last_at(s, c) < s.len(),
        last_at(s, c) >= 0 ==> s[last_at(s, c)] == c,
        forall|i: int| last_at(s, c) < i < s.len() ==> s[i] != c,
    decreases s.len(),
{
    if s.len() > 0 && s.last() != c {
        lemma_last_at(s.drop_last(), c);
        assert forall|i: int| last_at(s, c) < i < s.len() implies s[i] != c by {
            if i < s.len() - 1 {
                assert(s[i] == s.drop_last()[i]);
            }
        }
    }
}

/// The name a path ends in holds no slash.
pub proof fn law_names_hold_no_slash(p: Seq<char>, i: int)
    requires
        0 <= i < leaf(p).len(),
    ensures
        leaf(p)[i] != '/',
{
    lemma_last_at(p, '/');
}

/// When a file was written, as the card stores it.
#[derive(Clone, Copy, Debug, PartialEq, Eq, Structural)]
pub struct Timestamp {
    /// Years since 1970.
    pub year_since_1970: u8,
    /// Month, from 0.
    pub zero_indexed_month: u8,
    /// Day of the month, from 0.
    pub zero_indexed_day: u8,
    /// Hours.
    pub hours: u8,
    /// Minutes.
    pub minutes: u8,
    /// Seconds.
    pub seconds: u8,
}

/// Time source for file timestamps.
#[derive(Clone, Copy, Debug, PartialEq, Eq, Structural)]
pub struct Clock {
    /// Local time in seconds since 1970, kept current by the main loop.
    pub local_now: u32,
}

impl Clock {
    /// Days since 1970.
    pub fn days(&self) -> (r: u32)
        ensures
            r == self.local_now / 86_400,
    {
        self.local_now / 86_400
    }

    /// The timestamp of now; `y`, `m` and `d` are the year, month and day that [`Clock::days`] lies on.
    pub fn get_timestamp(&self, y: i64, m: u32, d: u32) -> (r: Timestamp)
        requires
            1 <= m <= 12,
            1 <= d <= 31,
        ensures
            r.year_since_1970 == if y < 1970 {
                0
            } else if y > 2225 {
                255
            } else {
                y - 1970
            },
            r.zero_indexed_month == m - 1,
            r.zero_indexed_day == d - 1,
            r.hours < 24,
            r.minutes < 60,
            r.seconds < 60,
            r.hours * 3600 + r.minutes * 60 + r.seconds == self.local_now % 86_400,
            is_stamp(self.local_now, y as int, m as int, d as int, r),
    {
        let secs: u32 = self.local_now % 86_400;
        let year: i64 = if y < 1970 {
            0
        } else if y > 2225 {
            255
        } else {
            y - 1970
        };
        Timestamp {
            year_since_1970: year as u8,
            zero_indexed_month: (m - 1) as u8,
            zero_indexed_day: (d - 1) as u8,
            hours: (secs / 3600) as u8,
            minutes: ((secs / 60) % 60) as u8,
            seconds: (secs % 60) as u8,
        }
    }
}

/// An open file for reading: its length, and where the driver stands in it.
#[derive(Clone, Copy, Debug, PartialEq, Eq, Structural)]
pub struct SdFile {
    /// Length in bytes.
    pub len: u32,
    /// Where the driver reads next.
    pub pos: u32,
}

/// What reading at an offset takes.
#[derive(Clone, Copy, Debug, PartialEq, Eq, Structural)]
pub enum ReadPlan {
    /// Nothing: there is nothing to read.
    Nothing,
    /// Go there first if given, then read so many bytes.
    Read(Option<u32>, usize),
}

impl SdFile {
    /// A file just opened.
    pub fn new(len: u32) -> (r: Self)
        ensures
            r == (SdFile { len, pos: 0 }),
    {
        SdFile { len, pos: 0 }
    }

    /// How many bytes a read of `room` bytes at `offset` asks for.
    pub open spec fn wanted(self, offset: int, room: int) -> int {
        if room < self.len - offset {
            room
        } else {
            self.len - offset
        }
    }

    /// What a read of `room` bytes at an offset takes: nothing at or past the end; else a seek where the driver
    /// stands elsewhere, and as much as there is, up to the room.
    pub open spec fn planned(self, offset: u64, room: usize) -> ReadPlan {
        if offset >= self.len || room == 0 {
            ReadPlan::Nothing
        } else {
            ReadPlan::Read(
                if self.pos == offset {
                    None
                } else {
                    Some(offset as u32)
                },
                self.wanted(offset as int, room as int) as usize,
            )
        }
    }

    /// Plan a read at an offset into `room` bytes.
    pub fn read_at(&self, offset: u64, room: usize) -> (r: ReadPlan)
        ensures
            r == self.planned(offset, room),
    {
        if offset >= self.len as u64 || room == 0 {
            return ReadPlan::Nothing;
        }
        let at: u32 = offset as u32;
        let left: usize = (self.len - at) as usize;
        ReadPlan::Read(if self.pos == at { None } else { Some(at) }, if room < left { room } else { left })
    }

    /// The driver went to an offset.
    pub fn sought(&mut self, at: u32)
        ensures
            *final(self) == (SdFile { pos: at, ..*old(self) }),
    {
        self.pos = at;
    }

    /// The driver read `n` bytes.
    pub fn read(&mut self, n: usize)
        requires
            old(self).pos + n <= old(self).len,
        ensures
            final(self).len == old(self).len,
            final(self).pos == old(self).pos + n,
    {
        self.pos = self.pos + n as u32;
    }
}

/// Reading on where the last read ended never seeks.
pub proof fn law_reading_on_never_seeks(c: SdFile, n: usize, room: usize)
    requires
        c.pos + n < c.len,
        room > 0,
    ensures
        ({
            let next = SdFile { pos: (c.pos + n) as u32, ..c };
            next.planned(next.pos as u64, room) == ReadPlan::Read(
                None,
                next.wanted(next.pos as int, room as int) as usize,
            )
        }),
{
}

/// A read asks for a byte at least, and for none past the end of the file or its room.
pub proof fn law_reads_stay_in_the_file(c: SdFile, offset: u64, room: usize)
    ensures
        c.planned(offset, room) matches ReadPlan::Read(_, n) ==> 0 < n <= room && offset + n <= c.len,
{
}

/// The directories a path leads through: one is open at a time beside the root.
pub struct Walk {
    /// The root directory.
    pub root: u32,
    /// The directory reached.
    pub dir: u32,
    /// The names on the path.
    pub names: Vec<String>,
    /// How many of them are behind.
    pub at: usize,
}

/// What a walk needs next.
#[derive(Clone, Debug, PartialEq, Eq)]
pub enum WalkAsk {
    /// Open the directory of this name in that one.
    Open(u32, String),
    /// Nothing: it is there.
    There(u32),
}

/// The directory to close, if it is not the root.
pub open spec fn unless_root(root: u32, dir: u32) -> Option<u32> {
    if dir != root {
        Some(dir)
    } else {
        None
    }
}

fn to_close(root: u32, dir: u32) -> (r: Option<u32>)
    ensures
        r == unless_root(root, dir),
{
    if dir != root {
        Some(dir)
    } else {
        None
    }
}

impl Walk {
    /// Whether no more names are behind than there are.
    pub open spec fn wf(self) -> bool {
        self.at <= self.names@.len()
    }

    /// A walk from the root.
    pub fn new(root: u32, names: Vec<String>) -> (r: Self)
        ensures
            r.wf(),
            r.root == root,
            r.dir == root,
            r.names == names,
            r.at == 0,
    {
        Walk { root, dir: root, names, at: 0 }
    }

    /// What comes next.
    pub fn ask(&self) -> (r: WalkAsk)
        requires
            self.wf(),
        ensures
            r == if self.at < self.names@.len() {
                WalkAsk::Open(self.dir, self.names@[self.at as int])
            } else {
                WalkAsk::There(self.dir)
            },
            r == walk_asks(self.dir, self.names@, self.at as int),
    {
        if self.at < self.names.len() {
            WalkAsk::Open(self.dir, self.names[self.at].clone())
        } else {
            WalkAsk::There(self.dir)
        }
    }

    /// The directory asked for was opened, or could not be. Returns the directory to close, and the error the
    /// walk ends with.
    pub fn opened(&mut self, r: Result<u32, DriverError>) -> (out: (Option<u32>, Option<FsError>))
        requires
            old(self).at < old(self).names@.len(),
        ensures
            final(self).wf(),
            final(self).root == old(self).root,
            final(self).names == old(self).names,
            out.0 == unless_root(old(self).root, old(self).dir),
            match r {
                Ok(d) => out.1 is None && final(self).dir == d && final(self).at == old(self).at + 1,
                Err(e) => out.1 == Some(e.meaning()) && final(self).dir == old(self).root && final(self).at == old(
                    self,
                ).at,
            },
    {
        let close = to_close(self.root, self.dir);
        match r {
            Ok(d) => {
                self.dir = d;
                assert(self.at < self.names.len());
                self.at = self.at + 1;
                (close, None)
            },
            Err(e) => {
                self.dir = self.root;
                (close, Some(map(e)))
            },
        }
    }
}

/// The directories a walk that stands in `dir` closes, given what opening each next one yields.
pub open spec fn closed_by(root: u32, dir: u32, opens: Seq<Option<u32>>) -> Seq<u32>
    decreases opens.len(),
{
    if opens.len() == 0 {
        Seq::empty()
    } else {
        (if dir != root {
            seq![dir]
        } else {
            Seq::empty()
        }) + (match opens[0] {
            Some(d) => closed_by(root, d, opens.skip(1)),
            None => Seq::empty(),
        })
    }
}

/// A walk closes every directory it opens but the one it ends in.
pub proof fn law_walk_closes_what_it_leaves(root: u32, opens: Seq<Option<u32>>)
    requires
        opens.len() > 0,
        forall|i: int| 0 <= i < opens.len() ==> (#[trigger] opens[i] matches Some(d) && d != root),
    ensures
        closed_by(root, root, opens) == opens.drop_last().map_values(|o: Option<u32>| o->0),
{
    lemma_closed(root, opens[0]->0, opens.skip(1));
    assert(seq![opens[0]->0] + opens.skip(1).map_values(|o: Option<u32>| o->0) =~= opens.map_values(
        |o: Option<u32>| o->0,
    ));
    assert(closed_by(root, root, opens) =~= opens.drop_last().map_values(|o: Option<u32>| o->0));
}

proof fn lemma_closed(root: u32, dir: u32, opens: Seq<Option<u32>>)
    requires
        dir != root,
        forall|i: int| 0 <= i < opens.len() ==> (#[trigger] opens[i] matches Some(d) && d != root),
    ensures
        closed_by(root, dir, opens) == (seq![dir] + opens.map_values(|o: Option<u32>| o->0)).drop_last(),
    decreases opens.len(),
{
    let all = seq![dir] + opens.map_values(|o: Option<u32>| o->0);
    if opens.len() == 0 {
        assert(all.drop_last() =~= Seq::<u32>::empty());
    } else {
        let rest = opens.skip(1);
        assert forall|i: int| 0 <= i < rest.len() implies (#[trigger] rest[i] matches Some(d) && d != root) by {
            assert(rest[i] == opens[i + 1]);
        }
        lemma_closed(root, opens[0]->0, rest);
        assert(closed_by(root, dir, opens) =~= all.drop_last());
    }
}

/// A walk that fails leaves nothing open: it closes every directory it opened.
pub proof fn law_failed_walk_leaves_nothing_open(root: u32, opens: Seq<Option<u32>>)
    requires
        forall|i: int| 0 <= i < opens.len() ==> (#[trigger] opens[i] matches Some(d) && d != root),
    ensures
        closed_by(root, root, opens.push(None)) == opens.map_values(|o: Option<u32>| o->0),
{
    if opens.len() == 0 {
        assert(closed_by(root, root, opens.push(None)) =~= opens.map_values(|o: Option<u32>| o->0));
    } else {
        let rest = opens.skip(1);
        assert(opens.push(None).skip(1) =~= rest.push(None));
        assert forall|i: int| 0 <= i < rest.len() implies (#[trigger] rest[i] matches Some(d) && d != root) by {
            assert(rest[i] == opens[i + 1]);
        }
        lemma_closed_all(root, opens[0]->0, rest);
        assert(closed_by(root, root, opens.push(None)) =~= opens.map_values(|o: Option<u32>| o->0));
    }
}

proof fn lemma_closed_all(root: u32, dir: u32, opens: Seq<Option<u32>>)
    requires
        dir != root,
        forall|i: int| 0 <= i < opens.len() ==> (#[trigger] opens[i] matches Some(d) && d != root),
    ensures
        closed_by(root, dir, opens.push(None)) == seq![dir] + opens.map_values(|o: Option<u32>| o->0),
    decreases opens.len(),
{
    let all = seq![dir] + opens.map_values(|o: Option<u32>| o->0);
    if opens.len() == 0 {
        assert(closed_by(root, dir, opens.push(None)) =~= all);
    } else {
        let rest = opens.skip(1);
        assert(opens.push(None).skip(1) =~= rest.push(None));
        assert forall|i: int| 0 <= i < rest.len() implies (#[trigger] rest[i] matches Some(d) && d != root) by {
            assert(rest[i] == opens[i + 1]);
        }
        lemma_closed_all(root, opens[0]->0, rest);
        assert(closed_by(root, dir, opens.push(None)) =~= all);
    }
}

/// Where making a path of directories stands with one of them.
#[derive(Clone, Copy, Debug, PartialEq, Eq, Structural)]
pub enum MkdirPhase {
    /// It is to be opened.
    Open,
    /// It is not there and is to be made.
    Make,
    /// It was made and is to be opened.
    Reopen,
}

/// Making every directory on a path that is not there yet.
pub struct Mkdir {
    /// The walk along the path.
    pub walk: Walk,
    /// Where it stands.
    pub phase: MkdirPhase,
}

/// What making a path needs next.
#[derive(Clone, Debug, PartialEq, Eq)]
pub enum MkdirAsk {
    /// Open the directory of this name in that one.
    Open(u32, String),
    /// Make a directory of this name in that one.
    Make(u32, String),
    /// Nothing more: close this directory if given; the path is there.
    Done(Option<u32>),
}

/// What a step of making a path yields: a directory to close, and the error it ends with.
#[derive(Clone, Debug, PartialEq, Eq)]
pub struct MkdirStep {
    /// Close this directory.
    pub close: Option<u32>,
    /// It failed.
    pub failed: Option<FsError>,
}

impl Mkdir {
    /// Make a path, from the root.
    pub fn new(root: u32, names: Vec<String>) -> (r: Self)
        ensures
            r.walk.wf(),
            r.walk.root == root,
            r.walk.dir == root,
            r.walk.names == names,
            r.walk.at == 0,
            r.phase == MkdirPhase::Open,
    {
        Mkdir { walk: Walk::new(root, names), phase: MkdirPhase::Open }
    }

    /// What comes next.
    pub fn ask(&self) -> (r: MkdirAsk)
        requires
            self.walk.wf(),
        ensures
            r == mkdir_asks(self.walk, self.phase),
            r == if self.walk.at == self.walk.names@.len() {
                MkdirAsk::Done(unless_root(self.walk.root, self.walk.dir))
            } else if self.phase == MkdirPhase::Make {
                MkdirAsk::Make(self.walk.dir, self.walk.names@[self.walk.at as int])
            } else {
                MkdirAsk::Open(self.walk.dir, self.walk.names@[self.walk.at as int])
            },
    {
        if self.walk.at == self.walk.names.len() {
            return MkdirAsk::Done(to_close(self.walk.root, self.walk.dir));
        }
        let name = self.walk.names[self.walk.at].clone();
        if self.phase == MkdirPhase::Make {
            MkdirAsk::Make(self.walk.dir, name)
        } else {
            MkdirAsk::Open(self.walk.dir, name)
        }
    }

    /// The directory asked for was opened, or could not be. One that is not there is made; any other failure
    /// ends it, with nothing left open.
    pub fn opened(&mut self, r: Result<u32, DriverError>) -> (out: MkdirStep)
        requires
            old(self).walk.at < old(self).walk.names@.len(),
            old(self).phase != MkdirPhase::Make,
        ensures
            (final(self).phase, out) == mkdir_opened(old(self).walk, old(self).phase, r),
            final(self).walk.wf(),
            final(self).walk.root == old(self).walk.root,
            final(self).walk.names == old(self).walk.names,
            match r {
                Ok(d) => {
                    &&& out == (MkdirStep {
                        close: unless_root(old(self).walk.root, old(self).walk.dir),
                        failed: None,
                    })
                    &&& final(self).walk.dir == d
                    &&& final(self).walk.at == old(self).walk.at + 1
                    &&& final(self).phase == MkdirPhase::Open
                },
                Err(e) => {
                    &&& final(self).walk == old(self).walk
                    &&& if old(self).phase == MkdirPhase::Open && e is NotFound {
                        out == (MkdirStep { close: None, failed: None }) && final(self).phase == MkdirPhase::Make
                    } else {
                        &&& final(self).phase == old(self).phase
                        &&& out == (MkdirStep {
                            close: unless_root(old(self).walk.root, old(self).walk.dir),
                            failed: Some(e.meaning()),
                        })
                    }
                },
            },
    {
        match r {
            Ok(d) => {
                let close = to_close(self.walk.root, self.walk.dir);
                self.walk.dir = d;
                assert(self.walk.at < self.walk.names.len());
                self.walk.at = self.walk.at + 1;
                self.phase = MkdirPhase::Open;
                MkdirStep { close, failed: None }
            },
            Err(e) => {
                let first = self.phase == MkdirPhase::Open;
                if first && matches!(e, DriverError::NotFound) {
                    self.phase = MkdirPhase::Make;
                    return MkdirStep { close: None, failed: None };
                }
                MkdirStep { close: to_close(self.walk.root, self.walk.dir), failed: Some(map(e)) }
            },
        }
    }

    /// The directory asked for was made, or could not be; a failure ends it, with nothing left open.
    pub fn made(&mut self, r: Result<(), DriverError>) -> (out: MkdirStep)
        requires
            old(self).phase == MkdirPhase::Make,
        ensures
            final(self).walk == old(self).walk,
            match r {
                Ok(_) => out == (MkdirStep { close: None, failed: None }) && final(self).phase == MkdirPhase::Reopen,
                Err(e) => {
                    &&& out == (MkdirStep {
                        close: unless_root(old(self).walk.root, old(self).walk.dir),
                        failed: Some(e.meaning()),
                    })
                    &&& final(self).phase == old(self).phase
                },
            },
    {
        match r {
            Ok(_) => {
                self.phase = MkdirPhase::Reopen;
                MkdirStep { close: None, failed: None }
            },
            Err(e) => MkdirStep { close: to_close(self.walk.root, self.walk.dir), failed: Some(map(e)) },
        }
    }
}

/// A path split into its folder and name, and whether the name is one the card can hold.
#[derive(Clone, Debug, PartialEq, Eq)]
pub struct Split {
    /// The folder.
    pub parent: String,
    /// The name.
    pub name: String,
    /// Whether the name is valid.
    pub valid: bool,
}

/// The folder to walk to, and the name to look for in it; a path that has none, or names what the card cannot
/// hold, is refused.
pub fn with_parent(split: Option<Split>) -> (r: Result<(String, String), FsError>)
    ensures
        match split {
            Some(s) => if s.valid {
                r == Ok::<(String, String), FsError>((s.parent, s.name))
            } else {
                r == Err::<(String, String), FsError>(FsError::InvalidPath)
            },
            None => r == Err::<(String, String), FsError>(FsError::InvalidPath),
        },
{
    match split {
        Some(s) => {
            if s.valid {
                Ok((s.parent, s.name))
            } else {
                Err(FsError::InvalidPath)
            }
        },
        None => Err(FsError::InvalidPath),
    }
}

/// Whether a path is there without asking the card: the root always is.
pub fn is_root(p: &str) -> (r: bool)
    ensures
        r == (p@ == "/"@ || p@.len() == 0),
{
    same(p, "/") || p.is_empty()
}

/// How a file gets another name.
#[derive(Clone, Debug, PartialEq, Eq)]
pub enum RenamePlan {
    /// In the folder it lies in.
    Within {
        /// The folder.
        parent: String,
        /// The old name.
        from: String,
        /// The new name.
        to: String,
    },
    /// From one folder to another.
    Across {
        /// The folder it lies in.
        parent: String,
        /// The old name.
        from: String,
        /// The folder it goes to.
        to_parent: String,
        /// The new name.
        to: String,
    },
}

/// Plan a renaming: within a folder where both paths lie in the same one but for ASCII case, else across;
/// refused where either path has no name or one the card cannot hold.
pub fn plan_rename(from: Option<Split>, to: Option<Split>) -> (r: Result<RenamePlan, FsError>)
    ensures
        r == rename_planned(from, to),
        r matches Err(e) ==> e is InvalidPath,
        r is Ok <==> (from matches Some(f) && to matches Some(t) && f.valid && t.valid),
        r matches Ok(p) ==> (from matches Some(f) && to matches Some(t) && p == if text::ascii_lower(f.parent@)
            == text::ascii_lower(t.parent@) {
            RenamePlan::Within { parent: f.parent, from: f.name, to: t.name }
        } else {
            RenamePlan::Across { parent: f.parent, from: f.name, to_parent: t.parent, to: t.name }
        }),
{
    match (from, to) {
        (Some(f), Some(t)) => {
            if !f.valid || !t.valid {
                return Err(FsError::InvalidPath);
            }
            if text::same_ignoring_case(&f.parent, &t.parent) {
                Ok(RenamePlan::Within { parent: f.parent, from: f.name, to: t.name })
            } else {
                Ok(RenamePlan::Across { parent: f.parent, from: f.name, to_parent: t.parent, to: t.name })
            }
        },
        _ => Err(FsError::InvalidPath),
    }
}

/// An entry of a directory as it is stored.
#[derive(Clone, Debug, PartialEq, Eq)]
pub struct RawEntry {
    /// The short name.
    pub short: String,
    /// The long name, if it has one.
    pub long: Option<String>,
    /// The volume's label.
    pub is_volume: bool,
    /// A piece of a long name.
    pub is_lfn: bool,
    /// A directory.
    pub is_dir: bool,
    /// Bytes.
    pub size: u32,
}

/// An entry of a listing.
#[derive(Clone, Debug, PartialEq, Eq)]
pub struct DirEntry {
    /// Name.
    pub name: String,
    /// Whether it is a directory.
    pub is_dir: bool,
    /// Bytes.
    pub size: u64,
}

impl RawEntry {
    /// Whether a listing shows the entry: neither the volume's label, nor a piece of a long name, nor the
    /// directory itself or its parent.
    pub open spec fn is_shown(self) -> bool {
        !self.is_volume && !self.is_lfn && self.short@ != "."@ && self.short@ != ".."@
    }

    /// What a listing shows of the entry: its long name if it has one.
    pub open spec fn shown(self) -> DirEntry {
        DirEntry {
            name: match self.long {
                Some(l) => l,
                None => self.short,
            },
            is_dir: self.is_dir,
            size: self.size as u64,
        }
    }
}

/// What the first `n` entries of a directory list.
pub open spec fn listed(entries: Seq<RawEntry>, n: int) -> Seq<DirEntry>
    decreases n,
{
    if n <= 0 {
        Seq::empty()
    } else if entries[n - 1].is_shown() {
        listed(entries, n - 1).push(entries[n - 1].shown())
    } else {
        listed(entries, n - 1)
    }
}

/// The listing of a directory.
pub fn listing(entries: &Vec<RawEntry>) -> (r: Vec<DirEntry>)
    ensures
        r@ == listed(entries@, entries@.len() as int),
{
    let mut out: Vec<DirEntry> = Vec::new();
    let mut i: usize = 0;
    while i < entries.len()
        invariant
            i <= entries@.len(),
            out@ == listed(entries@, i as int),
        decreases entries@.len() - i,
    {
        let e = &entries[i];
        if !e.is_volume && !e.is_lfn && !same(&e.short, ".") && !same(&e.short, "..") {
            let name = match &e.long {
                Some(l) => l.clone(),
                None => e.short.clone(),
            };
            out.push(DirEntry { name, is_dir: e.is_dir, size: e.size as u64 });
        }
        i += 1;
    }
    out
}

/// A folder and a name joined by a slash part into that folder and that name again.
pub proof fn law_parts_of_a_path(dir: Seq<char>, name: Seq<char>)
    requires
        !name.contains('/'),
    ensures
        folder(dir.push('/') + name) == dir,
        leaf(dir.push('/') + name) == name,
{
    let p = dir.push('/') + name;
    lemma_last_at(p, '/');
    let n = dir.len() as int;
    assert(p[n] == '/');
    if last_at(p, '/') > n {
        assert(name[last_at(p, '/') - n - 1] == '/');
    }
    assert(folder(p) =~= dir);
    assert(leaf(p) =~= name);
}

/// Whether a time stamp says this date and the time of day of this clock.
pub open spec fn is_stamp(local_now: u32, y: int, m: int, d: int, t: Timestamp) -> bool {
    &&& t.year_since_1970 == if y < 1970 {
        0
    } else if y > 2225 {
        255
    } else {
        y - 1970
    }
    &&& t.zero_indexed_month == m - 1
    &&& t.zero_indexed_day == d - 1
    &&& t.hours < 24 && t.minutes < 60 && t.seconds < 60
    &&& t.hours * 3600 + t.minutes * 60 + t.seconds == local_now % 86_400
}

/// A time stamp reads back as the date it was made of, and there is only one for a date and a time.
pub proof fn law_stamps_read_back(local_now: u32, y: int, m: int, d: int, t: Timestamp, u: Timestamp)
    requires
        is_stamp(local_now, y, m, d, t),
        is_stamp(local_now, y, m, d, u),
    ensures
        1970 <= y <= 2225 ==> t.year_since_1970 + 1970 == y,
        t.zero_indexed_month + 1 == m,
        t.zero_indexed_day + 1 == d,
        t.hours == local_now % 86_400 / 3600,
        t.minutes == local_now % 86_400 % 3600 / 60,
        t.seconds == local_now % 86_400 % 60,
        t == u,
{
    lemma_time_of_day(local_now as int % 86_400, t.hours as int, t.minutes as int, t.seconds as int);
    lemma_time_of_day(local_now as int % 86_400, u.hours as int, u.minutes as int, u.seconds as int);
}

proof fn lemma_time_of_day(x: int, h: int, m: int, s: int)
    requires
        0 <= h < 24,
        0 <= m < 60,
        0 <= s < 60,
        x == h * 3600 + m * 60 + s,
    ensures
        x / 3600 == h,
        x % 3600 / 60 == m,
        x % 60 == s,
{
    assert(x % 3600 == m * 60 + s);
    assert(x % 60 == s);
}

/// What a walk to a folder asks.
pub open spec fn walk_asks(dir: u32, names: Seq<String>, at: int) -> WalkAsk {
    if at < names.len() {
        WalkAsk::Open(dir, names[at])
    } else {
        WalkAsk::There(dir)
    }
}

/// A walk opens the names of its path one after the other, each in the folder opened last, and has arrived when none is
/// left.
pub proof fn law_walks_go_name_by_name(dir: u32, names: Seq<String>, at: int)
    requires
        0 <= at <= names.len(),
    ensures
        walk_asks(dir, names, at) is There <==> at == names.len(),
        at < names.len() ==> walk_asks(dir, names, at) == WalkAsk::Open(dir, names[at]),
        at == names.len() ==> walk_asks(dir, names, at) == WalkAsk::There(dir),
{
}

/// What making a folder and all above it asks.
pub open spec fn mkdir_asks(walk: Walk, phase: MkdirPhase) -> MkdirAsk {
    if walk.at == walk.names@.len() {
        MkdirAsk::Done(unless_root(walk.root, walk.dir))
    } else if phase == MkdirPhase::Make {
        MkdirAsk::Make(walk.dir, walk.names@[walk.at as int])
    } else {
        MkdirAsk::Open(walk.dir, walk.names@[walk.at as int])
    }
}

/// What comes of opening the folder at hand: the phase then, and what is closed and told.
pub open spec fn mkdir_opened(walk: Walk, phase: MkdirPhase, r: Result<u32, DriverError>) -> (MkdirPhase, MkdirStep) {
    match r {
        Ok(_) => (MkdirPhase::Open, MkdirStep { close: unless_root(walk.root, walk.dir), failed: None }),
        Err(e) => if phase == MkdirPhase::Open && e is NotFound {
            (MkdirPhase::Make, MkdirStep { close: None, failed: None })
        } else {
            (phase, MkdirStep { close: unless_root(walk.root, walk.dir), failed: Some(e.meaning()) })
        },
    }
}

/// Only a folder that is not there is made, in the folder reached, under its own name, and then opened; one that cannot
/// be opened for another reason, or not even once it was made, is an error.
pub proof fn law_missing_folders_are_made(walk: Walk, e: DriverError, d: u32)
    requires
        walk.at < walk.names@.len(),
    ensures
        e is NotFound ==> mkdir_opened(walk, MkdirPhase::Open, Err(e)).0 == MkdirPhase::Make && mkdir_opened(
            walk,
            MkdirPhase::Open,
            Err(e),
        ).1.failed is None,
        !(e is NotFound) ==> mkdir_opened(walk, MkdirPhase::Open, Err(e)).1.failed == Some(e.meaning()),
        mkdir_opened(walk, MkdirPhase::Reopen, Err(e)).1.failed == Some(e.meaning()),
        mkdir_opened(walk, MkdirPhase::Open, Ok(d)).0 == MkdirPhase::Open && mkdir_opened(walk, MkdirPhase::Open, Ok(d)).1.failed is None,
        mkdir_asks(walk, MkdirPhase::Make) == MkdirAsk::Make(walk.dir, walk.names@[walk.at as int]),
        mkdir_asks(walk, MkdirPhase::Open) == MkdirAsk::Open(walk.dir, walk.names@[walk.at as int]),
        mkdir_asks(walk, MkdirPhase::Reopen) == MkdirAsk::Open(walk.dir, walk.names@[walk.at as int]),
{
}

/// How a rename is done, by where the two names are.
pub open spec fn rename_planned(from: Option<Split>, to: Option<Split>) -> Result<RenamePlan, FsError> {
    match (from, to) {
        (Some(f), Some(t)) => if f.valid && t.valid {
            Ok(
                if text::ascii_lower(f.parent@) == text::ascii_lower(t.parent@) {
                    RenamePlan::Within { parent: f.parent, from: f.name, to: t.name }
                } else {
                    RenamePlan::Across { parent: f.parent, from: f.name, to_parent: t.parent, to: t.name }
                },
            )
        } else {
            Err(FsError::InvalidPath)
        },
        _ => Err(FsError::InvalidPath),
    }
}

/// A rename goes from the first name to the second: within a folder, whatever its letters' case, by the name alone, and
/// else from folder to folder. Without two names that can be stored there is none.
pub proof fn law_renames_go_from_one_to_the_other(f: Split, t: Split)
    requires
        f.valid,
        t.valid,
    ensures
        match rename_planned(Some(f), Some(t)) {
            Ok(RenamePlan::Within { parent, from, to }) => parent == f.parent && from == f.name && to == t.name
                && text::ascii_lower(f.parent@) == text::ascii_lower(t.parent@),
            Ok(RenamePlan::Across { parent, from, to_parent, to }) => parent == f.parent && from == f.name && to_parent
                == t.parent && to == t.name && text::ascii_lower(f.parent@) != text::ascii_lower(t.parent@),
            Err(_) => false,
        },
        rename_planned(None, Some(t)) == Err::<RenamePlan, FsError>(FsError::InvalidPath),
        rename_planned(Some(f), None) == Err::<RenamePlan, FsError>(FsError::InvalidPath),
{
}

/// A folder lists what a reader wants to see: every entry but the card's name, the pieces of long names, and the folder
/// itself and the one above; each under its long name where it has one.
pub proof fn law_folders_list_their_files(entries: Seq<RawEntry>, n: int, i: int)
    requires
        0 <= i < n <= entries.len(),
        !entries[i].is_volume,
        !entries[i].is_lfn,
        entries[i].short@ != "."@,
        entries[i].short@ != ".."@,
    ensures
        exists|k: int|
            0 <= k < listed(entries, n).len() && (#[trigger] listed(entries, n)[k]).is_dir == entries[i].is_dir && listed(
                entries,
                n,
            )[k].size == entries[i].size && listed(entries, n)[k].name == (match entries[i].long {
                Some(l) => l,
                None => entries[i].short,
            }),
    decreases n,
{
    if i == n - 1 {
        assert(listed(entries, n)[listed(entries, n).len() - 1] == entries[i].shown());
    } else {
        law_folders_list_their_files(entries, n - 1, i);
        let k = choose|k: int|
            0 <= k < listed(entries, n - 1).len() && (#[trigger] listed(entries, n - 1)[k]).is_dir == entries[i].is_dir && listed(
                entries,
                n - 1,
            )[k].size == entries[i].size && listed(entries, n - 1)[k].name == (match entries[i].long {
                Some(l) => l,
                None => entries[i].short,
            });
        assert(listed(entries, n)[k] == listed(entries, n - 1)[k]);
    }
}

/// Nothing is listed twice or made up: a folder lists at most as much as it holds.
pub proof fn law_listing_is_no_longer(entries: Seq<RawEntry>, n: int)
    requires
        0 <= n <= entries.len(),
    ensures
        listed(entries, n).len() <= n,
        forall|k: int| 0 <= k < listed(entries, n).len() ==> comes_from(entries, n, #[trigger] listed(entries, n)[k]),
    decreases n,
{
    if n > 0 {
        law_listing_is_no_longer(entries, n - 1);
        assert forall|k: int| 0 <= k < listed(entries, n).len() implies comes_from(
            entries,
            n,
            #[trigger] listed(entries, n)[k],
        ) by {
            if k < listed(entries, n - 1).len() {
                assert(listed(entries, n)[k] == listed(entries, n - 1)[k]);
                let e = listed(entries, n - 1)[k];
                let i = choose|i: int| 0 <= i < n - 1 && (#[trigger] entries[i]).is_shown() && e == entries[i].shown();
                assert(entries[i].is_shown());
            } else {
                assert(entries[n - 1].is_shown());
            }
        }
    }
}

/// Whether one of the first `n` entries is shown as this.
pub open spec fn comes_from(entries: Seq<RawEntry>, n: int, e: DirEntry) -> bool {
    exists|i: int| 0 <= i < n && (#[trigger] entries[i]).is_shown() && e == entries[i].shown()
}

/// A read asks for what lies in the file from where it is wanted, as much as there is room for, and moves there first
/// only where the file does not stand there already; behind the end there is nothing to read.
pub proof fn law_reads_start_where_they_are_wanted(c: SdFile, offset: u64, room: usize)
    ensures
        c.planned(offset, room) is Nothing <==> offset >= c.len || room == 0,
        c.planned(offset, room) matches ReadPlan::Read(seek, n) ==> (offset == c.pos <==> seek is None) && (seek matches Some(at) ==> at
            == offset) && n <= room && offset + n <= c.len && (n == room || offset + n == c.len),
{
}

/// What the driver reports means the same to everyone: not there, full, no path, the end, or an error with its words.
pub proof fn law_driver_errors_keep_their_meaning(e: DriverError)
    ensures
        e.meaning() is NotFound <==> e is NotFound,
        e.meaning() is Full <==> e is DiskFull || e is NotEnoughSpace,
        e.meaning() is Eof <==> e is EndOfFile,
        e.meaning() is InvalidPath <==> e is FilenameError || e is BadCluster || e is InvalidOffset,
        e matches DriverError::Other(s) ==> e.meaning() == FsError::Io(s),
{
}

} // verus!
