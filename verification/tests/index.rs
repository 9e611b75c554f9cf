use quire::index::{
    sort_title, BookEntry, BookId, BookStats, Format, IngestState, Library, Loc, PosRecord, SaveAsk, SaveEvent, Status,
};
use quire::layout::Pos;

/// A card that holds the two files of the index.
struct Card {
    index: Option<Library>,
    positions: Option<Vec<PosRecord>>,
    index_writes: usize,
    broken: bool,
}

impl Card {
    fn new() -> Card {
        Card { index: None, positions: None, index_writes: 0, broken: false }
    }

    fn load(&self) -> Library {
        Library::load(self.index.clone(), self.positions.clone(), vec!["/Books".into()])
    }

    fn save(&mut self, lib: &mut Library) -> Result<(), ()> {
        let mut ev = SaveEvent::Start;
        loop {
            match lib.save(ev) {
                SaveAsk::Done => return Ok(()),
                SaveAsk::Failed => return Err(()),
                SaveAsk::MakeRoot => ev = SaveEvent::Root(true),
                SaveAsk::WriteIndex => {
                    if !self.broken {
                        self.index = Some(lib.clone());
                        self.index_writes += 1;
                    }
                    ev = SaveEvent::Index(!self.broken);
                }
                SaveAsk::WritePositions(recs) => {
                    self.positions = Some(recs);
                    ev = SaveEvent::Positions(true);
                }
            }
        }
    }
}

fn entry(id: u64, title: &str, author: &str) -> BookEntry {
    BookEntry {
        id: BookId(id),
        path: format!("/Books/{title}.epub"),
        size: 1,
        format: Format::Epub,
        title: title.into(),
        authors: vec![author.into()],
        series: None,
        year: None,
        language: "en".into(),
        sections: 0,
        chars: 1000,
        has_cover: false,
        ingest: IngestState::Pending,
        error: None,
        added: id as u32,
        last_opened: 0,
        loc: Loc::default(),
        status: Status::Unread,
        collections: Vec::new(),
        stats: BookStats::default(),
        missing: false,
        pages_total: None,
    }
}

fn ids(v: &[&BookEntry]) -> Vec<u64> {
    v.iter().map(|b| b.id.0).collect()
}

#[test]
fn index_round_trips_and_sorts() {
    let mut fs = Card::new();
    let mut lib = fs.load();
    lib.upsert(entry(1, "The Zebra", "Adams"));
    lib.upsert(entry(2, "Apples", "Zola"));
    lib.upsert(entry(3, "A Middle", "Eliot"));
    let c = lib.add_collection("Victorian");
    lib.toggle_collection(BookId(3), c);
    lib.opened(BookId(2), 100);
    lib.set_loc(BookId(2), Loc { section: 1, pos: Pos::start(), chars: 250 });
    fs.save(&mut lib).unwrap();
    let lib2 = fs.load();
    assert_eq!(lib2.books.len(), 3);
    assert_eq!(lib2.current, Some(BookId(2)));
    assert_eq!(lib2.get(BookId(2)).unwrap().percent(), 25);
    assert_eq!(lib2.by_title().iter().map(|b| b.title.as_str()).collect::<Vec<_>>(), ["Apples", "A Middle", "The Zebra"]);
    assert_eq!(lib2.by_author().iter().map(|b| b.title.as_str()).collect::<Vec<_>>(), ["The Zebra", "A Middle", "Apples"]);
    assert_eq!(lib2.shelf()[0].id, BookId(2));
    assert_eq!(lib2.in_collection(c).len(), 1);
    assert_eq!(lib2.search("mid eli").len(), 1);
    assert_eq!(lib2.pending().len(), 3);
    // A position change alone rewrites only the positions file.
    let mut lib3 = fs.load();
    let before = fs.index_writes;
    lib3.set_loc(BookId(2), Loc { section: 2, pos: Pos::start(), chars: 500 });
    assert!(!lib3.dirty && lib3.dirty_pos);
    fs.save(&mut lib3).unwrap();
    assert_eq!(fs.index_writes, before);
    assert_eq!(fs.load().get(BookId(2)).unwrap().loc.chars, 500);
    assert!(lib3.reached_end(BookId(2), 20_000));
    assert_eq!(lib3.get(BookId(2)).unwrap().status, Status::Finished);
    assert_eq!(lib3.finished_between(19_000, 21_000).len(), 1);
    assert_eq!(lib3.authors().len(), 3);
}

#[test]
fn author_lines() {
    let mut b = entry(1, "T", "Eliot");
    assert_eq!(b.author_line(), "Eliot");
    b.authors.push("Lewes".into());
    assert_eq!(b.author_line(), "Eliot & Lewes");
    b.authors = vec!["Gal".into(), "Eich".into()];
    b.authors.extend((0..12).map(|i| format!("A{i}")));
    assert_eq!(b.author_line(), "Gal, Eich +12");
    b.authors.clear();
    assert_eq!(b.author_line(), "");
}

#[test]
fn a_failed_save_keeps_its_marks() {
    let mut fs = Card::new();
    let mut lib = fs.load();
    lib.upsert(entry(1, "A", "B"));
    fs.broken = true;
    assert!(fs.save(&mut lib).is_err());
    assert!(lib.is_dirty());
    fs.broken = false;
    assert!(fs.save(&mut lib).is_ok());
    assert!(!lib.is_dirty());
    assert_eq!(fs.load().books, lib.books);
}

#[test]
fn an_index_of_another_version_is_not_taken_up() {
    let mut fs = Card::new();
    let mut lib = fs.load();
    lib.upsert(entry(1, "A", "B"));
    fs.save(&mut lib).unwrap();
    fs.index.as_mut().unwrap().version += 1;
    let fresh = fs.load();
    assert!(fresh.books.is_empty());
    assert_eq!(fresh.sources, ["/Books"]);
}

#[test]
fn upserting_replaces_in_place_and_removing_removes() {
    let mut lib = Card::new().load();
    lib.upsert(entry(1, "A", "X"));
    lib.upsert(entry(2, "B", "X"));
    lib.upsert(entry(1, "C", "X"));
    assert_eq!(lib.books.len(), 2);
    assert_eq!(lib.get(BookId(1)).unwrap().title, "C");
    assert_eq!(lib.by_path("/Books/B.epub").unwrap().id, BookId(2));
    lib.get_mut(BookId(2)).unwrap().title = "D".into();
    assert_eq!(lib.get(BookId(2)).unwrap().title, "D");
    assert_eq!(lib.remove(BookId(1)).unwrap().title, "C");
    assert!(lib.get(BookId(1)).is_none() && lib.remove(BookId(1)).is_none());
}

#[test]
fn hidden_books_stay_off_the_lists() {
    let mut lib = Card::new().load();
    let mut news = entry(1, "News", "X");
    news.path = "news:1".into();
    let mut gone = entry(2, "Gone", "X");
    gone.missing = true;
    lib.upsert(news);
    lib.upsert(gone);
    lib.upsert(entry(3, "Here", "X"));
    assert_eq!(ids(&lib.shelf()), [3]);
    assert_eq!(ids(&lib.by_title()), [3]);
    assert!(lib.books[0].hidden() && lib.books[1].hidden() && !lib.books[2].hidden());
}

#[test]
fn toggling_twice_changes_nothing() {
    let mut lib = Card::new().load();
    lib.upsert(entry(1, "A", "X"));
    let c = lib.add_collection("One");
    assert!(lib.toggle_collection(BookId(1), c));
    assert_eq!(lib.in_collection(c).len(), 1);
    assert!(!lib.toggle_collection(BookId(1), c));
    assert!(lib.in_collection(c).is_empty());
    lib.toggle_collection(BookId(1), c);
    lib.rename_collection(c, "Two");
    assert_eq!(lib.collections[0].name, "Two");
    lib.remove_collection(c);
    assert!(lib.collections.is_empty() && lib.books[0].collections.is_empty());
}

#[test]
fn series_read_on() {
    let mut lib = Card::new().load();
    for (id, n) in [(1u64, 20u16), (2, 10), (3, 30)] {
        let mut b = entry(id, &format!("Book {id}"), "X");
        b.series = Some(("Saga".into(), n));
        lib.upsert(b);
    }
    assert_eq!(lib.next_in_series(BookId(2)).unwrap().id, BookId(1));
    assert!(lib.next_in_series(BookId(3)).is_none());
    let s = lib.series();
    assert_eq!(s.len(), 1);
    assert_eq!(s[0].0, "Saga");
    assert_eq!(ids(&s[0].1), [2, 1, 3]);
}

#[test]
fn titles_sort_without_their_article_and_case() {
    assert_eq!(sort_title("The Zebra"), "zebra");
    assert_eq!(sort_title("ÉCOLE"), "école");
    let mut lib = Card::new().load();
    lib.upsert(entry(1, "b", "X"));
    lib.upsert(entry(2, "An A", "X"));
    assert_eq!(ids(&lib.by_title()), [2, 1]);
}

#[test]
fn percent_and_what_is_left() {
    let mut b = entry(1, "A", "X");
    assert_eq!((b.percent(), b.chars_left()), (0, 1000));
    b.loc.chars = 999;
    assert_eq!((b.percent(), b.chars_left()), (99, 1));
    b.loc.chars = 5000;
    assert_eq!((b.percent(), b.chars_left()), (100, 0));
}

#[test]
fn finishing_and_reopening() {
    let mut lib = Card::new().load();
    lib.upsert(entry(1, "A", "X"));
    assert!(lib.reached_end(BookId(1), 7));
    assert!(!lib.reached_end(BookId(1), 8));
    assert_eq!(lib.get(BookId(1)).unwrap().stats.finished, Some(7));
    lib.set_finished(BookId(1), false, 9);
    assert_ne!(lib.get(BookId(1)).unwrap().status, Status::Finished);
    lib.set_pages_total(BookId(1), 5, 300);
    assert_eq!(lib.get(BookId(1)).unwrap().pages_total, Some((5, 300)));
    let g = lib.generation();
    lib.touch();
    assert_ne!(lib.generation(), g);
}

#[test]
fn a_series_stands_under_one_name() {
    let mut lib = Card::new().load();
    for (id, name, n) in [(1u64, "Dune", 10u16), (2, "dune", 20), (3, "Dune", 30), (4, "abc", 10), (5, "dune", 5)] {
        let mut b = entry(id, &format!("Book {id}"), "X");
        b.series = Some((name.into(), n));
        lib.upsert(b);
    }
    let s = lib.series();
    let seen: Vec<(&str, Vec<u64>)> = s.iter().map(|g| (g.0.as_str(), ids(&g.1))).collect();
    assert_eq!(seen, [("abc", vec![4]), ("Dune", vec![1, 3]), ("dune", vec![5, 2])]);
}

#[test]
fn an_author_stands_under_one_name() {
    let mut lib = Card::new().load();
    for (id, author, n) in [(1u64, "Émile Zola", 30u16), (2, "ÉMILE ZOLA", 10), (3, "émile zola", 20), (4, "abc", 1), (5, "Unknown Author", 2), (6, "", 3), (7, "", 1)] {
        let mut b = entry(id, &format!("Book {id}"), author);
        b.series = Some(("S".into(), n));
        if id == 7 {
            b.authors.clear();
        }
        lib.upsert(b);
    }
    let a = lib.authors();
    let seen: Vec<(&str, Vec<u64>)> = a.iter().map(|g| (g.0.as_str(), ids(&g.1))).collect();
    // Only books without an author go first; names are the same whatever their ASCII case.
    assert_eq!(
        seen,
        [
            ("Unknown author", vec![7]),
            ("", vec![6]),
            ("abc", vec![4]),
            ("Unknown Author", vec![5]),
            ("ÉMILE ZOLA", vec![2, 1]),
            ("émile zola", vec![3]),
        ]
    );
    // With nobody between them the two go by one heading.
    lib.remove(BookId(6));
    lib.remove(BookId(4));
    assert_eq!((lib.authors()[0].0.as_str(), ids(&lib.authors()[0].1)), ("Unknown author", vec![7, 5]));
}

#[test]
fn a_book_taken_up_again_is_not_finished() {
    let mut card = Card::new();
    let mut lib = card.load();
    lib.upsert(entry(1, "A", "X"));
    lib.set_finished(BookId(1), true, 700);
    card.save(&mut lib).unwrap();
    lib.set_finished(BookId(1), false, 701);
    assert_eq!(lib.books[0].stats.finished, None);
    // Only the positions are written now: the copy in the index still says finished.
    card.save(&mut lib).unwrap();
    assert_eq!(card.index_writes, 1);
    assert_eq!(card.index.as_ref().unwrap().books[0].stats.finished, Some(700));
    let back = card.load();
    assert_eq!((back.books[0].status, back.books[0].stats.finished), (Status::Reading, None));
}

#[test]
fn positions_are_written_alone() {
    let mut lib = Card::new().load();
    lib.upsert(entry(1, "A", "X"));
    lib.set_finished(BookId(1), true, 700);
    assert_eq!(lib.save_positions(SaveEvent::Start), SaveAsk::MakeRoot);
    assert_eq!(lib.save_positions(SaveEvent::Root(false)), SaveAsk::Failed);
    let recs = lib.position_records();
    assert_eq!((recs.len(), recs[0].finished), (1, Some(700)));
    assert_eq!(lib.save_positions(SaveEvent::Root(true)), SaveAsk::WritePositions(recs));
    assert_eq!(lib.save_positions(SaveEvent::Positions(false)), SaveAsk::Failed);
    assert_eq!(lib.save_positions(SaveEvent::Positions(true)), SaveAsk::Done);
    // The index is left for a save of everything; the positions are not written again.
    assert!(lib.is_dirty());
    assert_eq!(lib.save(SaveEvent::Root(true)), SaveAsk::WriteIndex);
    assert_eq!(lib.save(SaveEvent::Index(true)), SaveAsk::Done);
    assert!(!lib.is_dirty());
}
