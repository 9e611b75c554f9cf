use quire::card::{
    file_name, is_root, listing, parent, plan_rename, with_parent, Clock, DirEntry, DriverError, FsError, Mkdir, MkdirAsk, RawEntry,
    ReadPlan, RenamePlan, SdFile, Split, Walk, WalkAsk,
};

fn split(parent: &str, name: &str) -> Option<Split> {
    Some(Split { parent: parent.into(), name: name.into(), valid: true })
}

#[test]
fn driver_errors_are_told_apart() {
    assert_eq!(quire::card::map(DriverError::NotFound), FsError::NotFound);
    assert_eq!(quire::card::map(DriverError::DiskFull), FsError::Full);
    assert_eq!(quire::card::map(DriverError::NotEnoughSpace), FsError::Full);
    assert_eq!(quire::card::map(DriverError::FilenameError), FsError::InvalidPath);
    assert_eq!(quire::card::map(DriverError::BadCluster), FsError::InvalidPath);
    assert_eq!(quire::card::map(DriverError::InvalidOffset), FsError::InvalidPath);
    assert_eq!(quire::card::map(DriverError::EndOfFile), FsError::Eof);
    assert_eq!(quire::card::map(DriverError::Other("bus".into())), FsError::Io("bus".into()));
}

#[test]
fn errors_are_named() {
    assert_eq!(FsError::Eof.text(), "Eof");
    assert_eq!(FsError::Io("a \"b\"\n".into()).text(), "Io(\"a \\\"b\\\"\\n\")");
}

#[test]
fn paths_come_apart() {
    assert_eq!(parent("/Books/a.epub"), "/Books");
    assert_eq!(file_name("/Books/a.epub"), "a.epub");
    assert_eq!(parent("/a"), "");
    assert_eq!(parent("a"), "");
    assert_eq!(file_name("a"), "a");
    for p in ["/x", "/a/b/c", "a/b"] {
        assert_eq!(format!("{}/{}", parent(p), file_name(p)), p);
        assert!(!file_name(p).contains('/'));
    }
}

#[test]
fn timestamps() {
    // 2024-05-06 07:08:09
    let c = Clock { local_now: 1_714_979_289 };
    assert_eq!(c.days(), 19_849);
    let t = c.get_timestamp(2024, 5, 6);
    assert_eq!((t.year_since_1970, t.zero_indexed_month, t.zero_indexed_day), (54, 4, 5));
    assert_eq!((t.hours, t.minutes, t.seconds), (7, 8, 9));
    assert_eq!(c.get_timestamp(1900, 1, 1).year_since_1970, 0);
    assert_eq!(c.get_timestamp(4000, 1, 1).year_since_1970, 255);
}

#[test]
fn reads_seek_only_when_they_must() {
    let mut f = SdFile::new(100);
    assert_eq!(f.read_at(0, 60), ReadPlan::Read(None, 60));
    f.read(60);
    assert_eq!(f.read_at(60, 60), ReadPlan::Read(None, 40));
    assert_eq!(f.read_at(10, 5), ReadPlan::Read(Some(10), 5));
    f.sought(10);
    assert_eq!(f.read_at(10, 5), ReadPlan::Read(None, 5));
    assert_eq!(f.read_at(100, 5), ReadPlan::Nothing);
    assert_eq!(f.read_at(0, 0), ReadPlan::Nothing);
    assert_eq!(f.read_at(u64::MAX, 1), ReadPlan::Nothing);
}

#[test]
fn a_walk_closes_what_it_leaves() {
    let mut w = Walk::new(0, vec!["a".into(), "b".into()]);
    assert_eq!(w.ask(), WalkAsk::Open(0, "a".into()));
    assert_eq!(w.opened(Ok(1)), (None, None));
    assert_eq!(w.ask(), WalkAsk::Open(1, "b".into()));
    assert_eq!(w.opened(Ok(2)), (Some(1), None));
    assert_eq!(w.ask(), WalkAsk::There(2));
}

#[test]
fn a_failed_walk_leaves_nothing_open() {
    let mut w = Walk::new(0, vec!["a".into(), "b".into()]);
    w.opened(Ok(1));
    assert_eq!(w.opened(Err(DriverError::NotFound)), (Some(1), Some(FsError::NotFound)));
}

#[test]
fn missing_folders_are_made() {
    let mut m = Mkdir::new(0, vec!["a".into(), "b".into()]);
    assert_eq!(m.ask(), MkdirAsk::Open(0, "a".into()));
    m.opened(Ok(1));
    assert_eq!(m.opened(Err(DriverError::NotFound)).failed, None);
    assert_eq!(m.ask(), MkdirAsk::Make(1, "b".into()));
    m.made(Ok(()));
    assert_eq!(m.ask(), MkdirAsk::Open(1, "b".into()));
    assert_eq!(m.opened(Ok(2)).close, Some(1));
    assert_eq!(m.ask(), MkdirAsk::Done(Some(2)));
}

#[test]
fn a_folder_that_cannot_be_made_fails() {
    let mut m = Mkdir::new(0, vec!["a".into()]);
    m.opened(Err(DriverError::NotFound));
    assert_eq!(m.made(Err(DriverError::DiskFull)).failed, Some(FsError::Full));
    // What is open is closed on every failure, but for the root.
    let mut m = Mkdir::new(0, vec!["a".into(), "b".into()]);
    m.opened(Ok(1));
    m.opened(Err(DriverError::NotFound));
    let out = m.made(Err(DriverError::DiskFull));
    assert_eq!((out.close, out.failed), (Some(1), Some(FsError::Full)));
    m.made(Ok(()));
    let out = m.opened(Err(DriverError::NotFound));
    assert_eq!((out.close, out.failed), (Some(1), Some(FsError::NotFound)));
    let mut m = Mkdir::new(0, vec!["a".into()]);
    let out = m.opened(Err(DriverError::BadCluster));
    assert_eq!((out.close, out.failed), (None, Some(FsError::InvalidPath)));
}

#[test]
fn renames_stay_in_their_folder_or_move() {
    assert_eq!(
        plan_rename(split("/Books", "a"), split("/BOOKS", "b")),
        Ok(RenamePlan::Within { parent: "/Books".into(), from: "a".into(), to: "b".into() })
    );
    assert_eq!(
        plan_rename(split("/Books", "a"), split("/Old", "b")),
        Ok(RenamePlan::Across { parent: "/Books".into(), from: "a".into(), to_parent: "/Old".into(), to: "b".into() })
    );
    assert_eq!(plan_rename(None, split("/Old", "b")), Err(FsError::InvalidPath));
    let bad = Some(Split { parent: "/".into(), name: "?".into(), valid: false });
    assert_eq!(plan_rename(split("/", "a"), bad.clone()), Err(FsError::InvalidPath));
    assert_eq!(with_parent(bad), Err(FsError::InvalidPath));
    assert_eq!(with_parent(None), Err(FsError::InvalidPath));
    assert_eq!(with_parent(split("/Books", "a")), Ok(("/Books".into(), "a".into())));
}

#[test]
fn the_root_is_always_there() {
    assert!(is_root("/") && is_root("") && !is_root("/a"));
}

#[test]
fn listings_show_long_names_and_hide_the_rest() {
    let e = |short: &str, long: Option<&str>, volume: bool, lfn: bool| RawEntry {
        short: short.into(),
        long: long.map(String::from),
        is_volume: volume,
        is_lfn: lfn,
        is_dir: false,
        size: 7,
    };
    let raw = vec![
        e("CARD", None, true, false),
        e(".", None, false, false),
        e("..", None, false, false),
        e("X", None, false, true),
        e("LONGNA~1.TXT", Some("long name.txt"), false, false),
        e("A.TXT", None, false, false),
    ];
    let d = |name: &str| DirEntry { name: name.into(), is_dir: false, size: 7 };
    assert_eq!(listing(&raw), [d("long name.txt"), d("A.TXT")]);
}
