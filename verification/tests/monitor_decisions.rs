use rftmle::manifest::{ManifestFile, ManifestOutcome, ManifestStruct};
use rftmle::monitor::{
    FileCreated, FileModified, FileTable, LoadExistingFiles, Metadata, ModTime, MonitorAction,
    PathKind, PathObservation,
};

const STORAGE: &str = "/data/storage/";

fn obs(kind: PathKind, name: &str, metadata: Metadata) -> PathObservation {
    PathObservation {
        kind,
        base_name: Some(name.rsplit('/').next().unwrap().to_string()),
        full_path: format!("{}{}", STORAGE, name),
        metadata,
    }
}

fn at(nanos: i128) -> Metadata {
    Metadata::ModifiedAt(ModTime { nanos })
}

fn name_of(a: &MonitorAction) -> (&'static str, String) {
    match a {
        MonitorAction::Skipped => ("skipped", String::new()),
        MonitorAction::Deleted(n) => ("deleted", n.clone()),
        MonitorAction::Created(n) => ("created", n.clone()),
        MonitorAction::Modified(n) => ("modified", n.clone()),
    }
}

#[test]
fn new_file_is_created_then_modified_then_deleted() {
    let mut t = FileTable::new();
    let a = t.observe(STORAGE, &obs(PathKind::File, "a.txt", at(10)));
    assert_eq!(name_of(&a), ("created", "a.txt".to_string()));
    assert_eq!(t.get(&"a.txt".to_string()), Some(ModTime { nanos: 10 }));
    let b = t.observe(STORAGE, &obs(PathKind::File, "a.txt", at(20)));
    assert_eq!(name_of(&b), ("modified", "a.txt".to_string()));
    assert_eq!(t.get(&"a.txt".to_string()), Some(ModTime { nanos: 20 }));
    let c = t.observe(STORAGE, &obs(PathKind::Other, "a.txt", Metadata::Unreadable));
    assert_eq!(name_of(&c), ("deleted", "a.txt".to_string()));
    assert_eq!(t.get(&"a.txt".to_string()), None);
}

#[test]
fn same_time_is_not_a_modification() {
    let mut t = FileTable::new();
    t.observe(STORAGE, &obs(PathKind::File, "a.txt", at(10)));
    let again = t.observe(STORAGE, &obs(PathKind::File, "a.txt", at(10)));
    assert_eq!(name_of(&again).0, "skipped");
    assert_eq!(t.len(), 1);
}

#[test]
fn directories_and_hidden_files_are_skipped() {
    let mut t = FileTable::new();
    let d = t.observe(STORAGE, &obs(PathKind::Directory, "sub", at(1)));
    assert_eq!(name_of(&d).0, "skipped");
    let h = t.observe(STORAGE, &obs(PathKind::File, ".a.swp", at(1)));
    assert_eq!(name_of(&h).0, "skipped");
    assert_eq!(t.len(), 0);
}

#[test]
fn hidden_check_looks_at_last_component_only() {
    let mut t = FileTable::new();
    let o = PathObservation {
        kind: PathKind::File,
        base_name: Some("x".to_string()),
        full_path: format!("{}{}", STORAGE, ".dir/x"),
        metadata: at(3),
    };
    let r = t.observe(STORAGE, &o);
    assert_eq!(name_of(&r), ("created", ".dir/x".to_string()));
}

#[test]
fn storage_directory_itself_is_skipped() {
    let mut t = FileTable::new();
    let o = PathObservation {
        kind: PathKind::File,
        base_name: Some("storage".to_string()),
        full_path: STORAGE.to_string(),
        metadata: at(1),
    };
    assert_eq!(name_of(&t.observe(STORAGE, &o)).0, "skipped");
}

#[test]
fn unknown_deleted_file_and_missing_time_are_skipped() {
    let mut t = FileTable::new();
    let gone = t.observe(STORAGE, &obs(PathKind::Other, "b", Metadata::Unreadable));
    assert_eq!(name_of(&gone).0, "skipped");
    let no_time = t.observe(STORAGE, &obs(PathKind::File, "b", Metadata::NoModTime));
    assert_eq!(name_of(&no_time).0, "skipped");
    assert_eq!(t.len(), 0);
}

#[test]
fn observing_twice_is_quiet() {
    let mut t = FileTable::new();
    let o = obs(PathKind::File, "c", at(5));
    t.observe(STORAGE, &o);
    let second = t.observe(STORAGE, &o);
    assert_eq!(name_of(&second).0, "skipped");
    assert_eq!(t.get(&"c".to_string()), Some(ModTime { nanos: 5 }));
}

#[test]
fn load_existing_records_regular_visible_files() {
    let mut t = FileTable::new();
    let entries = vec![
        obs(PathKind::File, "a", at(1)),
        obs(PathKind::Directory, "d", at(2)),
        obs(PathKind::File, ".hidden", at(3)),
        obs(PathKind::File, "b", Metadata::NoModTime),
        obs(PathKind::Other, "link", at(4)),
        obs(PathKind::File, "c", at(5)),
    ];
    LoadExistingFiles(&mut t, STORAGE, &entries);
    assert_eq!(t.len(), 2);
    assert_eq!(t.get(&"a".to_string()), Some(ModTime { nanos: 1 }));
    assert_eq!(t.get(&"c".to_string()), Some(ModTime { nanos: 5 }));
    let known = t.observe(STORAGE, &obs(PathKind::File, "a", at(1)));
    assert_eq!(name_of(&known).0, "skipped");
}

#[test]
fn load_existing_reports_what_it_recorded() {
    let mut t = FileTable::new();
    assert!(t.load_existing(STORAGE, &obs(PathKind::File, "a", at(1))));
    assert!(!t.load_existing(STORAGE, &obs(PathKind::File, "b", Metadata::Unreadable)));
    assert!(!t.load_existing(STORAGE, &obs(PathKind::Directory, "c", at(1))));
}

#[test]
fn created_and_modified_files_reach_the_manifest() {
    let mut m = ManifestStruct::new();
    assert_eq!(FileCreated(&mut m, "f".to_string()), ManifestOutcome::FileAdded);
    assert_eq!(FileModified(&mut m, "f".to_string()), ManifestOutcome::Updated);
    assert_eq!(FileModified(&mut m, "g".to_string()), ManifestOutcome::FileAdded);
    assert_eq!(m.get(&"f".to_string()), Some(ManifestFile { last_edit_id: 1 }));
    assert_eq!(m.get(&"g".to_string()), Some(ManifestFile { last_edit_id: 0 }));
}

#[test]
fn received_files_are_remembered_but_not_reported() {
    let mut t = FileTable::new();
    t.mark_receiving("in.txt".to_string());
    assert!(t.is_receiving(&"in.txt".to_string()));
    let r = t.observe(STORAGE, &obs(PathKind::File, "in.txt", at(4)));
    assert_eq!(name_of(&r).0, "skipped");
    assert_eq!(t.get(&"in.txt".to_string()), Some(ModTime { nanos: 4 }));
    let r = t.observe(STORAGE, &obs(PathKind::File, "in.txt", at(9)));
    assert_eq!(name_of(&r).0, "skipped");
    t.unmark_receiving(&"in.txt".to_string());
    let r = t.observe(STORAGE, &obs(PathKind::File, "in.txt", at(12)));
    assert_eq!(name_of(&r), ("modified", "in.txt".to_string()));
    let other = t.observe(STORAGE, &obs(PathKind::File, "mine.txt", at(1)));
    assert_eq!(name_of(&other), ("created", "mine.txt".to_string()));
}

#[test]
fn loading_twice_is_loading_once() {
    let entries = vec![obs(PathKind::File, "a", at(1)), obs(PathKind::File, "a", at(2)), obs(PathKind::File, "b", at(3))];
    let mut t = FileTable::new();
    LoadExistingFiles(&mut t, STORAGE, &entries);
    LoadExistingFiles(&mut t, STORAGE, &entries);
    assert_eq!(t.len(), 2);
    assert_eq!(t.get(&"a".to_string()), Some(ModTime { nanos: 2 }));
    assert_eq!(t.get(&"b".to_string()), Some(ModTime { nanos: 3 }));
}
