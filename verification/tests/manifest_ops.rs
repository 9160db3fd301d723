use rftmle::manifest::{
    manifest, AddFileinManifest, InitializeManifest, ManifestAction, ManifestFile, ManifestOutcome,
    ManifestStruct, UpdateManifest,
};

fn edit_id(m: &ManifestStruct, name: &str) -> Option<u64> {
    m.get(&name.to_string()).map(|f| f.last_edit_id)
}

#[test]
fn add_file_starts_at_zero() {
    let mut m = ManifestStruct::new();
    let r = AddFileinManifest(&mut m, "a.txt".to_string());
    assert_eq!(r, ManifestOutcome::FileAdded);
    assert_eq!(edit_id(&m, "a.txt"), Some(0));
    assert_eq!(m.len(), 1);
}

#[test]
fn add_file_resets_an_existing_record() {
    let mut m = ManifestStruct::new();
    m.set("a.txt".to_string(), ManifestFile { last_edit_id: 7 });
    AddFileinManifest(&mut m, "a.txt".to_string());
    assert_eq!(edit_id(&m, "a.txt"), Some(0));
    assert_eq!(m.len(), 1);
}

#[test]
fn update_counts_one_more_edit() {
    let mut m = ManifestStruct::new();
    m.set("a.txt".to_string(), ManifestFile { last_edit_id: 4 });
    m.set("b.txt".to_string(), ManifestFile { last_edit_id: 9 });
    let r = UpdateManifest(&mut m, "a.txt".to_string());
    assert_eq!(r, ManifestOutcome::Updated);
    assert_eq!(edit_id(&m, "a.txt"), Some(5));
    assert_eq!(edit_id(&m, "b.txt"), Some(9));
}

#[test]
fn update_of_untracked_file_adds_it() {
    let mut m = ManifestStruct::new();
    let r = UpdateManifest(&mut m, "new.txt".to_string());
    assert_eq!(r, ManifestOutcome::FileAdded);
    assert_eq!(edit_id(&m, "new.txt"), Some(0));
}

#[test]
fn edit_id_counts_edits_after_add() {
    let mut m = ManifestStruct::new();
    m.set("other".to_string(), ManifestFile { last_edit_id: 2 });
    AddFileinManifest(&mut m, "doc".to_string());
    for _ in 0..3 {
        UpdateManifest(&mut m, "doc".to_string());
    }
    assert_eq!(edit_id(&m, "doc"), Some(3));
    assert_eq!(edit_id(&m, "other"), Some(2));
}

#[test]
fn initialize_empties_the_manifest() {
    let mut m = ManifestStruct::new();
    m.set("a".to_string(), ManifestFile { last_edit_id: 1 });
    let r = InitializeManifest(&mut m);
    assert_eq!(r, ManifestOutcome::Initialized);
    assert_eq!(m.len(), 0);
    assert_eq!(edit_id(&m, "a"), None);
}

#[test]
fn manifest_dispatches_actions() {
    let mut m = ManifestStruct::new();
    assert_eq!(manifest(&mut m, ManifestAction::AddFile("x".to_string())), ManifestOutcome::FileAdded);
    assert_eq!(manifest(&mut m, ManifestAction::Update("x".to_string())), ManifestOutcome::Updated);
    assert_eq!(edit_id(&m, "x"), Some(1));
    assert_eq!(manifest(&mut m, ManifestAction::Initialize), ManifestOutcome::Initialized);
    assert_eq!(m.len(), 0);
}

#[test]
fn outcome_messages() {
    assert_eq!(ManifestOutcome::Initialized.message(), "Manifest initialized successfully");
    assert_eq!(ManifestOutcome::FileAdded.message(), "File added successfully");
    assert_eq!(ManifestOutcome::Updated.message(), "Manifest updated successfully");
}

#[test]
fn files_lists_each_name_once() {
    let mut m = ManifestStruct::new();
    AddFileinManifest(&mut m, "a".to_string());
    AddFileinManifest(&mut m, "b".to_string());
    AddFileinManifest(&mut m, "a".to_string());
    let files = m.files();
    assert_eq!(files.len(), 2);
    assert_eq!(files[0].0, "a");
    assert_eq!(files[1].0, "b");
}
