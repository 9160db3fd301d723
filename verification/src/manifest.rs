//! The manifest: for every tracked file, the number of edits seen since it was
//! added. The operations here are what the client applies to the manifest it
//! has loaded; storing it as JSON is left to the caller.

use vstd::prelude::*;
use crate::name_map::NameMap;

verus! {

/// What the manifest records of one file.
#[derive(Clone, Copy, Debug, PartialEq, Eq, Structural)]
pub struct ManifestFile {
    /// How many times the file was edited since it was added.
    pub last_edit_id: u64,
}

/// The manifest: a map from file names to their records.
pub struct ManifestStruct {
    files: NameMap<ManifestFile>,
}

/// The operations the client performs on its manifest.
#[derive(Debug, PartialEq, Eq)]
pub enum ManifestAction {
    /// Start over with an empty manifest.
    Initialize,
    /// Count one more edit of a file.
    Update(String),
    /// Track a file, with no edit counted yet.
    AddFile(String),
}

/// What an operation on the manifest did.
#[derive(Clone, Copy, Debug, PartialEq, Eq, Structural)]
pub enum ManifestOutcome {
    /// The manifest was emptied.
    Initialized,
    /// The file was (re)added with no edit counted.
    FileAdded,
    /// The file's edit count went up by one.
    Updated,
}

/// The record of a file that was just added.
pub open spec fn fresh_record() -> ManifestFile {
    ManifestFile { last_edit_id: 0 }
}

/// The manifest after adding `name`.
pub open spec fn spec_add(m: Map<Seq<char>, ManifestFile>, name: Seq<char>) -> Map<
    Seq<char>,
    ManifestFile,
> {
    m.insert(name, fresh_record())
}

/// The manifest after an edit of `name`: one more edit where the file is
/// tracked, otherwise the file is added.
pub open spec fn spec_update(m: Map<Seq<char>, ManifestFile>, name: Seq<char>) -> Map<
    Seq<char>,
    ManifestFile,
> {
    if m.contains_key(name) {
        m.insert(name, ManifestFile { last_edit_id: (m[name].last_edit_id + 1) as u64 })
    } else {
        spec_add(m, name)
    }
}

/// The outcome of an edit of `name`.
pub open spec fn spec_update_outcome(m: Map<Seq<char>, ManifestFile>, name: Seq<char>) -> ManifestOutcome {
    if m.contains_key(name) {
        ManifestOutcome::Updated
    } else {
        ManifestOutcome::FileAdded
    }
}

/// An edit of `name` can be counted without overflow.
pub open spec fn update_fits(m: Map<Seq<char>, ManifestFile>, name: Seq<char>) -> bool {
    m.contains_key(name) ==> m[name].last_edit_id < u64::MAX
}

/// The manifest after `action`.
pub open spec fn spec_apply(m: Map<Seq<char>, ManifestFile>, action: ManifestAction) -> Map<
    Seq<char>,
    ManifestFile,
> {
    match action {
        ManifestAction::Initialize => Map::empty(),
        ManifestAction::Update(name) => spec_update(m, name@),
        ManifestAction::AddFile(name) => spec_add(m, name@),
    }
}

/// The outcome of `action`.
pub open spec fn spec_apply_outcome(m: Map<Seq<char>, ManifestFile>, action: ManifestAction) -> ManifestOutcome {
    match action {
        ManifestAction::Initialize => ManifestOutcome::Initialized,
        ManifestAction::Update(name) => spec_update_outcome(m, name@),
        ManifestAction::AddFile(_) => ManifestOutcome::FileAdded,
    }
}

/// `action` can be applied without overflow.
pub open spec fn action_fits(m: Map<Seq<char>, ManifestFile>, action: ManifestAction) -> bool {
    match action {
        ManifestAction::Update(name) => update_fits(m, name@),
        _ => true,
    }
}

impl View for ManifestStruct {
    type V = Map<Seq<char>, ManifestFile>;

    closed spec fn view(&self) -> Map<Seq<char>, ManifestFile> {
        self.files@
    }
}

impl ManifestStruct {
    /// The manifest is well formed.
    pub closed spec fn wf(&self) -> bool {
        self.files.wf()
    }

    /// An empty manifest.
    pub fn new() -> (m: Self)
        ensures
            m.wf(),
            m@ == Map::<Seq<char>, ManifestFile>::empty(),
    {
        ManifestStruct { files: NameMap::new() }
    }

    /// The record of `name`, if the file is tracked.
    pub fn get(&self, name: &String) -> (r: Option<ManifestFile>)
        requires
            self.wf(),
        ensures
            r == (if self@.contains_key(name@) {
                Some(self@[name@])
            } else {
                None
            }),
    {
        self.files.get(name)
    }

    /// Sets the record of `name`, as when loading a stored manifest.
    pub fn set(&mut self, name: String, file: ManifestFile)
        requires
            old(self).wf(),
        ensures
            final(self).wf(),
            final(self)@ == old(self)@.insert(name@, file),
    {
        self.files.insert(name, file);
    }

    /// The number of tracked files.
    pub fn len(&self) -> (r: usize)
        requires
            self.wf(),
        ensures
            r == self@.dom().len(),
    {
        self.files.len()
    }

    /// The tracked files with their records, each once.
    pub fn files(&self) -> (r: &Vec<(String, ManifestFile)>)
        requires
            self.wf(),
        ensures
            crate::name_map::names_unique(r@),
            crate::name_map::entries_map(r@) == self@,
    {
        self.files.entries()
    }
}

/// Makes the manifest empty.
#[allow(non_snake_case)]
pub fn InitializeManifest(manifest: &mut ManifestStruct) -> (r: ManifestOutcome)
    ensures
        final(manifest).wf(),
        final(manifest)@ == Map::<Seq<char>, ManifestFile>::empty(),
        r == ManifestOutcome::Initialized,
{
    *manifest = ManifestStruct::new();
    ManifestOutcome::Initialized
}

/// Tracks `fileName` with no edit counted, replacing any earlier record of it.
#[allow(non_snake_case)]
pub fn AddFileinManifest(manifest: &mut ManifestStruct, fileName: String) -> (r: ManifestOutcome)
    requires
        old(manifest).wf(),
    ensures
        final(manifest).wf(),
        final(manifest)@ == spec_add(old(manifest)@, fileName@),
        r == ManifestOutcome::FileAdded,
{
    manifest.files.insert(fileName, ManifestFile { last_edit_id: 0 });
    ManifestOutcome::FileAdded
}

/// Counts one more edit of `fileName`; a file that is not tracked yet is added.
#[allow(non_snake_case)]
pub fn UpdateManifest(manifest: &mut ManifestStruct, fileName: String) -> (r: ManifestOutcome)
    requires
        old(manifest).wf(),
        update_fits(old(manifest)@, fileName@),
    ensures
        final(manifest).wf(),
        final(manifest)@ == spec_update(old(manifest)@, fileName@),
        r == spec_update_outcome(old(manifest)@, fileName@),
{
    match manifest.files.get(&fileName) {
        Some(record) => {
            manifest.files.insert(fileName, ManifestFile { last_edit_id: record.last_edit_id + 1 });
            ManifestOutcome::Updated
        },
        None => AddFileinManifest(manifest, fileName),
    }
}

/// Applies `action` to the manifest.
pub fn manifest(current: &mut ManifestStruct, action: ManifestAction) -> (r: ManifestOutcome)
    requires
        old(current).wf(),
        action_fits(old(current)@, action),
    ensures
        final(current).wf(),
        final(current)@ == spec_apply(old(current)@, action),
        r == spec_apply_outcome(old(current)@, action),
{
    match action {
        ManifestAction::Initialize => InitializeManifest(current),
        ManifestAction::AddFile(file_name) => AddFileinManifest(current, file_name),
        ManifestAction::Update(file_name) => UpdateManifest(current, file_name),
    }
}

impl ManifestOutcome {
    /// The message reported to the user.
    pub fn message(&self) -> (r: String)
        ensures
            r@ == (match self {
                ManifestOutcome::Initialized => "Manifest initialized successfully"@,
                ManifestOutcome::FileAdded => "File added successfully"@,
                ManifestOutcome::Updated => "Manifest updated successfully"@,
            }),
    {
        match self {
            ManifestOutcome::Initialized => "Manifest initialized successfully".to_owned(),
            ManifestOutcome::FileAdded => "File added successfully".to_owned(),
            ManifestOutcome::Updated => "Manifest updated successfully".to_owned(),
        }
    }
}

/// The manifest after adding `name` and then counting `k` edits of it.
pub open spec fn after_add_and_edits(
    m: Map<Seq<char>, ManifestFile>,
    name: Seq<char>,
    k: nat,
) -> Map<Seq<char>, ManifestFile>
    decreases k,
{
    if k == 0 {
        spec_add(m, name)
    } else {
        spec_update(after_add_and_edits(m, name, (k - 1) as nat), name)
    }
}

/// A file's record counts its edits: after it is added and edited `k` times,
/// its edit id is `k`, and no other file's record has changed.
pub proof fn lemma_edit_id_counts_edits(m: Map<Seq<char>, ManifestFile>, name: Seq<char>, k: nat)
    requires
        k <= u64::MAX,
    ensures
        after_add_and_edits(m, name, k).contains_key(name),
        after_add_and_edits(m, name, k)[name].last_edit_id == k,
        after_add_and_edits(m, name, k).remove(name) == m.remove(name),
    decreases k,
{
    if k > 0 {
        lemma_edit_id_counts_edits(m, name, (k - 1) as nat);
        let prev = after_add_and_edits(m, name, (k - 1) as nat);
        assert(after_add_and_edits(m, name, k).remove(name) =~= prev.remove(name));
    } else {
        assert(spec_add(m, name).remove(name) =~= m.remove(name));
    }
}

/// Each action of `manifest` has the effect and the outcome of its own
/// operation: `InitializeManifest`, `AddFileinManifest`, `UpdateManifest`.
pub proof fn lemma_manifest_dispatch(m: Map<Seq<char>, ManifestFile>, name: String)
    ensures
        spec_apply(m, ManifestAction::Initialize) == Map::<Seq<char>, ManifestFile>::empty(),
        spec_apply_outcome(m, ManifestAction::Initialize) == ManifestOutcome::Initialized,
        spec_apply(m, ManifestAction::AddFile(name)) == spec_add(m, name@),
        spec_apply_outcome(m, ManifestAction::AddFile(name)) == ManifestOutcome::FileAdded,
        spec_apply(m, ManifestAction::Update(name)) == spec_update(m, name@),
        spec_apply_outcome(m, ManifestAction::Update(name)) == spec_update_outcome(m, name@),
        action_fits(m, ManifestAction::Update(name)) == update_fits(m, name@),
{
}

} // verus!
