//! The decisions of the file monitor. For every path that a file-system event
//! names, the monitor compares what it sees on disk with the modification
//! times it remembers and decides whether a file was created, modified or
//! deleted. Watching the directory and reading metadata is left to the caller,
//! which hands over what it saw as a `PathObservation`.

use vstd::prelude::*;
use crate::name_map::NameMap;
use crate::text::{first_char_is, has_prefix, strip_prefix_str};
use crate::manifest::{
    spec_add, spec_update, spec_update_outcome, update_fits, AddFileinManifest, ManifestOutcome,
    ManifestStruct, UpdateManifest,
};

verus! {

/// A modification time, as signed nanoseconds since the Unix epoch.
#[derive(Clone, Copy, Debug, PartialEq, Eq, Structural)]
pub struct ModTime {
    pub nanos: i128,
}

/// What kind of object a path names.
#[derive(Clone, Copy, Debug, PartialEq, Eq, Structural)]
pub enum PathKind {
    Directory,
    File,
    /// Neither a directory nor a regular file, or nothing at all.
    Other,
}

/// What reading a path's metadata gave.
#[derive(Clone, Copy, Debug, PartialEq, Eq, Structural)]
pub enum Metadata {
    /// The metadata could not be read: the path is gone.
    Unreadable,
    /// The metadata was read but holds no modification time.
    NoModTime,
    /// The file was last modified at this time.
    ModifiedAt(ModTime),
}

/// What the caller saw of one path.
pub struct PathObservation {
    pub kind: PathKind,
    /// The last component of the path, if it has one.
    pub base_name: Option<String>,
    /// The whole path.
    pub full_path: String,
    pub metadata: Metadata,
}

/// What the monitor concluded about a path.
#[derive(Debug)]
pub enum MonitorAction {
    /// Nothing to report.
    Skipped,
    /// A tracked file is gone.
    Deleted(String),
    /// A file appeared.
    Created(String),
    /// A tracked file has a new modification time.
    Modified(String),
}

/// The conclusion of the monitor, with names as character sequences.
pub ghost enum MonitorEvent {
    Skipped,
    Deleted(Seq<char>),
    Created(Seq<char>),
    Modified(Seq<char>),
}

impl View for MonitorAction {
    type V = MonitorEvent;

    open spec fn view(&self) -> MonitorEvent {
        match self {
            MonitorAction::Skipped => MonitorEvent::Skipped,
            MonitorAction::Deleted(n) => MonitorEvent::Deleted(n@),
            MonitorAction::Created(n) => MonitorEvent::Created(n@),
            MonitorAction::Modified(n) => MonitorEvent::Modified(n@),
        }
    }
}

/// The last component of the path starts with a dot: a hidden or temporary file.
pub open spec fn is_hidden(base_name: Option<String>) -> bool {
    match base_name {
        Some(b) => b@.len() > 0 && b@[0] == '.',
        None => false,
    }
}

/// The name of a file below `storage`: its path with the storage prefix taken off.
pub open spec fn name_below(storage: Seq<char>, full_path: Seq<char>) -> Seq<char> {
    full_path.subrange(storage.len() as int, full_path.len() as int)
}

/// The monitor looks at the path's name, which must then lie below `storage`.
pub open spec fn observe_reads_name(obs: PathObservation) -> bool {
    obs.kind != PathKind::Directory && !is_hidden(obs.base_name)
}

/// The remembered times and the conclusion after observing `obs`, where the
/// files named in `receiving` are being received from the server: their
/// times are remembered, but nothing is reported of them, so that they are not
/// synced back.
pub open spec fn monitor_step(
    files: Map<Seq<char>, ModTime>,
    receiving: Set<Seq<char>>,
    storage: Seq<char>,
    obs: PathObservation,
) -> (Map<Seq<char>, ModTime>, MonitorEvent) {
    let name = name_below(storage, obs.full_path@);
    if !observe_reads_name(obs) || name.len() == 0 {
        (files, MonitorEvent::Skipped)
    } else if receiving.contains(name) {
        match obs.metadata {
            Metadata::Unreadable => (files.remove(name), MonitorEvent::Skipped),
            Metadata::NoModTime => (files, MonitorEvent::Skipped),
            Metadata::ModifiedAt(t) => (files.insert(name, t), MonitorEvent::Skipped),
        }
    } else {
        match obs.metadata {
            Metadata::Unreadable => if files.contains_key(name) {
                (files.remove(name), MonitorEvent::Deleted(name))
            } else {
                (files, MonitorEvent::Skipped)
            },
            Metadata::NoModTime => (files, MonitorEvent::Skipped),
            Metadata::ModifiedAt(t) => if !files.contains_key(name) {
                (files.insert(name, t), MonitorEvent::Created(name))
            } else if files[name] != t {
                (files.insert(name, t), MonitorEvent::Modified(name))
            } else {
                (files, MonitorEvent::Skipped)
            },
        }
    }
}

/// The remembered times after loading an existing entry of the storage directory.
pub open spec fn load_step(
    files: Map<Seq<char>, ModTime>,
    storage: Seq<char>,
    obs: PathObservation,
) -> Map<Seq<char>, ModTime> {
    if obs.kind == PathKind::File && !is_hidden(obs.base_name) {
        match obs.metadata {
            Metadata::ModifiedAt(t) => files.insert(name_below(storage, obs.full_path@), t),
            _ => files,
        }
    } else {
        files
    }
}

impl PathObservation {
    /// Whether observing this path on an event reads its name below the
    /// storage directory: it is not a directory and not hidden.
    pub fn reads_name_on_event(&self) -> (r: bool)
        ensures
            r == observe_reads_name(*self),
    {
        self.kind != PathKind::Directory && !hidden(&self.base_name)
    }

    /// Whether loading this entry at start-up reads its name below the
    /// storage directory: it is a regular file and not hidden.
    pub fn reads_name_on_load(&self) -> (r: bool)
        ensures
            r == (self.kind == PathKind::File && !is_hidden(self.base_name)),
    {
        self.kind == PathKind::File && !hidden(&self.base_name)
    }
}

/// The modification times of the files the monitor knows.
pub struct FileTable {
    files: NameMap<ModTime>,
    receiving: NameMap<()>,
}

impl View for FileTable {
    type V = Map<Seq<char>, ModTime>;

    closed spec fn view(&self) -> Map<Seq<char>, ModTime> {
        self.files@
    }
}

/// Whether the path's last component marks a hidden file.
fn hidden(base_name: &Option<String>) -> (r: bool)
    ensures
        r == is_hidden(*base_name),
{
    match base_name {
        Some(b) => first_char_is(b.as_str(), '.'),
        None => false,
    }
}

impl FileTable {
    /// The table is well formed.
    pub closed spec fn wf(&self) -> bool {
        self.files.wf() && self.receiving.wf()
    }

    /// The names of the files that are being received from the server.
    pub closed spec fn receiving(&self) -> Set<Seq<char>> {
        self.receiving@.dom()
    }

    /// A table that knows no file.
    pub fn new() -> (t: Self)
        ensures
            t.wf(),
            t@ == Map::<Seq<char>, ModTime>::empty(),
            t.receiving() == Set::<Seq<char>>::empty(),
    {
        let t = FileTable { files: NameMap::new(), receiving: NameMap::new() };
        assert(t.receiving() =~= Set::<Seq<char>>::empty());
        t
    }

    /// Marks `name` as being received from the server: observations of it are
    /// remembered but not reported until it is unmarked.
    pub fn mark_receiving(&mut self, name: String)
        requires
            old(self).wf(),
        ensures
            final(self).wf(),
            final(self)@ == old(self)@,
            final(self).receiving() == old(self).receiving().insert(name@),
    {
        self.receiving.insert(name, ());
        assert(self.receiving() =~= old(self).receiving().insert(name@));
    }

    /// Ends the mark of `name`.
    pub fn unmark_receiving(&mut self, name: &String)
        requires
            old(self).wf(),
        ensures
            final(self).wf(),
            final(self)@ == old(self)@,
            final(self).receiving() == old(self).receiving().remove(name@),
    {
        self.receiving.remove(name);
        assert(self.receiving() =~= old(self).receiving().remove(name@));
    }

    /// Whether `name` is marked as being received.
    pub fn is_receiving(&self, name: &String) -> (r: bool)
        requires
            self.wf(),
        ensures
            r == self.receiving().contains(name@),
    {
        self.receiving.contains(name)
    }

    /// The remembered modification time of `name`.
    pub fn get(&self, name: &String) -> (r: Option<ModTime>)
        requires
            self.wf(),
        ensures
            r == (if self@.contains_key(name@) {
                Some(self@[name@])
            } else {
                None
            }),
    {
        self.files.get(name)
    }

    /// The number of known files.
    pub fn len(&self) -> (r: usize)
        requires
            self.wf(),
        ensures
            r == self@.dom().len(),
    {
        self.files.len()
    }

    /// Records an entry found in the storage directory when the monitor starts:
    /// a regular, not hidden file with a modification time is remembered under
    /// its name below `storage`. Tells whether it was recorded.
    pub fn load_existing(&mut self, storage: &str, obs: &PathObservation) -> (r: bool)
        requires
            old(self).wf(),
            obs.kind == PathKind::File && !is_hidden(obs.base_name) ==> has_prefix(
                obs.full_path@,
                storage@,
            ),
        ensures
            final(self).wf(),
            final(self)@ == load_step(old(self)@, storage@, *obs),
            final(self).receiving() == old(self).receiving(),
            r == (obs.kind == PathKind::File && !is_hidden(obs.base_name)
                && obs.metadata is ModifiedAt),
    {
        if obs.kind != PathKind::File || hidden(&obs.base_name) {
            return false;
        }
        let name = strip_prefix_str(obs.full_path.as_str(), storage).unwrap();
        match obs.metadata {
            Metadata::ModifiedAt(t) => {
                self.files.insert(name, t);
                true
            },
            _ => false,
        }
    }

    /// Decides what an event on `obs` means and updates the remembered times:
    /// directories, hidden files and the storage directory itself are skipped;
    /// a tracked file whose metadata cannot be read was deleted; a file with a
    /// time the table does not know was created; a tracked file with another
    /// time than the remembered one was modified. Files marked as being
    /// received are remembered without a report.
    pub fn observe(&mut self, storage: &str, obs: &PathObservation) -> (r: MonitorAction)
        requires
            old(self).wf(),
            observe_reads_name(*obs) ==> has_prefix(obs.full_path@, storage@),
        ensures
            final(self).wf(),
            (final(self)@, r@) == monitor_step(old(self)@, old(self).receiving(), storage@, *obs),
            final(self).receiving() == old(self).receiving(),
    {
        if obs.kind == PathKind::Directory || hidden(&obs.base_name) {
            return MonitorAction::Skipped;
        }
        let name = strip_prefix_str(obs.full_path.as_str(), storage).unwrap();
        if name.as_str().is_empty() {
            return MonitorAction::Skipped;
        }
        if self.receiving.contains(&name) {
            match obs.metadata {
                Metadata::Unreadable => {
                    self.files.remove(&name);
                },
                Metadata::NoModTime => {},
                Metadata::ModifiedAt(t) => {
                    self.files.insert(name, t);
                },
            }
            return MonitorAction::Skipped;
        }
        match obs.metadata {
            Metadata::Unreadable => {
                if self.files.remove(&name) {
                    MonitorAction::Deleted(name)
                } else {
                    MonitorAction::Skipped
                }
            },
            Metadata::NoModTime => MonitorAction::Skipped,
            Metadata::ModifiedAt(t) => {
                match self.files.get(&name) {
                    None => {
                        self.files.insert(name.clone(), t);
                        MonitorAction::Created(name)
                    },
                    Some(known) => {
                        if known != t {
                            self.files.insert(name.clone(), t);
                            MonitorAction::Modified(name)
                        } else {
                            MonitorAction::Skipped
                        }
                    },
                }
            },
        }
    }
}

/// The remembered times after loading each of `entries` in turn.
pub open spec fn load_all(
    files: Map<Seq<char>, ModTime>,
    storage: Seq<char>,
    entries: Seq<PathObservation>,
) -> Map<Seq<char>, ModTime>
    decreases entries.len(),
{
    if entries.len() == 0 {
        files
    } else {
        load_step(load_all(files, storage, entries.drop_last()), storage, entries.last())
    }
}

/// Every regular, not hidden entry lies below `storage`.
pub open spec fn entries_below(storage: Seq<char>, entries: Seq<PathObservation>) -> bool {
    forall|i: int|
        0 <= i < entries.len() && (#[trigger] entries[i]).kind == PathKind::File && !is_hidden(
            entries[i].base_name,
        ) ==> has_prefix(entries[i].full_path@, storage)
}

/// Records the files that the storage directory holds when the monitor
/// starts: each regular, not hidden entry with a modification time.
#[allow(non_snake_case)]
pub fn LoadExistingFiles(files: &mut FileTable, storage: &str, entries: &Vec<PathObservation>)
    requires
        old(files).wf(),
        entries_below(storage@, entries@),
    ensures
        final(files).wf(),
        final(files)@ == load_all(old(files)@, storage@, entries@),
{
    let ghost start = files@;
    let n = entries.len();
    for i in 0..n
        invariant
            n == entries@.len(),
            files.wf(),
            entries_below(storage@, entries@),
            files@ == load_all(start, storage@, entries@.subrange(0, i as int)),
    {
        assert(entries@.subrange(0, i + 1).drop_last() =~= entries@.subrange(0, i as int));
        let obs = &entries[i];
        files.load_existing(storage, obs);
    }
    assert(entries@.subrange(0, n as int) =~= entries@);
}

/// Loading entries onto `files` overrides `files` with what loading them onto
/// an empty table gives.
proof fn lemma_load_all_overrides(
    files: Map<Seq<char>, ModTime>,
    storage: Seq<char>,
    entries: Seq<PathObservation>,
)
    ensures
        load_all(files, storage, entries) == files.union_prefer_right(
            load_all(Map::empty(), storage, entries),
        ),
    decreases entries.len(),
{
    if entries.len() == 0 {
        assert(files.union_prefer_right(Map::empty()) =~= files);
    } else {
        let rest = entries.drop_last();
        lemma_load_all_overrides(files, storage, rest);
        let before = load_all(files, storage, rest);
        let fresh = load_all(Map::empty(), storage, rest);
        let e = entries.last();
        if e.kind == PathKind::File && !is_hidden(e.base_name) {
            match e.metadata {
                Metadata::ModifiedAt(t) => {
                    let k = name_below(storage, e.full_path@);
                    assert(before.insert(k, t) =~= files.union_prefer_right(fresh.insert(k, t)));
                },
                _ => {},
            }
        }
    }
}

/// Loading the same entries a second time leaves the table as the first
/// loading left it.
pub proof fn lemma_load_twice_is_load_once(
    files: Map<Seq<char>, ModTime>,
    storage: Seq<char>,
    entries: Seq<PathObservation>,
)
    ensures
        load_all(load_all(files, storage, entries), storage, entries) == load_all(
            files,
            storage,
            entries,
        ),
{
    let once = load_all(files, storage, entries);
    let fresh = load_all(Map::empty(), storage, entries);
    lemma_load_all_overrides(files, storage, entries);
    lemma_load_all_overrides(once, storage, entries);
    assert(once.union_prefer_right(fresh) =~= once);
}

/// Every regular, not hidden entry is a file directly in `storage`: its path
/// is the storage path followed by its last component, which is not empty and
/// holds no slash.
pub open spec fn direct_entries(storage: Seq<char>, entries: Seq<PathObservation>) -> bool {
    forall|i: int|
        0 <= i < entries.len() && (#[trigger] entries[i]).kind == PathKind::File && !is_hidden(
            entries[i].base_name,
        ) ==> (entries[i].base_name matches Some(b) && b@.len() > 0 && !b@.contains('/')
            && entries[i].full_path@ == storage + b@)
}

/// When the entries are files directly in the storage directory, every name
/// that loading adds is not empty, does not start with a dot, and holds no
/// slash: directories and their contents are never added.
pub proof fn lemma_loaded_names_are_plain(
    files: Map<Seq<char>, ModTime>,
    storage: Seq<char>,
    entries: Seq<PathObservation>,
)
    requires
        direct_entries(storage, entries),
    ensures
        forall|k: Seq<char>|
            #[trigger] load_all(files, storage, entries).contains_key(k) ==> files.contains_key(k)
                || (k.len() > 0 && k[0] != '.' && !k.contains('/')),
    decreases entries.len(),
{
    if entries.len() > 0 {
        let rest = entries.drop_last();
        assert(direct_entries(storage, rest)) by {
            assert forall|i: int|
                0 <= i < rest.len() && (#[trigger] rest[i]).kind == PathKind::File && !is_hidden(
                    rest[i].base_name,
                ) implies (rest[i].base_name matches Some(b) && b@.len() > 0 && !b@.contains('/')
                && rest[i].full_path@ == storage + b@) by {
                assert(rest[i] == entries[i]);
            }
        }
        lemma_loaded_names_are_plain(files, storage, rest);
        let e = entries.last();
        assert(e == entries[entries.len() - 1]);
        let before = load_all(files, storage, rest);
        if e.kind == PathKind::File && !is_hidden(e.base_name) {
            let b = e.base_name.unwrap();
            let name = name_below(storage, e.full_path@);
            assert(name =~= b@);
            assert(name.len() > 0 && name[0] != '.' && !name.contains('/'));
            assert forall|k: Seq<char>|
                #[trigger] load_all(files, storage, entries).contains_key(k) implies files.contains_key(k)
                    || (k.len() > 0 && k[0] != '.' && !k.contains('/')) by {
                if k != name {
                    assert(before.contains_key(k));
                }
            }
        } else {
            assert(load_all(files, storage, entries) == before);
        }
    }
}

/// Records in the manifest that a file was created: it is tracked with no
/// edit counted.
#[allow(non_snake_case)]
pub fn FileCreated(manifest: &mut ManifestStruct, fileName: String) -> (r: ManifestOutcome)
    requires
        old(manifest).wf(),
    ensures
        final(manifest).wf(),
        final(manifest)@ == spec_add(old(manifest)@, fileName@),
        r == ManifestOutcome::FileAdded,
{
    AddFileinManifest(manifest, fileName)
}

/// Records in the manifest that a file was modified: one more edit is
/// counted, or the file is added where it was not tracked.
#[allow(non_snake_case)]
pub fn FileModified(manifest: &mut ManifestStruct, fileName: String) -> (r: ManifestOutcome)
    requires
        old(manifest).wf(),
        update_fits(old(manifest)@, fileName@),
    ensures
        final(manifest).wf(),
        final(manifest)@ == spec_update(old(manifest)@, fileName@),
        r == spec_update_outcome(old(manifest)@, fileName@),
{
    UpdateManifest(manifest, fileName)
}

/// Observing the same thing twice in a row reports nothing the second time
/// and leaves the remembered times as the first observation left them.
pub proof fn lemma_observe_twice_is_quiet(
    files: Map<Seq<char>, ModTime>,
    receiving: Set<Seq<char>>,
    storage: Seq<char>,
    obs: PathObservation,
)
    ensures
        ({
            let once = monitor_step(files, receiving, storage, obs).0;
            monitor_step(once, receiving, storage, obs) == (once, MonitorEvent::Skipped)
        }),
{
    let name = name_below(storage, obs.full_path@);
    let once = monitor_step(files, receiving, storage, obs).0;
    if observe_reads_name(obs) && name.len() > 0 && receiving.contains(name) {
        match obs.metadata {
            Metadata::Unreadable => {
                assert(once.remove(name) =~= once);
            },
            Metadata::NoModTime => {},
            Metadata::ModifiedAt(t) => {
                assert(once.insert(name, t) =~= once);
            },
        }
    } else if observe_reads_name(obs) && name.len() > 0 {
        match obs.metadata {
            Metadata::Unreadable => {
                assert(!once.contains_key(name));
            },
            Metadata::NoModTime => {},
            Metadata::ModifiedAt(t) => {
                assert(once.contains_key(name) && once[name] == t);
            },
        }
    }
}

/// A file that the monitor reports as created or modified is remembered with
/// the time it was observed at; one reported as deleted is forgotten; nothing
/// is reported of a file being received.
pub proof fn lemma_reported_files_are_remembered(
    files: Map<Seq<char>, ModTime>,
    receiving: Set<Seq<char>>,
    storage: Seq<char>,
    obs: PathObservation,
)
    ensures
        ({
            let (after, event) = monitor_step(files, receiving, storage, obs);
            &&& !(event is Skipped) ==> !receiving.contains(name_below(storage, obs.full_path@))
            &&& event matches MonitorEvent::Created(n) ==> after.contains_key(n) && obs.metadata
                == Metadata::ModifiedAt(after[n]) && !files.contains_key(n)
            &&& event matches MonitorEvent::Modified(n) ==> after.contains_key(n) && obs.metadata
                == Metadata::ModifiedAt(after[n]) && files.contains_key(n) && files[n] != after[n]
            &&& event matches MonitorEvent::Deleted(n) ==> !after.contains_key(n)
                && files.contains_key(n)
        }),
{
}

/// The path names the file `n` directly below `storage`, is not a directory,
/// and its last component does not start with a dot.
pub open spec fn visible_file_named(storage: Seq<char>, obs: PathObservation, n: Seq<char>) -> bool {
    &&& obs.kind != PathKind::Directory
    &&& match obs.base_name {
        Some(b) => b@.len() == 0 || b@[0] != '.',
        None => true,
    }
    &&& obs.full_path@ == storage + n
    &&& n.len() > 0
}

/// What an observation of a visible file `n` means, in terms of what the
/// table remembers: a new time for an unknown file is a creation, a time
/// other than the remembered one (older or newer) is a modification, the same
/// time is nothing, unreadable metadata of a known file is a deletion; a file
/// being received is remembered without a report.
pub proof fn lemma_monitor_decisions(
    files: Map<Seq<char>, ModTime>,
    receiving: Set<Seq<char>>,
    storage: Seq<char>,
    obs: PathObservation,
    n: Seq<char>,
)
    requires
        visible_file_named(storage, obs, n),
    ensures
        ({
            let step = monitor_step(files, receiving, storage, obs);
            &&& !receiving.contains(n) && !files.contains_key(n) ==> (obs.metadata matches Metadata::ModifiedAt(t)
                ==> step == (files.insert(n, t), MonitorEvent::Created(n)))
            &&& !receiving.contains(n) && files.contains_key(n) ==> (obs.metadata matches Metadata::ModifiedAt(t)
                ==> step == (files.insert(n, t), if files[n] != t {
                MonitorEvent::Modified(n)
            } else {
                MonitorEvent::Skipped
            }))
            &&& !receiving.contains(n) && files.contains_key(n) && obs.metadata == Metadata::Unreadable
                ==> step == (files.remove(n), MonitorEvent::Deleted(n))
            &&& !files.contains_key(n) && obs.metadata == Metadata::Unreadable ==> step == (
                files,
                MonitorEvent::Skipped,
            )
            &&& obs.metadata == Metadata::NoModTime ==> step == (files, MonitorEvent::Skipped)
            &&& receiving.contains(n) ==> step.1 == MonitorEvent::Skipped && (
            obs.metadata matches Metadata::ModifiedAt(t) ==> step.0 == files.insert(n, t))
        }),
{
    assert(name_below(storage, obs.full_path@) =~= n);
    if let Metadata::ModifiedAt(t) = obs.metadata {
        if files.contains_key(n) && files[n] == t {
            assert(files.insert(n, t) =~= files);
        }
    }
    if !files.contains_key(n) {
        assert(files.remove(n) =~= files);
    }
}

/// Loading an entry at start-up remembers a regular, visible file below
/// `storage` with its modification time, whatever its name, and changes
/// nothing for any other entry.
pub proof fn lemma_load_remembers_files(
    files: Map<Seq<char>, ModTime>,
    storage: Seq<char>,
    obs: PathObservation,
    n: Seq<char>,
)
    requires
        obs.full_path@ == storage + n,
    ensures
        obs.kind == PathKind::File && (match obs.base_name {
            Some(b) => b@.len() == 0 || b@[0] != '.',
            None => true,
        }) ==> (obs.metadata matches Metadata::ModifiedAt(t) ==> load_step(files, storage, obs)
            == files.insert(n, t)),
        !(obs.metadata is ModifiedAt) ==> load_step(files, storage, obs) == files,
        obs.kind != PathKind::File ==> load_step(files, storage, obs) == files,
{
    assert(name_below(storage, obs.full_path@) =~= n);
}

/// After loading entries that lie below `storage`, each regular, visible file
/// is remembered with the time of its last entry.
pub proof fn lemma_load_all_remembers(
    files: Map<Seq<char>, ModTime>,
    storage: Seq<char>,
    entries: Seq<PathObservation>,
    i: int,
    n: Seq<char>,
    t: ModTime,
)
    requires
        0 <= i < entries.len(),
        entries[i].kind == PathKind::File,
        match entries[i].base_name {
            Some(b) => b@.len() == 0 || b@[0] != '.',
            None => true,
        },
        entries[i].full_path@ == storage + n,
        entries[i].metadata == Metadata::ModifiedAt(t),
        entries_below(storage, entries),
        forall|j: int|
            i < j < entries.len() ==> !(#[trigger] entries[j].full_path@ == storage + n
                && entries[j].kind == PathKind::File && !is_hidden(entries[j].base_name)
                && entries[j].metadata is ModifiedAt),
    ensures
        load_all(files, storage, entries).contains_key(n),
        load_all(files, storage, entries)[n] == t,
    decreases entries.len(),
{
    let rest = entries.drop_last();
    let e = entries.last();
    if i == entries.len() - 1 {
        lemma_load_remembers_files(load_all(files, storage, rest), storage, e, n);
    } else {
        assert(rest[i] == entries[i]);
        assert(entries_below(storage, rest)) by {
            assert forall|j: int|
                0 <= j < rest.len() && (#[trigger] rest[j]).kind == PathKind::File && !is_hidden(
                    rest[j].base_name,
                ) implies has_prefix(rest[j].full_path@, storage) by {
                assert(rest[j] == entries[j]);
            }
        }
        assert forall|j: int|
            i < j < rest.len() implies !(#[trigger] rest[j].full_path@ == storage + n
                && rest[j].kind == PathKind::File && !is_hidden(rest[j].base_name)
                && rest[j].metadata is ModifiedAt) by {
            assert(rest[j] == entries[j]);
        }
        lemma_load_all_remembers(files, storage, rest, i, n, t);
        let k = entries.len() - 1;
        assert(entries[k] == e);
        if e.kind == PathKind::File && !is_hidden(e.base_name) && e.metadata is ModifiedAt {
            assert(e.full_path@ != storage + n);
            let m = name_below(storage, e.full_path@);
            assert(has_prefix(e.full_path@, storage));
            assert(e.full_path@ =~= storage + m);
        }
    }
}

} // verus!
