//! A model of the disk and of a download, against which the materializer
//! is run to the end: what it leaves behind is then a matter of proof.

use crate::file_manager::{
    file_complete, final_path, is_reserved, item_directory, sentinel_path, temporary_path,
    DirectoryState, PathModel, SENTINEL_NAME, TEMPORARY_PREFIX,
};
use crate::materializer::{
    begin_spec, enter_entry, enter_finish, enter_payload, enter_resolve, initial_state,
    is_archive, step_spec, ActionView, ArchiveEntryView, EventView, MachineState,
    MaterializeError, Materialized, Phase,
};
use crate::text::has_prefix;
use crate::types::CollectionItemKind;
use crate::types::CollectionItemView;
use vstd::prelude::*;

verus! {

/// What is on the disk: the directories and the files, by their paths.
pub struct Disk {
    pub directories: Set<PathModel>,
    pub files: Set<PathModel>,
}

/// What a download delivers.
pub struct Payload {
    /// How many bytes arrive; `None` where the transfer breaks off.
    pub delivered: Option<u64>,
    /// The entries of the archive that arrives; `None` where what arrives
    /// cannot be read as an archive.
    pub entries: Option<Seq<ArchiveEntryView>>,
}

impl Disk {
    /// Whether anything is at a path.
    pub open spec fn holds(self, path: PathModel) -> bool {
        self.files.contains(path) || self.directories.contains(path)
    }

    /// Whether a path lies directly in a directory.
    pub open spec fn lies_in(path: PathModel, directory: PathModel) -> bool {
        path.len() == directory.len() + 1 && path.drop_last() == directory
    }

    /// Whether a directory holds anything.
    pub open spec fn has_entries(self, directory: PathModel) -> bool {
        exists|path: PathModel| #[trigger] self.holds(path) && Self::lies_in(path, directory)
    }

    /// What is found at a directory.
    pub open spec fn inspect(self, directory: PathModel) -> DirectoryState {
        DirectoryState {
            exists: self.directories.contains(directory),
            has_sentinel: self.files.contains(sentinel_path(directory)),
            has_entries: self.has_entries(directory),
        }
    }

    /// The disk with one directory more.
    pub open spec fn with_directory(self, path: PathModel) -> Disk {
        Disk { directories: self.directories.insert(path), ..self }
    }

    /// The disk with one file more.
    pub open spec fn with_file(self, path: PathModel) -> Disk {
        Disk { files: self.files.insert(path), ..self }
    }

    /// The disk without a file.
    pub open spec fn without_file(self, path: PathModel) -> Disk {
        Disk { files: self.files.remove(path), ..self }
    }
}

/// How a disk on which no operation fails answers an action, and what is on
/// it afterwards. A transfer that breaks off leaves the file that it was
/// writing.
pub open spec fn respond(disk: Disk, payload: Payload, action: ActionView) -> (Disk, EventView) {
    match action {
        ActionView::Inspect(directory) => (disk, EventView::Directory(disk.inspect(directory))),
        ActionView::Probe(path) => (disk, EventView::Exists(disk.holds(path))),
        ActionView::CreateDirectory(path) => (disk.with_directory(path), EventView::Done),
        ActionView::CreateFile(path) => (disk.with_file(path), EventView::Done),
        ActionView::Download(path) => (
            disk.with_file(path),
            match payload.delivered {
                Some(bytes) => EventView::Stored(bytes),
                None => EventView::TransferFailed,
            },
        ),
        ActionView::OpenArchive(_) => (
            disk,
            match payload.entries {
                Some(entries) => EventView::Opened(entries.len()),
                None => EventView::ArchiveFailed,
            },
        ),
        ActionView::ReadEntry(index) => (
            disk,
            match payload.entries {
                Some(entries) => if index < entries.len() {
                    EventView::Entry(entries[index as int])
                } else {
                    EventView::ArchiveFailed
                },
                None => EventView::ArchiveFailed,
            },
        ),
        ActionView::Extract(_, path) => (disk.with_file(path), EventView::Done),
        ActionView::Remove(path) => (disk.without_file(path), EventView::Done),
        ActionView::Rename(from, to) => (disk.without_file(from).with_file(to), EventView::Done),
        ActionView::Finish(_) => (disk, EventView::Done),
    }
}

/// How far a phase is from the end.
pub open spec fn stage(phase: Phase) -> nat {
    match phase {
        Phase::Gate => 20,
        Phase::GateFile => 19,
        Phase::MakeDirectory => 18,
        Phase::MakeSentinel => 17,
        Phase::Fetch => 16,
        Phase::ClearFinal => 15,
        Phase::RemoveFinal => 14,
        Phase::RecheckFinal => 13,
        Phase::RemoveFinalAgain => 12,
        Phase::Promote => 11,
        Phase::Open => 10,
        Phase::ReadingEntry => 9,
        Phase::EntryCheck => 9,
        Phase::EntryRemove => 9,
        Phase::EntryExtract => 9,
        Phase::EntryPromote => 9,
        Phase::Discard => 8,
        Phase::SentinelCheck => 7,
        Phase::SentinelRemove => 6,
        Phase::Finished => 1,
    }
}

/// How far the work on an entry is from the next entry.
pub open spec fn entry_stage(phase: Phase) -> nat {
    match phase {
        Phase::ReadingEntry => 5,
        Phase::EntryCheck => 4,
        Phase::EntryRemove => 3,
        Phase::EntryExtract => 2,
        Phase::EntryPromote => 1,
        _ => 0,
    }
}

/// What bounds the steps that are left: first the phase, then the entries.
pub open spec fn steps_left(state: MachineState, action: ActionView) -> (nat, nat) {
    if action is Finish {
        (0, 0)
    } else {
        (
            stage(state.phase),
            if state.index < state.count {
                ((state.count - state.index) * 8 + entry_stage(state.phase)) as nat
            } else {
                entry_stage(state.phase)
            },
        )
    }
}

/// Runs a download to its end on a disk on which no operation fails: the
/// disk afterwards, and how the download ended.
#[verifier::opaque]
pub open spec fn run(state: MachineState, action: ActionView, disk: Disk, payload: Payload) -> (
    Disk,
    Result<Materialized, MaterializeError>,
)
    decreases steps_left(state, action).0, steps_left(state, action).1,
{
    match action {
        ActionView::Finish(outcome) => (disk, outcome),
        _ => {
            let (after, event) = respond(disk, payload, action);
            let (next, then) = step_spec(state, event);
            run(next, then, after, payload)
        },
    }
}

/// A download from its beginning to its end: the disk afterwards, and how
/// the download ended.
pub open spec fn materialize(
    root: Seq<char>,
    item: CollectionItemView,
    filename: Seq<char>,
    declared_length: u64,
    disk: Disk,
    payload: Payload,
) -> (Disk, Result<Materialized, MaterializeError>) {
    let (start, first) = begin_spec(root, item, filename, declared_length);
    run(start, first, disk, payload)
}

/// Whether the tracker counts a file of an item as downloaded, on a disk.
pub open spec fn counts_as_complete(
    root: Seq<char>,
    item: CollectionItemView,
    filename: Seq<char>,
    disk: Disk,
) -> bool {
    let directory = item_directory(root, item);
    file_complete(
        item.itype,
        disk.inspect(directory),
        disk.holds(final_path(directory, filename)),
    )
}

/// No file is written under the name of the marker, and none under its own
/// final name.
pub proof fn lemma_staging_apart(directory: PathModel, filename: Seq<char>)
    ensures
        temporary_path(directory, filename) != sentinel_path(directory),
        temporary_path(directory, filename) != final_path(directory, filename),
        final_path(directory, filename) == sentinel_path(directory) <==> filename
            == SENTINEL_NAME@,
{
    reveal_strlit(".incomplete");
    reveal_strlit(".temporary.");
    let staged = TEMPORARY_PREFIX@ + filename;
    assert(staged[1] == 't');
    assert(SENTINEL_NAME@[1] == 'i');
    assert(staged.len() == filename.len() + 11);
    assert(temporary_path(directory, filename).last() == staged);
    assert(sentinel_path(directory).last() == SENTINEL_NAME@);
    assert(final_path(directory, filename).last() == filename);
}

/// A file whose name is not reserved ends up neither where the marker
/// stands nor where any file is written.
pub proof fn lemma_names_apart(directory: PathModel, filename: Seq<char>, other: Seq<char>)
    requires
        !is_reserved(filename),
    ensures
        final_path(directory, filename) != sentinel_path(directory),
        final_path(directory, filename) != temporary_path(directory, other),
{
    let staged = TEMPORARY_PREFIX@ + other;
    assert(final_path(directory, filename).last() == filename);
    assert(sentinel_path(directory).last() == SENTINEL_NAME@);
    assert(temporary_path(directory, other).last() == staged);
    assert(staged.subrange(0, TEMPORARY_PREFIX@.len() as int) =~= TEMPORARY_PREFIX@);
    assert(has_prefix(staged, TEMPORARY_PREFIX@));
}

/// What the tracker counts as downloaded is left alone: the download ends
/// as skipped, and nothing on the disk has changed.
pub proof fn lemma_complete_is_skipped(
    root: Seq<char>,
    item: CollectionItemView,
    filename: Seq<char>,
    declared_length: u64,
    disk: Disk,
    payload: Payload,
)
    requires
        counts_as_complete(root, item, filename, disk),
    ensures
        materialize(root, item, filename, declared_length, disk, payload) == (
            disk,
            Ok::<Materialized, MaterializeError>(Materialized::Skipped),
        ),
{
    reveal_with_fuel(run, 4);
}

/// A transfer that breaks off ends the download with a fault. The marker
/// is in place wherever the directory was made for this download; where the
/// directory was there, the marker is as it was. What stood under the final
/// name still stands there, and nothing else does, unless the download bears
/// the name of the marker itself.
pub proof fn lemma_broken_transfer(
    root: Seq<char>,
    item: CollectionItemView,
    filename: Seq<char>,
    declared_length: u64,
    disk: Disk,
    payload: Payload,
)
    requires
        payload.delivered is None,
        !counts_as_complete(root, item, filename, disk),
    ensures
        ({
            let directory = item_directory(root, item);
            let marker = sentinel_path(directory);
            let target = final_path(directory, filename);
            let (after, outcome) = materialize(root, item, filename, declared_length, disk, payload);
            &&& outcome == Err::<Materialized, MaterializeError>(MaterializeError::Transfer)
            &&& !disk.directories.contains(directory) ==> after.files.contains(marker)
            &&& disk.directories.contains(directory) ==> after.files.contains(marker)
                == disk.files.contains(marker)
            &&& filename != SENTINEL_NAME@ ==> after.files.contains(target)
                == disk.files.contains(target)
        }),
{
    let directory = item_directory(root, item);
    lemma_staging_apart(directory, filename);
    reveal_with_fuel(run, 6);
}

/// Whether every file among the entries from `index` on has a name that
/// stays inside the directory.
pub open spec fn unpackable(entries: Seq<ArchiveEntryView>, index: nat) -> bool {
    forall|i: int|
        index <= i < entries.len() && (#[trigger] entries[i]).is_file
            ==> entries[i].enclosed_name is Some
}

/// The files that are there once the entries from `index` on have been
/// unpacked into a directory: each file among them stands under its name, and
/// nothing under the name that it was written under.
pub open spec fn unpacked(
    files: Set<PathModel>,
    directory: PathModel,
    entries: Seq<ArchiveEntryView>,
    index: nat,
) -> Set<PathModel>
    decreases entries.len() - index,
{
    if index >= entries.len() {
        files
    } else if !entries[index as int].is_file || entries[index as int].enclosed_name is None {
        unpacked(files, directory, entries, index + 1)
    } else {
        let name = entries[index as int].enclosed_name->0;
        unpacked(
            files.remove(temporary_path(directory, name)).insert(final_path(directory, name)),
            directory,
            entries,
            index + 1,
        )
    }
}

/// Whether unpacking the entries from `index` on writes or removes a path.
pub open spec fn touched(
    directory: PathModel,
    entries: Seq<ArchiveEntryView>,
    index: nat,
    path: PathModel,
) -> bool {
    exists|i: int|
        index <= i < entries.len() && (#[trigger] entries[i]).is_file
            && entries[i].enclosed_name is Some && (path == temporary_path(
            directory,
            entries[i].enclosed_name->0,
        ) || path == final_path(directory, entries[i].enclosed_name->0))
}

/// Unpacking leaves alone what it does not touch.
pub proof fn lemma_unpacked_frame(
    files: Set<PathModel>,
    directory: PathModel,
    entries: Seq<ArchiveEntryView>,
    index: nat,
    path: PathModel,
)
    requires
        !touched(directory, entries, index, path),
    ensures
        unpacked(files, directory, entries, index).contains(path) == files.contains(path),
    decreases entries.len() - index,
{
    if index < entries.len() {
        let entry = entries[index as int];
        assert forall|i: int|
            index + 1 <= i < entries.len() && (#[trigger] entries[i]).is_file
                && entries[i].enclosed_name is Some implies !(path == temporary_path(
            directory,
            entries[i].enclosed_name->0,
        ) || path == final_path(directory, entries[i].enclosed_name->0)) by {}
        if !entry.is_file || entry.enclosed_name is None {
            lemma_unpacked_frame(files, directory, entries, index + 1, path);
        } else {
            let name = entry.enclosed_name->0;
            assert(entries[index as int].is_file);
            lemma_unpacked_frame(
                files.remove(temporary_path(directory, name)).insert(final_path(directory, name)),
                directory,
                entries,
                index + 1,
                path,
            );
        }
    }
}

/// Whether a path that unpacking touches is there afterwards does not depend
/// on what was there before.
pub proof fn lemma_unpacked_determined(
    files: Set<PathModel>,
    others: Set<PathModel>,
    directory: PathModel,
    entries: Seq<ArchiveEntryView>,
    index: nat,
    path: PathModel,
)
    requires
        touched(directory, entries, index, path),
    ensures
        unpacked(files, directory, entries, index).contains(path) == unpacked(
            others,
            directory,
            entries,
            index,
        ).contains(path),
    decreases entries.len() - index,
{
    if index < entries.len() {
        let entry = entries[index as int];
        if !entry.is_file || entry.enclosed_name is None {
            let i = choose|i: int|
                index <= i < entries.len() && (#[trigger] entries[i]).is_file
                    && entries[i].enclosed_name is Some && (path == temporary_path(
                    directory,
                    entries[i].enclosed_name->0,
                ) || path == final_path(directory, entries[i].enclosed_name->0));
            assert(i != index);
            assert(entries[i].is_file);
            assert(touched(directory, entries, index + 1, path));
            lemma_unpacked_determined(files, others, directory, entries, index + 1, path);
        } else {
            let name = entry.enclosed_name->0;
            let staged = temporary_path(directory, name);
            let placed = final_path(directory, name);
            let one = files.remove(staged).insert(placed);
            let two = others.remove(staged).insert(placed);
            if touched(directory, entries, index + 1, path) {
                lemma_unpacked_determined(one, two, directory, entries, index + 1, path);
            } else {
                let i = choose|i: int|
                    index <= i < entries.len() && (#[trigger] entries[i]).is_file
                        && entries[i].enclosed_name is Some && (path == temporary_path(
                        directory,
                        entries[i].enclosed_name->0,
                    ) || path == final_path(directory, entries[i].enclosed_name->0));
                if i != index {
                    assert(entries[i].is_file);
                    assert(touched(directory, entries, index + 1, path));
                }
                lemma_staging_apart(directory, name);
                lemma_unpacked_frame(one, directory, entries, index + 1, path);
                lemma_unpacked_frame(two, directory, entries, index + 1, path);
            }
        }
    }
}

/// A run goes on with what the disk answers to the action at hand.
pub proof fn lemma_run_step(state: MachineState, action: ActionView, disk: Disk, payload: Payload)
    requires
        !(action is Finish),
    ensures
        run(state, action, disk, payload) == run(
            step_spec(state, respond(disk, payload, action).1).0,
            step_spec(state, respond(disk, payload, action).1).1,
            respond(disk, payload, action).0,
            payload,
        ),
{
    reveal_with_fuel(run, 1);
}

/// A run ends with the action that says so.
pub proof fn lemma_run_end(
    state: MachineState,
    outcome: Result<Materialized, MaterializeError>,
    disk: Disk,
    payload: Payload,
)
    ensures
        run(state, ActionView::Finish(outcome), disk, payload) == (disk, outcome),
{
    reveal_with_fuel(run, 1);
}

/// Once every file is in place, the marker is removed and the download is
/// complete.
pub proof fn lemma_run_finish(state: MachineState, disk: Disk, payload: Payload)
    requires
        state.phase == Phase::SentinelCheck,
    ensures
        run(state, ActionView::Probe(state.sentinel()), disk, payload) == (
            disk.without_file(state.sentinel()),
            Ok::<Materialized, MaterializeError>(Materialized::Completed),
        ),
{
    let probe = ActionView::Probe(state.sentinel());
    lemma_run_step(state, probe, disk, payload);
    let done = Ok::<Materialized, MaterializeError>(Materialized::Completed);
    if disk.holds(state.sentinel()) {
        let removing = state.at(Phase::SentinelRemove);
        let removal = ActionView::Remove(state.sentinel());
        assert(step_spec(state, EventView::Exists(true)) == (removing, removal));
        lemma_run_step(removing, removal, disk, payload);
        let gone = disk.without_file(state.sentinel());
        assert(step_spec(removing, EventView::Done) == (
            removing.at(Phase::Finished),
            ActionView::Finish(done),
        ));
        lemma_run_end(removing.at(Phase::Finished), done, gone, payload);
    } else {
        assert(step_spec(state, EventView::Exists(false)) == (
            state.at(Phase::Finished),
            ActionView::Finish(done),
        ));
        lemma_run_end(state.at(Phase::Finished), done, disk, payload);
        assert(disk.files.remove(state.sentinel()) =~= disk.files);
    }
}

/// One file of an archive, run until the next entry is at hand: the file
/// stands under its name, and nothing under the name that it was written
/// under.
pub proof fn lemma_run_file_entry(state: MachineState, disk: Disk, payload: Payload)
    requires
        state.phase == Phase::ReadingEntry,
        payload.entries is Some,
        state.index < payload.entries->0.len(),
        payload.entries->0[state.index as int].is_file,
        payload.entries->0[state.index as int].enclosed_name is Some,
    ensures
        ({
            let name = payload.entries->0[state.index as int].enclosed_name->0;
            let promoted = MachineState { entry_name: name, ..state }.at(Phase::EntryPromote);
            let next = enter_entry(promoted, state.index + 1);
            run(state, ActionView::ReadEntry(state.index), disk, payload) == run(
                next.0,
                next.1,
                Disk {
                    files: disk.files.remove(temporary_path(state.directory, name)).insert(
                        final_path(state.directory, name),
                    ),
                    ..disk
                },
                payload,
            )
        }),
{
    let entry = payload.entries->0[state.index as int];
    let name = entry.enclosed_name->0;
    let staged = temporary_path(state.directory, name);
    let placed = final_path(state.directory, name);
    lemma_staging_apart(state.directory, name);
    let named = MachineState { entry_name: name, ..state };
    let checking = named.at(Phase::EntryCheck);
    let removing = named.at(Phase::EntryRemove);
    let extracting = named.at(Phase::EntryExtract);
    let promoting = named.at(Phase::EntryPromote);
    let extract = ActionView::Extract(state.index, staged);
    let rename = ActionView::Rename(staged, placed);
    let target = Disk { files: disk.files.remove(staged).insert(placed), ..disk };

    lemma_run_step(state, ActionView::ReadEntry(state.index), disk, payload);
    assert(step_spec(state, EventView::Entry(entry)) == (checking, ActionView::Probe(placed)));
    lemma_run_step(checking, ActionView::Probe(placed), disk, payload);
    let cleared = if disk.holds(placed) {
        disk.without_file(placed)
    } else {
        disk
    };
    if disk.holds(placed) {
        assert(step_spec(checking, EventView::Exists(true)) == (
            removing,
            ActionView::Remove(placed),
        ));
        lemma_run_step(removing, ActionView::Remove(placed), disk, payload);
        assert(step_spec(removing, EventView::Done) == (extracting, extract));
    } else {
        assert(step_spec(checking, EventView::Exists(false)) == (extracting, extract));
    }
    assert(run(state, ActionView::ReadEntry(state.index), disk, payload) == run(
        extracting,
        extract,
        cleared,
        payload,
    ));
    lemma_run_step(extracting, extract, cleared, payload);
    assert(step_spec(extracting, EventView::Done) == (promoting, rename));
    let written = cleared.with_file(staged);
    lemma_run_step(promoting, rename, written, payload);
    assert(step_spec(promoting, EventView::Done) == enter_entry(promoting, state.index + 1));
    let renamed = written.without_file(staged).with_file(placed);
    assert(renamed.files =~= target.files);
    assert(renamed == target);
}

/// The entries of an archive from `index` on, run to the end: each file
/// among them is unpacked, then the archive and the marker are removed. An
/// entry whose name leads out of the directory ends the download with a
/// fault.
pub proof fn lemma_run_entries(state: MachineState, index: nat, disk: Disk, payload: Payload)
    requires
        payload.entries is Some,
        state.count == payload.entries->0.len(),
        index <= state.count,
    ensures
        ({
            let entries = payload.entries->0;
            let (first, action) = enter_entry(state, index);
            let (after, outcome) = run(first, action, disk, payload);
            &&& unpackable(entries, index) ==> {
                &&& outcome == Ok::<Materialized, MaterializeError>(Materialized::Completed)
                &&& after.directories == disk.directories
                &&& after.files == unpacked(disk.files, state.directory, entries, index).remove(
                    state.staging(),
                ).remove(state.sentinel())
            }
            &&& !unpackable(entries, index) ==> outcome == Err::<Materialized, MaterializeError>(
                MaterializeError::BadZip,
            )
        }),
    decreases state.count - index,
{
    let entries = payload.entries->0;
    let (first, action) = enter_entry(state, index);
    if index >= state.count {
        let gone = disk.without_file(state.staging());
        lemma_run_step(first, action, disk, payload);
        assert(step_spec(first, EventView::Done) == (
            first.at(Phase::SentinelCheck),
            ActionView::Probe(first.sentinel()),
        ));
        lemma_run_finish(first.at(Phase::SentinelCheck), gone, payload);
    } else {
        let entry = entries[index as int];
        let fits = entry.is_file ==> entry.enclosed_name is Some;
        assert(unpackable(entries, index) == (fits && unpackable(entries, index + 1))) by {
            if fits && unpackable(entries, index + 1) {
                assert forall|i: int|
                    index <= i < entries.len() && (
                    #[trigger] entries[i]).is_file implies entries[i].enclosed_name is Some by {
                    if i == index {
                    }
                }
            }
            if unpackable(entries, index) {
                assert(entries[index as int].is_file ==> entry.enclosed_name is Some);
            }
        }
        if !entry.is_file {
            lemma_run_step(first, action, disk, payload);
            assert(step_spec(first, EventView::Entry(entry)) == enter_entry(first, index + 1));
            lemma_run_entries(first, index + 1, disk, payload);
        } else if entry.enclosed_name is None {
            lemma_run_step(first, action, disk, payload);
            let failed = Err::<Materialized, MaterializeError>(MaterializeError::BadZip);
            assert(step_spec(first, EventView::Entry(entry)) == (
                first.at(Phase::Finished),
                ActionView::Finish(failed),
            ));
            lemma_run_end(first.at(Phase::Finished), failed, disk, payload);
        } else {
            let name = entry.enclosed_name->0;
            let promoted = MachineState { entry_name: name, ..first }.at(Phase::EntryPromote);
            let next_disk = Disk {
                files: disk.files.remove(temporary_path(state.directory, name)).insert(
                    final_path(state.directory, name),
                ),
                ..disk
            };
            lemma_run_file_entry(first, disk, payload);
            lemma_run_entries(promoted, index + 1, next_disk, payload);
        }
    }
}

/// The disk once an item's directory is there: one that was missing has
/// been created and marked as unfinished.
pub open spec fn resolved(disk: Disk, directory: PathModel) -> Disk {
    if disk.directories.contains(directory) {
        disk
    } else {
        disk.with_directory(directory).with_file(sentinel_path(directory))
    }
}

/// Whether a download arrives whole: with the length that was declared
/// and, for an archive, with entries that can all be unpacked.
pub open spec fn arrives_whole(filename: Seq<char>, declared_length: u64, payload: Payload) -> bool {
    &&& payload.delivered == Some(declared_length)
    &&& is_archive(filename) ==> payload.entries is Some && unpackable(payload.entries->0, 0)
}

/// How a download ends that is needed, on a disk on which nothing fails:
/// completed where it arrives whole; else with the fault of the transfer
/// that broke off, of the wrong length, or of the archive that cannot be
/// read or holds an entry whose name leads out of the directory.
pub open spec fn fate(filename: Seq<char>, declared_length: u64, payload: Payload) -> Result<
    Materialized,
    MaterializeError,
> {
    match payload.delivered {
        None => Err(MaterializeError::Transfer),
        Some(bytes) => if bytes != declared_length {
            Err(MaterializeError::LengthMismatch { expected: declared_length, actual: bytes })
        } else if is_archive(filename) && !(payload.entries is Some && unpackable(
            payload.entries->0,
            0,
        )) {
            Err(MaterializeError::BadZip)
        } else {
            Ok(Materialized::Completed)
        },
    }
}

/// The files that a download leaves that was needed and arrived whole: the
/// file under its name, or the files of the archive under theirs; nothing
/// under the name that the download was written under, and no marker.
pub open spec fn placed(
    files: Set<PathModel>,
    directory: PathModel,
    filename: Seq<char>,
    payload: Payload,
) -> Set<PathModel> {
    let staged = temporary_path(directory, filename);
    let marker = sentinel_path(directory);
    if is_archive(filename) {
        unpacked(files.insert(staged), directory, payload.entries->0, 0).remove(staged).remove(
            marker,
        )
    } else {
        files.remove(staged).insert(final_path(directory, filename)).remove(marker)
    }
}

/// A download whose directory is there, run from the transfer to the end.
pub proof fn lemma_run_payload(state: MachineState, disk: Disk, payload: Payload)
    ensures
        ({
            let (first, action) = enter_payload(state);
            let (after, outcome) = run(first, action, disk, payload);
            &&& arrives_whole(state.filename, state.declared_length, payload) ==> {
                &&& outcome == Ok::<Materialized, MaterializeError>(Materialized::Completed)
                &&& after.directories == disk.directories
                &&& after.files == placed(disk.files, state.directory, state.filename, payload)
            }
            &&& outcome == fate(state.filename, state.declared_length, payload)
        }),
{
    let (first, action) = enter_payload(state);
    let staged = state.staging();
    let target = state.target();
    lemma_staging_apart(state.directory, state.filename);
    lemma_run_step(first, action, disk, payload);
    let written = disk.with_file(staged);
    match payload.delivered {
        None => {
            let failed = Err::<Materialized, MaterializeError>(MaterializeError::Transfer);
            assert(step_spec(first, EventView::TransferFailed) == (
                first.at(Phase::Finished),
                ActionView::Finish(failed),
            ));
            lemma_run_end(first.at(Phase::Finished), failed, written, payload);
        },
        Some(bytes) => {
            if bytes != state.declared_length {
                let failed = Err::<Materialized, MaterializeError>(
                    MaterializeError::LengthMismatch {
                        expected: state.declared_length,
                        actual: bytes,
                    },
                );
                assert(step_spec(first, EventView::Stored(bytes)) == (
                    first.at(Phase::Finished),
                    ActionView::Finish(failed),
                ));
                lemma_run_end(first.at(Phase::Finished), failed, written, payload);
            } else if is_archive(state.filename) {
                let opening = first.at(Phase::Open);
                assert(step_spec(first, EventView::Stored(bytes)) == (
                    opening,
                    ActionView::OpenArchive(staged),
                ));
                lemma_run_step(opening, ActionView::OpenArchive(staged), written, payload);
                match payload.entries {
                    None => {
                        let failed = Err::<Materialized, MaterializeError>(
                            MaterializeError::BadZip,
                        );
                        assert(step_spec(opening, EventView::ArchiveFailed) == (
                            opening.at(Phase::Finished),
                            ActionView::Finish(failed),
                        ));
                        lemma_run_end(opening.at(Phase::Finished), failed, written, payload);
                    },
                    Some(entries) => {
                        let opened = MachineState { count: entries.len(), ..opening };
                        assert(step_spec(opening, EventView::Opened(entries.len()))
                            == enter_entry(opened, 0));
                        lemma_run_entries(opened, 0, written, payload);
                    },
                }
            } else {
                let clearing = first.at(Phase::ClearFinal);
                let rechecking = first.at(Phase::RecheckFinal);
                let promoting = first.at(Phase::Promote);
                let probe = ActionView::Probe(target);
                let rename = ActionView::Rename(staged, target);
                assert(step_spec(first, EventView::Stored(bytes)) == (clearing, probe));
                lemma_run_step(clearing, probe, written, payload);
                let cleared = if written.holds(target) {
                    written.without_file(target)
                } else {
                    written
                };
                if written.holds(target) {
                    let removing = first.at(Phase::RemoveFinal);
                    assert(step_spec(clearing, EventView::Exists(true)) == (
                        removing,
                        ActionView::Remove(target),
                    ));
                    lemma_run_step(removing, ActionView::Remove(target), written, payload);
                    assert(step_spec(removing, EventView::Done) == (rechecking, probe));
                } else {
                    assert(step_spec(clearing, EventView::Exists(false)) == (rechecking, probe));
                }
                assert(run(first, action, disk, payload) == run(
                    rechecking,
                    probe,
                    cleared,
                    payload,
                ));
                lemma_run_step(rechecking, probe, cleared, payload);
                let ready = if cleared.holds(target) {
                    cleared.without_file(target)
                } else {
                    cleared
                };
                if cleared.holds(target) {
                    let removing = first.at(Phase::RemoveFinalAgain);
                    assert(step_spec(rechecking, EventView::Exists(true)) == (
                        removing,
                        ActionView::Remove(target),
                    ));
                    lemma_run_step(removing, ActionView::Remove(target), cleared, payload);
                    assert(step_spec(removing, EventView::Done) == (promoting, rename));
                } else {
                    assert(step_spec(rechecking, EventView::Exists(false)) == (promoting, rename));
                }
                assert(run(first, action, disk, payload) == run(
                    promoting,
                    rename,
                    ready,
                    payload,
                ));
                lemma_run_step(promoting, rename, ready, payload);
                let renamed = ready.without_file(staged).with_file(target);
                assert(step_spec(promoting, EventView::Done) == enter_finish(promoting));
                lemma_run_finish(promoting.at(Phase::SentinelCheck), renamed, payload);
                assert(renamed.without_file(state.sentinel()).files =~= placed(
                    disk.files,
                    state.directory,
                    state.filename,
                    payload,
                ));
            }
        },
    }
}

/// A download that is needed, run from the making of its directory to the
/// end.
pub proof fn lemma_run_resolve(state: MachineState, disk: Disk, payload: Payload)
    requires
        state.directory_exists == disk.directories.contains(state.directory),
    ensures
        ({
            let (first, action) = enter_resolve(state);
            let (after, outcome) = run(first, action, disk, payload);
            &&& arrives_whole(state.filename, state.declared_length, payload) ==> {
                &&& outcome == Ok::<Materialized, MaterializeError>(Materialized::Completed)
                &&& after.directories == disk.directories.insert(state.directory)
                &&& after.files == placed(
                    resolved(disk, state.directory).files,
                    state.directory,
                    state.filename,
                    payload,
                )
            }
            &&& outcome == fate(state.filename, state.declared_length, payload)
        }),
{
    let (first, action) = enter_resolve(state);
    if state.directory_exists {
        lemma_run_payload(state, disk, payload);
        assert(disk.directories.insert(state.directory) =~= disk.directories);
    } else {
        lemma_run_step(first, action, disk, payload);
        let marking = first.at(Phase::MakeSentinel);
        let mark = ActionView::CreateFile(state.sentinel());
        assert(step_spec(first, EventView::Done) == (marking, mark));
        let made = disk.with_directory(state.directory);
        lemma_run_step(marking, mark, made, payload);
        assert(step_spec(marking, EventView::Done) == enter_payload(marking));
        lemma_run_payload(marking, made.with_file(state.sentinel()), payload);
    }
}

/// A download that the tracker does not count as done, whatever its name:
/// where it arrives whole it is completed, the directory is there, and the
/// files are in place; where it does not, it ends with the fault of what
/// went wrong.
pub proof fn lemma_needed_download(
    root: Seq<char>,
    item: CollectionItemView,
    filename: Seq<char>,
    declared_length: u64,
    disk: Disk,
    payload: Payload,
)
    requires
        !counts_as_complete(root, item, filename, disk),
    ensures
        ({
            let directory = item_directory(root, item);
            let (after, outcome) = materialize(root, item, filename, declared_length, disk, payload);
            &&& arrives_whole(filename, declared_length, payload) ==> {
                &&& outcome == Ok::<Materialized, MaterializeError>(Materialized::Completed)
                &&& after.directories == disk.directories.insert(directory)
                &&& after.files == placed(
                    resolved(disk, directory).files,
                    directory,
                    filename,
                    payload,
                )
            }
            &&& outcome == fate(filename, declared_length, payload)
        }),
{
    let directory = item_directory(root, item);
    let start = initial_state(root, item, filename, declared_length);
    let found = disk.inspect(directory);
    let seen = MachineState { directory_exists: found.exists, ..start };
    lemma_run_step(start, ActionView::Inspect(directory), disk, payload);
    match item.itype {
        CollectionItemKind::Album => {
            assert(step_spec(start, EventView::Directory(found)) == enter_resolve(seen));
            lemma_run_resolve(seen, disk, payload);
        },
        CollectionItemKind::Track => {
            let gate = seen.at(Phase::GateFile);
            let probe = ActionView::Probe(seen.target());
            assert(step_spec(start, EventView::Directory(found)) == (gate, probe));
            lemma_run_step(gate, probe, disk, payload);
            assert(step_spec(gate, EventView::Exists(false)) == enter_resolve(gate));
            lemma_run_resolve(gate, disk, payload);
        },
    }
}

/// Unpacking an archive over what an earlier unpacking of it left changes
/// nothing.
pub proof fn lemma_placed_again(
    files: Set<PathModel>,
    directory: PathModel,
    filename: Seq<char>,
    payload: Payload,
)
    ensures
        placed(placed(files, directory, filename, payload), directory, filename, payload) == placed(
            files,
            directory,
            filename,
            payload,
        ),
{
    let once = placed(files, directory, filename, payload);
    let twice = placed(once, directory, filename, payload);
    let staged = temporary_path(directory, filename);
    let marker = sentinel_path(directory);
    lemma_staging_apart(directory, filename);
    if is_archive(filename) {
        let entries = payload.entries->0;
        assert forall|path: PathModel| twice.contains(path) == once.contains(path) by {
            if path != staged && path != marker {
                if touched(directory, entries, 0, path) {
                    lemma_unpacked_determined(
                        once.insert(staged),
                        files.insert(staged),
                        directory,
                        entries,
                        0,
                        path,
                    );
                } else {
                    lemma_unpacked_frame(once.insert(staged), directory, entries, 0, path);
                }
            }
        }
        assert(twice =~= once);
    } else {
        assert(twice =~= once);
    }
}

/// A download that ended without a fault, made again on the disk that it
/// left: it ends without a fault again, and the same files and directories
/// are there afterwards.
pub proof fn lemma_second_run_changes_nothing(
    root: Seq<char>,
    item: CollectionItemView,
    filename: Seq<char>,
    declared_length: u64,
    disk: Disk,
    payload: Payload,
)
    requires
        materialize(root, item, filename, declared_length, disk, payload).1 is Ok,
    ensures
        ({
            let (once, _) = materialize(root, item, filename, declared_length, disk, payload);
            let (twice, outcome) = materialize(root, item, filename, declared_length, once, payload);
            &&& outcome is Ok
            &&& twice.files == once.files
            &&& twice.directories == once.directories
        }),
{
    let directory = item_directory(root, item);
    let (once, _) = materialize(root, item, filename, declared_length, disk, payload);
    if counts_as_complete(root, item, filename, disk) {
        lemma_complete_is_skipped(root, item, filename, declared_length, disk, payload);
        lemma_complete_is_skipped(root, item, filename, declared_length, once, payload);
    } else {
        lemma_needed_download(root, item, filename, declared_length, disk, payload);
        if counts_as_complete(root, item, filename, once) {
            lemma_complete_is_skipped(root, item, filename, declared_length, once, payload);
        } else {
            lemma_needed_download(root, item, filename, declared_length, once, payload);
            lemma_placed_again(resolved(disk, directory).files, directory, filename, payload);
            assert(once.directories.insert(directory) =~= once.directories);
        }
    }
}

/// A single file that was downloaded without a fault, and that does not
/// bear the name of the marker, counts as downloaded from then on: the
/// download made again writes nothing and ends as skipped.
pub proof fn lemma_completed_file_is_skipped(
    root: Seq<char>,
    item: CollectionItemView,
    filename: Seq<char>,
    declared_length: u64,
    disk: Disk,
    payload: Payload,
)
    requires
        materialize(root, item, filename, declared_length, disk, payload).1 is Ok,
        !is_archive(filename),
        filename != SENTINEL_NAME@,
    ensures
        ({
            let (once, _) = materialize(root, item, filename, declared_length, disk, payload);
            &&& counts_as_complete(root, item, filename, once)
            &&& materialize(root, item, filename, declared_length, once, payload) == (
                once,
                Ok::<Materialized, MaterializeError>(Materialized::Skipped),
            )
        }),
{
    let directory = item_directory(root, item);
    let (once, _) = materialize(root, item, filename, declared_length, disk, payload);
    let target = final_path(directory, filename);
    lemma_staging_apart(directory, filename);
    if counts_as_complete(root, item, filename, disk) {
        lemma_complete_is_skipped(root, item, filename, declared_length, disk, payload);
    } else {
        lemma_needed_download(root, item, filename, declared_length, disk, payload);
        assert(once.files.contains(target));
        assert(once.holds(target) && Disk::lies_in(target, directory)) by {
            assert(target.drop_last() =~= directory);
        }
        assert(once.directories.contains(directory));
    }
    lemma_complete_is_skipped(root, item, filename, declared_length, once, payload);
}

/// A download that was completed leaves its directory in place and
/// without the marker: an album counts as downloaded from then on as soon as
/// anything is in its directory.
pub proof fn lemma_completed_is_unmarked(
    root: Seq<char>,
    item: CollectionItemView,
    filename: Seq<char>,
    declared_length: u64,
    disk: Disk,
    payload: Payload,
)
    requires
        materialize(root, item, filename, declared_length, disk, payload).1 == Ok::<
            Materialized,
            MaterializeError,
        >(Materialized::Completed),
    ensures
        ({
            let directory = item_directory(root, item);
            let (once, _) = materialize(root, item, filename, declared_length, disk, payload);
            &&& once.directories.contains(directory)
            &&& !once.files.contains(sentinel_path(directory))
            &&& item.itype == CollectionItemKind::Album ==> counts_as_complete(
                root,
                item,
                filename,
                once,
            ) == once.has_entries(directory)
        }),
{
    if counts_as_complete(root, item, filename, disk) {
        lemma_complete_is_skipped(root, item, filename, declared_length, disk, payload);
    } else {
        lemma_needed_download(root, item, filename, declared_length, disk, payload);
    }
}

/// An archive that cannot be read ends the download with the fault of the
/// archive, whatever its name, and the marker is in place wherever the
/// directory was made for this download; where the directory was there, the
/// marker is as it was.
pub proof fn lemma_unreadable_archive(
    root: Seq<char>,
    item: CollectionItemView,
    filename: Seq<char>,
    declared_length: u64,
    disk: Disk,
    payload: Payload,
)
    requires
        is_archive(filename),
        payload.delivered == Some(declared_length),
        payload.entries is None,
        !counts_as_complete(root, item, filename, disk),
    ensures
        ({
            let directory = item_directory(root, item);
            let marker = sentinel_path(directory);
            let (after, outcome) = materialize(root, item, filename, declared_length, disk, payload);
            &&& outcome == Err::<Materialized, MaterializeError>(MaterializeError::BadZip)
            &&& !disk.directories.contains(directory) ==> after.files.contains(marker)
            &&& disk.directories.contains(directory) ==> after.files.contains(marker)
                == disk.files.contains(marker)
        }),
{
    let directory = item_directory(root, item);
    lemma_staging_apart(directory, filename);
    reveal_with_fuel(run, 7);
}

} // verus!
