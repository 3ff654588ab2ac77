//! Downloads on a disk on which any operation may fail. Whatever fails, and
//! whenever: a download that ends with a fault leaves the marker of its
//! directory in place, and a file that stood under the final name of a
//! single-file download is gone only once the new file has been written
//! whole. Both are proved of downloads that use none of the names that the
//! library uses for its own files.

use crate::disk::{
    lemma_names_apart, lemma_staging_apart, respond, stage, steps_left, Disk, Payload,
};
use crate::file_manager::{
    final_path, is_reserved, item_directory, sentinel_path, temporary_path,
};
use crate::materializer::{
    begin_spec, is_archive, step_spec, ActionView, EventView, MachineState, MaterializeError,
    Materialized, Phase,
};
use crate::types::CollectionItemView;
use vstd::prelude::*;

verus! {

/// How an operation that fails is reported, and what it leaves: a transfer
/// or an entry that could not be written whole leaves what it had written,
/// any other operation leaves the disk as it was.
pub open spec fn fail(disk: Disk, action: ActionView) -> (Disk, EventView) {
    match action {
        ActionView::Download(path) => (disk.with_file(path), EventView::TransferFailed),
        ActionView::Extract(_, path) => (disk.with_file(path), EventView::IoFailed),
        ActionView::OpenArchive(_) => (disk, EventView::ArchiveFailed),
        ActionView::ReadEntry(_) => (disk, EventView::ArchiveFailed),
        _ => (disk, EventView::IoFailed),
    }
}

/// Runs a download to its end on a disk on which the operations at the
/// given places of the run fail: the disk afterwards, and how the download
/// ended.
#[verifier::opaque]
pub open spec fn run_with_faults(
    state: MachineState,
    action: ActionView,
    disk: Disk,
    payload: Payload,
    failing: Set<nat>,
    place: nat,
) -> (Disk, Result<Materialized, MaterializeError>)
    decreases steps_left(state, action).0, steps_left(state, action).1,
{
    match action {
        ActionView::Finish(outcome) => (disk, outcome),
        _ => {
            let (after, event) = if failing.contains(place) {
                fail(disk, action)
            } else {
                respond(disk, payload, action)
            };
            let (next, then) = step_spec(state, event);
            run_with_faults(next, then, after, payload, failing, place + 1)
        },
    }
}

/// What a download asks for when it enters a phase.
pub open spec fn pending(state: MachineState) -> ActionView {
    match state.phase {
        Phase::Gate => ActionView::Inspect(state.directory),
        Phase::GateFile => ActionView::Probe(state.target()),
        Phase::MakeDirectory => ActionView::CreateDirectory(state.directory),
        Phase::MakeSentinel => ActionView::CreateFile(state.sentinel()),
        Phase::ClearFinal => ActionView::Probe(state.target()),
        Phase::RemoveFinal => ActionView::Remove(state.target()),
        Phase::Fetch => ActionView::Download(state.staging()),
        Phase::RecheckFinal => ActionView::Probe(state.target()),
        Phase::RemoveFinalAgain => ActionView::Remove(state.target()),
        Phase::Promote => ActionView::Rename(state.staging(), state.target()),
        Phase::Open => ActionView::OpenArchive(state.staging()),
        Phase::ReadingEntry => ActionView::ReadEntry(state.index),
        Phase::EntryCheck => ActionView::Probe(state.entry_target()),
        Phase::EntryRemove => ActionView::Remove(state.entry_target()),
        Phase::EntryExtract => ActionView::Extract(state.index, state.entry_staging()),
        Phase::EntryPromote => ActionView::Rename(state.entry_staging(), state.entry_target()),
        Phase::Discard => ActionView::Remove(state.staging()),
        Phase::SentinelCheck => ActionView::Probe(state.sentinel()),
        Phase::SentinelRemove => ActionView::Remove(state.sentinel()),
        Phase::Finished => ActionView::Finish(Err(MaterializeError::UnexpectedEvent)),
    }
}

/// Each phase has its action: what is asked for after an event is the end of
/// the download, or the action of the phase that was entered.
pub proof fn lemma_action_of_phase(state: MachineState, event: EventView)
    ensures
        ({
            let (next, action) = step_spec(state, event);
            if action is Finish {
                next.phase == Phase::Finished
            } else {
                action == pending(next)
            }
        }),
{
}

/// Whether no file of a download bears a reserved name: neither the
/// download itself nor an entry of its archive.
pub open spec fn spares_reserved(filename: Seq<char>, payload: Payload) -> bool {
    &&& !is_reserved(filename)
    &&& payload.entries matches Some(entries) ==> forall|i: int|
        0 <= i < entries.len() && (#[trigger] entries[i]).enclosed_name is Some ==> !is_reserved(
            entries[i].enclosed_name->0,
        )
}

/// Whether a download is under way in a directory that is there: its name
/// is not reserved, and neither is that of the entry at hand.
pub open spec fn under_way(state: MachineState) -> bool {
    &&& stage(state.phase) <= stage(Phase::Fetch)
    &&& state.phase != Phase::Finished
    &&& !is_reserved(state.filename)
    &&& (state.phase == Phase::EntryCheck || state.phase == Phase::EntryRemove || state.phase
        == Phase::EntryExtract || state.phase == Phase::EntryPromote) ==> !is_reserved(
        state.entry_name,
    )
}

/// From the moment that the directory is there and marked, whatever fails:
/// a download that ends with a fault leaves the marker in place.
pub proof fn lemma_marked_stays_marked(
    state: MachineState,
    disk: Disk,
    payload: Payload,
    failing: Set<nat>,
    place: nat,
)
    requires
        under_way(state),
        spares_reserved(state.filename, payload),
        disk.files.contains(state.sentinel()),
    ensures
        ({
            let (after, outcome) = run_with_faults(
                state,
                pending(state),
                disk,
                payload,
                failing,
                place,
            );
            outcome is Err ==> after.files.contains(state.sentinel())
        }),
    decreases steps_left(state, pending(state)).0, steps_left(state, pending(state)).1,
{
    reveal_with_fuel(run_with_faults, 2);
    let action = pending(state);
    let (after, event) = if failing.contains(place) {
        fail(disk, action)
    } else {
        respond(disk, payload, action)
    };
    let (next, then) = step_spec(state, event);
    lemma_action_of_phase(state, event);
    lemma_staging_apart(state.directory, state.filename);
    lemma_staging_apart(state.directory, state.entry_name);
    lemma_names_apart(state.directory, state.filename, state.filename);
    if !is_reserved(state.entry_name) {
        lemma_names_apart(state.directory, state.entry_name, state.entry_name);
    }
    assert(next.sentinel() == state.sentinel());
    if then is Finish {
    } else {
        assert(after.files.contains(state.sentinel()));
        assert(under_way(next)) by {
            if next.phase == Phase::EntryCheck && state.phase == Phase::ReadingEntry {
                let entries = payload.entries->0;
                assert(event == EventView::Entry(entries[state.index as int]));
                assert(entries[state.index as int].enclosed_name is Some);
            }
        }
        lemma_marked_stays_marked(next, after, payload, failing, place + 1);
    }
}

/// A download from its beginning to its end on a disk on which the
/// operations at the given places fail.
pub open spec fn materialize_with_faults(
    root: Seq<char>,
    item: CollectionItemView,
    filename: Seq<char>,
    declared_length: u64,
    disk: Disk,
    payload: Payload,
    failing: Set<nat>,
) -> (Disk, Result<Materialized, MaterializeError>) {
    let (start, first) = begin_spec(root, item, filename, declared_length);
    run_with_faults(start, first, disk, payload, failing, 0)
}

/// Whatever fails, and whenever: a download that uses no reserved name and
/// ends with a fault leaves the marker in place, wherever the directory was
/// marked before or is made for this download. Where the directory could
/// not be made or marked, no file has been touched.
pub proof fn lemma_fault_keeps_marker(
    root: Seq<char>,
    item: CollectionItemView,
    filename: Seq<char>,
    declared_length: u64,
    disk: Disk,
    payload: Payload,
    failing: Set<nat>,
)
    requires
        spares_reserved(filename, payload),
        disk.files.contains(sentinel_path(item_directory(root, item)))
            || !disk.directories.contains(item_directory(root, item)),
    ensures
        ({
            let (after, outcome) = materialize_with_faults(
                root,
                item,
                filename,
                declared_length,
                disk,
                payload,
                failing,
            );
            outcome is Err ==> after.files.contains(sentinel_path(item_directory(root, item)))
                || after.files == disk.files
        }),
{
    let (start, first) = begin_spec(root, item, filename, declared_length);
    lemma_gate_keeps_marker(start, disk, disk, payload, failing, 0);
}

/// The same, from any phase before the directory is there and marked.
proof fn lemma_gate_keeps_marker(
    state: MachineState,
    disk: Disk,
    before: Disk,
    payload: Payload,
    failing: Set<nat>,
    place: nat,
)
    requires
        stage(state.phase) > stage(Phase::Fetch),
        spares_reserved(state.filename, payload),
        disk.files == before.files,
        before.files.contains(state.sentinel()) || !before.directories.contains(state.directory),
        state.phase == Phase::Gate ==> disk == before,
        state.phase == Phase::GateFile ==> disk == before && state.directory_exists
            == before.directories.contains(state.directory),
        state.phase == Phase::MakeDirectory || state.phase == Phase::MakeSentinel
            ==> !before.directories.contains(state.directory),
    ensures
        ({
            let (after, outcome) = run_with_faults(
                state,
                pending(state),
                disk,
                payload,
                failing,
                place,
            );
            outcome is Err ==> after.files.contains(state.sentinel()) || after.files
                == before.files
        }),
    decreases stage(state.phase),
{
    reveal_with_fuel(run_with_faults, 2);
    let action = pending(state);
    let (after, event) = if failing.contains(place) {
        fail(disk, action)
    } else {
        respond(disk, payload, action)
    };
    let (next, then) = step_spec(state, event);
    lemma_action_of_phase(state, event);
    lemma_staging_apart(state.directory, state.filename);
    assert(next.sentinel() == state.sentinel());
    if then is Finish {
    } else if stage(next.phase) > stage(Phase::Fetch) {
        lemma_gate_keeps_marker(next, after, before, payload, failing, place + 1);
    } else {
        assert(after.files.contains(state.sentinel()));
        lemma_marked_stays_marked(next, after, payload, failing, place + 1);
    }
}

/// Whether a single-file download has been written whole and waits to take
/// its place.
pub open spec fn awaits_place(phase: Phase) -> bool {
    phase == Phase::ClearFinal || phase == Phase::RemoveFinal || phase == Phase::RecheckFinal
        || phase == Phase::RemoveFinalAgain || phase == Phase::Promote
}

/// Whether a single-file download has taken its place.
pub open spec fn in_place(phase: Phase) -> bool {
    phase == Phase::SentinelCheck || phase == Phase::SentinelRemove
}

/// Once a single-file download has been written whole, whatever fails: the
/// whole file is there afterwards, under its final name or under its
/// temporary name.
pub proof fn lemma_whole_stays_whole(
    state: MachineState,
    disk: Disk,
    payload: Payload,
    failing: Set<nat>,
    place: nat,
)
    requires
        !is_archive(state.filename),
        !is_reserved(state.filename),
        awaits_place(state.phase) || in_place(state.phase),
        awaits_place(state.phase) ==> disk.files.contains(state.staging()),
        in_place(state.phase) ==> disk.files.contains(state.target()),
    ensures
        ({
            let (after, _) = run_with_faults(state, pending(state), disk, payload, failing, place);
            after.files.contains(state.target()) || after.files.contains(state.staging())
        }),
    decreases steps_left(state, pending(state)).0, steps_left(state, pending(state)).1,
{
    reveal_with_fuel(run_with_faults, 2);
    let action = pending(state);
    let (after, event) = if failing.contains(place) {
        fail(disk, action)
    } else {
        respond(disk, payload, action)
    };
    let (next, then) = step_spec(state, event);
    lemma_action_of_phase(state, event);
    lemma_staging_apart(state.directory, state.filename);
    lemma_names_apart(state.directory, state.filename, state.filename);
    assert(next.target() == state.target() && next.staging() == state.staging());
    if then is Finish {
    } else {
        lemma_whole_stays_whole(next, after, payload, failing, place + 1);
    }
}

/// Until a single-file download has been written whole, whatever fails:
/// what stood under its final name is not touched.
proof fn lemma_untouched_until_whole(
    state: MachineState,
    disk: Disk,
    before: Disk,
    payload: Payload,
    failing: Set<nat>,
    place: nat,
)
    requires
        !is_archive(state.filename),
        !is_reserved(state.filename),
        stage(state.phase) >= stage(Phase::Fetch),
        disk.files.contains(state.target()) == before.files.contains(state.target()),
    ensures
        ({
            let (after, _) = run_with_faults(state, pending(state), disk, payload, failing, place);
            ||| after.files.contains(state.target()) == before.files.contains(state.target())
            ||| payload.delivered == Some(state.declared_length) && (after.files.contains(
                state.target(),
            ) || after.files.contains(state.staging()))
        }),
    decreases stage(state.phase),
{
    reveal_with_fuel(run_with_faults, 2);
    let action = pending(state);
    let (after, event) = if failing.contains(place) {
        fail(disk, action)
    } else {
        respond(disk, payload, action)
    };
    let (next, then) = step_spec(state, event);
    lemma_action_of_phase(state, event);
    lemma_staging_apart(state.directory, state.filename);
    lemma_names_apart(state.directory, state.filename, state.filename);
    assert(next.target() == state.target() && next.staging() == state.staging());
    if then is Finish {
    } else if stage(next.phase) >= stage(Phase::Fetch) {
        lemma_untouched_until_whole(next, after, before, payload, failing, place + 1);
    } else {
        lemma_whole_stays_whole(next, after, payload, failing, place + 1);
    }
}

/// Whatever fails, and whenever: after a single-file download that does not
/// bear a reserved name, what stood under the final name still stands
/// there, or the new file has arrived
/// whole and is there, under the final name or, where the renaming did not
/// come about, under its temporary name.
pub proof fn lemma_fault_leaves_old_or_whole(
    root: Seq<char>,
    item: CollectionItemView,
    filename: Seq<char>,
    declared_length: u64,
    disk: Disk,
    payload: Payload,
    failing: Set<nat>,
)
    requires
        !is_archive(filename),
        !is_reserved(filename),
    ensures
        ({
            let directory = item_directory(root, item);
            let target = final_path(directory, filename);
            let (after, _) = materialize_with_faults(
                root,
                item,
                filename,
                declared_length,
                disk,
                payload,
                failing,
            );
            ||| after.files.contains(target) == disk.files.contains(target)
            ||| payload.delivered == Some(declared_length) && (after.files.contains(target)
                || after.files.contains(temporary_path(directory, filename)))
        }),
{
    let (start, first) = begin_spec(root, item, filename, declared_length);
    lemma_untouched_until_whole(start, disk, disk, payload, failing, 0);
}

} // verus!
