//! Turns one download into files on disk, step by step: the library
//! decides what is done next, the caller does it and reports how it went.
//!
//! A file is written under a temporary name and renamed when it is whole, so
//! that no half-written file is ever seen under its final name. A file that
//! stands in the way is removed only once the new one is whole, just before
//! the renaming: a download that fails leaves what was there. The marker of
//! an unfinished directory is removed last, and only after success.

use crate::file_manager::{
    child_path, copy_path, directory_complete, final_path, is_directory_complete,
    item_directory, sentinel_path, temporary_name, temporary_path, DirectoryState, FileManager,
    PathModel, SENTINEL_NAME,
};
use crate::text::{ends_with, has_suffix};
use crate::types::{CollectionItem, CollectionItemKind, CollectionItemView};
use vstd::prelude::*;
use vstd::string::StringExecFns;

verus! {

/// What marks the name of a download as that of an archive.
pub const ARCHIVE_EXTENSION: &'static str = ".zip";

/// How a download ended that did not fail.
#[derive(Clone, Copy, Debug, PartialEq, Eq, Structural)]
pub enum Materialized {
    /// The file was there already: nothing was written.
    Skipped,
    /// Every file is in place and the directory is no longer marked.
    Completed,
}

/// Why a download failed. In each case the directory stays marked as
/// unfinished.
#[derive(Clone, Copy, Debug, PartialEq, Eq, Structural)]
pub enum MaterializeError {
    /// The archive or one of its entries could not be read, or an entry's
    /// name leads out of the directory.
    BadZip,
    /// An operation on the disk failed.
    BadIO,
    /// The transfer broke off.
    Transfer,
    /// The transfer ended with another number of bytes than was declared.
    LengthMismatch { expected: u64, actual: u64 },
    /// The caller reported something that was not asked for.
    UnexpectedEvent,
}

/// What the caller found at one entry of an archive.
#[derive(Debug, PartialEq, Eq)]
pub struct ArchiveEntry {
    /// The entry is a file, not a directory.
    pub is_file: bool,
    /// The entry's name, where it stays inside the directory that the
    /// archive is unpacked into.
    pub enclosed_name: Option<String>,
}

/// The mathematical value of an archive entry.
pub struct ArchiveEntryView {
    pub is_file: bool,
    pub enclosed_name: Option<Seq<char>>,
}

impl View for ArchiveEntry {
    type V = ArchiveEntryView;

    open spec fn view(&self) -> ArchiveEntryView {
        ArchiveEntryView {
            is_file: self.is_file,
            enclosed_name: match self.enclosed_name {
                Some(name) => Some(name@),
                None => None,
            },
        }
    }
}

/// What the caller is asked to do next.
#[derive(Debug, PartialEq, Eq)]
pub enum Action {
    /// Look at a directory; answered by `Event::Directory`.
    Inspect(Vec<String>),
    /// See whether a path exists; answered by `Event::Exists`.
    Probe(Vec<String>),
    /// Create a directory and those above it; answered by `Event::Done`.
    CreateDirectory(Vec<String>),
    /// Create an empty file; answered by `Event::Done`.
    CreateFile(Vec<String>),
    /// Write the whole download to a file; answered by `Event::Stored` with
    /// the number of bytes written.
    Download(Vec<String>),
    /// Open a file as an archive; answered by `Event::Opened` with the
    /// number of its entries.
    OpenArchive(Vec<String>),
    /// Look at one entry of the open archive; answered by `Event::Entry`.
    ReadEntry(usize),
    /// Write one entry of the open archive to a file; answered by
    /// `Event::Done`.
    Extract(usize, Vec<String>),
    /// Remove a file; answered by `Event::Done`.
    Remove(Vec<String>),
    /// Rename a file; answered by `Event::Done`.
    Rename(Vec<String>, Vec<String>),
    /// Nothing is left to do.
    Finish(Result<Materialized, MaterializeError>),
}

/// The mathematical value of an action.
pub enum ActionView {
    Inspect(PathModel),
    Probe(PathModel),
    CreateDirectory(PathModel),
    CreateFile(PathModel),
    Download(PathModel),
    OpenArchive(PathModel),
    ReadEntry(nat),
    Extract(nat, PathModel),
    Remove(PathModel),
    Rename(PathModel, PathModel),
    Finish(Result<Materialized, MaterializeError>),
}

impl View for Action {
    type V = ActionView;

    open spec fn view(&self) -> ActionView {
        match self {
            Action::Inspect(path) => ActionView::Inspect(path.deep_view()),
            Action::Probe(path) => ActionView::Probe(path.deep_view()),
            Action::CreateDirectory(path) => ActionView::CreateDirectory(path.deep_view()),
            Action::CreateFile(path) => ActionView::CreateFile(path.deep_view()),
            Action::Download(path) => ActionView::Download(path.deep_view()),
            Action::OpenArchive(path) => ActionView::OpenArchive(path.deep_view()),
            Action::ReadEntry(index) => ActionView::ReadEntry(*index as nat),
            Action::Extract(index, path) => ActionView::Extract(*index as nat, path.deep_view()),
            Action::Remove(path) => ActionView::Remove(path.deep_view()),
            Action::Rename(from, to) => ActionView::Rename(from.deep_view(), to.deep_view()),
            Action::Finish(outcome) => ActionView::Finish(*outcome),
        }
    }
}

/// How what was asked for went.
#[derive(Debug, PartialEq, Eq)]
pub enum Event {
    /// What was found at a directory.
    Directory(DirectoryState),
    /// Whether a path exists.
    Exists(bool),
    /// The operation succeeded.
    Done,
    /// The download was written, in so many bytes.
    Stored(u64),
    /// The archive is open and has so many entries.
    Opened(usize),
    /// What an entry of the archive is.
    Entry(ArchiveEntry),
    /// An operation on the disk failed.
    IoFailed,
    /// The archive could not be read.
    ArchiveFailed,
    /// The transfer broke off.
    TransferFailed,
}

/// The mathematical value of an event.
pub enum EventView {
    Directory(DirectoryState),
    Exists(bool),
    Done,
    Stored(u64),
    Opened(nat),
    Entry(ArchiveEntryView),
    IoFailed,
    ArchiveFailed,
    TransferFailed,
}

impl View for Event {
    type V = EventView;

    open spec fn view(&self) -> EventView {
        match self {
            Event::Directory(found) => EventView::Directory(*found),
            Event::Exists(there) => EventView::Exists(*there),
            Event::Done => EventView::Done,
            Event::Stored(bytes) => EventView::Stored(*bytes),
            Event::Opened(count) => EventView::Opened(*count as nat),
            Event::Entry(entry) => EventView::Entry(entry@),
            Event::IoFailed => EventView::IoFailed,
            Event::ArchiveFailed => EventView::ArchiveFailed,
            Event::TransferFailed => EventView::TransferFailed,
        }
    }
}

/// What the machine is waiting for.
#[derive(Clone, Copy, Debug, PartialEq, Eq, Structural)]
pub enum Phase {
    /// What is at the item's directory.
    Gate,
    /// Whether a track's file is there already.
    GateFile,
    /// The directory to be created.
    MakeDirectory,
    /// The marker to be written.
    MakeSentinel,
    /// The transfer.
    Fetch,
    /// Whether a file stands in the way, once the download is whole.
    ClearFinal,
    /// That file to be removed.
    RemoveFinal,
    /// Whether a file stands in the way, just before the renaming.
    RecheckFinal,
    /// That file to be removed.
    RemoveFinalAgain,
    /// The file to take its place.
    Promote,
    /// The archive to be opened.
    Open,
    /// What the entry at hand is.
    ReadingEntry,
    /// Whether a file stands in the entry's way.
    EntryCheck,
    /// That file to be removed.
    EntryRemove,
    /// The entry to be written.
    EntryExtract,
    /// The entry to take its place.
    EntryPromote,
    /// The archive to be removed.
    Discard,
    /// Whether the directory is marked.
    SentinelCheck,
    /// The marker to be removed.
    SentinelRemove,
    /// Nothing.
    Finished,
}

/// The state of one download, as a mathematical value.
pub struct MachineState {
    pub phase: Phase,
    pub kind: CollectionItemKind,
    /// The item's directory.
    pub directory: PathModel,
    /// The name that the download declares.
    pub filename: Seq<char>,
    /// The length that the download declares.
    pub declared_length: u64,
    /// Whether the directory was there when the download began.
    pub directory_exists: bool,
    /// How many entries the archive has.
    pub count: nat,
    /// The entry at hand.
    pub index: nat,
    /// The name of the entry at hand.
    pub entry_name: Seq<char>,
}

/// Whether a download is an archive to be unpacked.
pub open spec fn is_archive(filename: Seq<char>) -> bool {
    has_suffix(filename, ARCHIVE_EXTENSION@)
}

impl MachineState {
    /// The same download in another phase.
    pub open spec fn at(self, phase: Phase) -> MachineState {
        MachineState { phase, ..self }
    }

    /// Where the download ends up.
    pub open spec fn target(self) -> PathModel {
        final_path(self.directory, self.filename)
    }

    /// Where the download is written.
    pub open spec fn staging(self) -> PathModel {
        temporary_path(self.directory, self.filename)
    }

    /// The file that marks the directory as unfinished.
    pub open spec fn sentinel(self) -> PathModel {
        sentinel_path(self.directory)
    }

    /// Where the entry at hand ends up.
    pub open spec fn entry_target(self) -> PathModel {
        final_path(self.directory, self.entry_name)
    }

    /// Where the entry at hand is written.
    pub open spec fn entry_staging(self) -> PathModel {
        temporary_path(self.directory, self.entry_name)
    }
}

/// The state in which a download begins.
pub open spec fn initial_state(
    root: Seq<char>,
    item: CollectionItemView,
    filename: Seq<char>,
    declared_length: u64,
) -> MachineState {
    MachineState {
        phase: Phase::Gate,
        kind: item.itype,
        directory: item_directory(root, item),
        filename,
        declared_length,
        directory_exists: false,
        count: 0,
        index: 0,
        entry_name: Seq::empty(),
    }
}

/// The end of a download.
pub open spec fn finish(state: MachineState, outcome: Result<Materialized, MaterializeError>) -> (
    MachineState,
    ActionView,
) {
    (state.at(Phase::Finished), ActionView::Finish(outcome))
}

/// The first thing that a download asks for, whatever its name: to look at
/// the item's directory.
pub open spec fn begin_spec(
    root: Seq<char>,
    item: CollectionItemView,
    filename: Seq<char>,
    declared_length: u64,
) -> (MachineState, ActionView) {
    (
        initial_state(root, item, filename, declared_length),
        ActionView::Inspect(item_directory(root, item)),
    )
}

/// The directory is there: the download is written under its temporary
/// name.
pub open spec fn enter_payload(state: MachineState) -> (MachineState, ActionView) {
    (state.at(Phase::Fetch), ActionView::Download(state.staging()))
}

/// The download is needed: a directory that is not there is created and
/// marked, one that is there is left as it is.
pub open spec fn enter_resolve(state: MachineState) -> (MachineState, ActionView) {
    if state.directory_exists {
        enter_payload(state)
    } else {
        (state.at(Phase::MakeDirectory), ActionView::CreateDirectory(state.directory))
    }
}

/// Goes on with the entry at `index`: where there is none, the archive has
/// been unpacked and is removed.
pub open spec fn enter_entry(state: MachineState, index: nat) -> (MachineState, ActionView) {
    let next = MachineState { index, ..state };
    if index < state.count {
        (next.at(Phase::ReadingEntry), ActionView::ReadEntry(index))
    } else {
        (next.at(Phase::Discard), ActionView::Remove(state.staging()))
    }
}

/// Every file is in place: the marker goes, if it is there.
pub open spec fn enter_finish(state: MachineState) -> (MachineState, ActionView) {
    (state.at(Phase::SentinelCheck), ActionView::Probe(state.sentinel()))
}

/// The fault that an event reports.
pub open spec fn fault_of(event: EventView) -> Option<MaterializeError> {
    match event {
        EventView::IoFailed => Some(MaterializeError::BadIO),
        EventView::ArchiveFailed => Some(MaterializeError::BadZip),
        EventView::TransferFailed => Some(MaterializeError::Transfer),
        _ => None,
    }
}

/// What follows an event: the next state and the next action.
pub open spec fn step_spec(state: MachineState, event: EventView) -> (MachineState, ActionView) {
    if state.phase == Phase::Finished {
        finish(state, Err(MaterializeError::UnexpectedEvent))
    } else if fault_of(event) is Some {
        finish(state, Err(fault_of(event)->0))
    } else {
        match (state.phase, event) {
            (Phase::Gate, EventView::Directory(found)) => {
                let seen = MachineState { directory_exists: found.exists, ..state };
                match state.kind {
                    CollectionItemKind::Album => if directory_complete(found) {
                        finish(seen, Ok(Materialized::Skipped))
                    } else {
                        enter_resolve(seen)
                    },
                    CollectionItemKind::Track => (
                        seen.at(Phase::GateFile),
                        ActionView::Probe(seen.target()),
                    ),
                }
            },
            (Phase::GateFile, EventView::Exists(there)) => if there {
                finish(state, Ok(Materialized::Skipped))
            } else {
                enter_resolve(state)
            },
            (Phase::MakeDirectory, EventView::Done) => (
                state.at(Phase::MakeSentinel),
                ActionView::CreateFile(state.sentinel()),
            ),
            (Phase::MakeSentinel, EventView::Done) => enter_payload(state),
            (Phase::ClearFinal, EventView::Exists(there)) => if there {
                (state.at(Phase::RemoveFinal), ActionView::Remove(state.target()))
            } else {
                (state.at(Phase::RecheckFinal), ActionView::Probe(state.target()))
            },
            (Phase::RemoveFinal, EventView::Done) => (
                state.at(Phase::RecheckFinal),
                ActionView::Probe(state.target()),
            ),
            (Phase::Fetch, EventView::Stored(bytes)) => if bytes != state.declared_length {
                finish(
                    state,
                    Err(
                        MaterializeError::LengthMismatch {
                            expected: state.declared_length,
                            actual: bytes,
                        },
                    ),
                )
            } else if is_archive(state.filename) {
                (state.at(Phase::Open), ActionView::OpenArchive(state.staging()))
            } else {
                (state.at(Phase::ClearFinal), ActionView::Probe(state.target()))
            },
            (Phase::RecheckFinal, EventView::Exists(there)) => if there {
                (state.at(Phase::RemoveFinalAgain), ActionView::Remove(state.target()))
            } else {
                (state.at(Phase::Promote), ActionView::Rename(state.staging(), state.target()))
            },
            (Phase::RemoveFinalAgain, EventView::Done) => (
                state.at(Phase::Promote),
                ActionView::Rename(state.staging(), state.target()),
            ),
            (Phase::Promote, EventView::Done) => enter_finish(state),
            (Phase::Open, EventView::Opened(count)) => enter_entry(
                MachineState { count, ..state },
                0,
            ),
            (Phase::ReadingEntry, EventView::Entry(entry)) => if !entry.is_file {
                enter_entry(state, state.index + 1)
            } else {
                match entry.enclosed_name {
                    None => finish(state, Err(MaterializeError::BadZip)),
                    Some(name) => {
                        let named = MachineState { entry_name: name, ..state };
                        (named.at(Phase::EntryCheck), ActionView::Probe(named.entry_target()))
                    },
                }
            },
            (Phase::EntryCheck, EventView::Exists(there)) => if there {
                (state.at(Phase::EntryRemove), ActionView::Remove(state.entry_target()))
            } else {
                (
                    state.at(Phase::EntryExtract),
                    ActionView::Extract(state.index, state.entry_staging()),
                )
            },
            (Phase::EntryRemove, EventView::Done) => (
                state.at(Phase::EntryExtract),
                ActionView::Extract(state.index, state.entry_staging()),
            ),
            (Phase::EntryExtract, EventView::Done) => (
                state.at(Phase::EntryPromote),
                ActionView::Rename(state.entry_staging(), state.entry_target()),
            ),
            (Phase::EntryPromote, EventView::Done) => enter_entry(state, state.index + 1),
            (Phase::Discard, EventView::Done) => enter_finish(state),
            (Phase::SentinelCheck, EventView::Exists(there)) => if there {
                (state.at(Phase::SentinelRemove), ActionView::Remove(state.sentinel()))
            } else {
                finish(state, Ok(Materialized::Completed))
            },
            (Phase::SentinelRemove, EventView::Done) => finish(
                state,
                Ok(Materialized::Completed),
            ),
            _ => finish(state, Err(MaterializeError::UnexpectedEvent)),
        }
    }
}

/// What the tracker counts as downloaded is never written again: the
/// download asks to look at the directory and, for a track, at the file, and
/// ends as skipped.
pub proof fn lemma_complete_asks_for_no_write(
    root: Seq<char>,
    item: CollectionItemView,
    filename: Seq<char>,
    declared_length: u64,
    found: DirectoryState,
)
    ensures
        ({
            let (start, first) = begin_spec(root, item, filename, declared_length);
            let (gate, action) = step_spec(start, EventView::Directory(found));
            let skipped = ActionView::Finish(Ok(Materialized::Skipped));
            first == ActionView::Inspect(item_directory(root, item)) && match item.itype {
                CollectionItemKind::Album => directory_complete(found) ==> action == skipped,
                CollectionItemKind::Track => action == ActionView::Probe(
                    final_path(item_directory(root, item), filename),
                ) && step_spec(gate, EventView::Exists(true)).1 == skipped,
            }
        }),
{
}

/// A fault ends a download at once: nothing more is asked for, and the
/// download ends with the fault that was reported.
pub proof fn lemma_fault_ends_download(state: MachineState, event: EventView)
    requires
        state.phase != Phase::Finished,
        fault_of(event) is Some,
    ensures
        step_spec(state, event) == finish(
            state,
            Err::<Materialized, MaterializeError>(fault_of(event)->0),
        ),
{
}

/// Nothing is ever written under a final name: a download and an entry of
/// an archive are written under their temporary names, and the only file
/// that is created without content is the marker.
pub proof fn lemma_writes_are_staged(state: MachineState, event: EventView)
    ensures
        ({
            let (next, action) = step_spec(state, event);
            &&& action matches ActionView::Download(path) ==> path == next.staging()
            &&& action matches ActionView::Extract(index, path) ==> index == next.index && path
                == next.entry_staging()
            &&& action matches ActionView::CreateFile(path) ==> path == next.sentinel()
        }),
{
}

/// A file takes its final name only when it has been written whole: the
/// download after a transfer of the declared length, an entry of an archive
/// after it has been written out.
pub proof fn lemma_promotion_follows_writing(state: MachineState, event: EventView)
    ensures
        ({
            let (next, action) = step_spec(state, event);
            action matches ActionView::Rename(from, to) ==> {
                ||| {
                    &&& from == next.staging() && to == next.target()
                    &&& next.phase == Phase::Promote
                    &&& state.phase == Phase::RecheckFinal || state.phase
                        == Phase::RemoveFinalAgain
                }
                ||| {
                    &&& from == next.entry_staging() && to == next.entry_target()
                    &&& next.phase == Phase::EntryPromote
                    &&& state.phase == Phase::EntryExtract && event == EventView::Done
                }
            }
        }),
{
}

/// What follows a transfer is reached only by a transfer of the declared
/// length.
pub proof fn lemma_length_is_checked(state: MachineState, event: EventView)
    ensures
        ({
            let (next, _) = step_spec(state, event);
            (next.phase == Phase::ClearFinal || next.phase == Phase::Open) ==> state.phase
                == Phase::Fetch && event == EventView::Stored(state.declared_length)
        }),
{
}

/// A file that stands in the way of a download is removed only once the
/// download has been written whole.
pub proof fn lemma_removal_follows_writing(state: MachineState, event: EventView)
    ensures
        ({
            let (next, action) = step_spec(state, event);
            action == ActionView::Remove(next.target()) && (next.phase == Phase::RemoveFinal
                || next.phase == Phase::RemoveFinalAgain) ==> state.phase == Phase::ClearFinal
                || state.phase == Phase::RecheckFinal
        }),
{
}

/// The marker is removed last: its removal is asked for only once every
/// file is in place, and what follows is the end of the download.
pub proof fn lemma_marker_goes_last(state: MachineState, event: EventView)
    ensures
        ({
            let (next, action) = step_spec(state, event);
            &&& next.phase == Phase::SentinelRemove ==> state.phase == Phase::SentinelCheck
                && action == ActionView::Remove(next.sentinel())
            &&& next.phase == Phase::SentinelCheck ==> state.phase == Phase::Promote
                || state.phase == Phase::Discard
            &&& state.phase == Phase::SentinelRemove ==> action is Finish
        }),
{
}

/// Whether a phase belongs to the work on one entry of an archive.
pub open spec fn on_entry(phase: Phase) -> bool {
    phase == Phase::ReadingEntry || phase == Phase::EntryCheck || phase == Phase::EntryRemove
        || phase == Phase::EntryExtract || phase == Phase::EntryPromote
}

/// One download on its way to the disk.
pub struct Materializer {
    phase: Phase,
    kind: CollectionItemKind,
    directory: Vec<String>,
    filename: String,
    declared_length: u64,
    directory_exists: bool,
    count: usize,
    index: usize,
    entry_name: String,
}

impl View for Materializer {
    type V = MachineState;

    closed spec fn view(&self) -> MachineState {
        MachineState {
            phase: self.phase,
            kind: self.kind,
            directory: self.directory.deep_view(),
            filename: self.filename@,
            declared_length: self.declared_length,
            directory_exists: self.directory_exists,
            count: self.count as nat,
            index: self.index as nat,
            entry_name: self.entry_name@,
        }
    }
}

impl Materializer {
    /// While an entry is at hand, it is one of the archive's.
    #[verifier::type_invariant]
    spec fn entry_in_range(&self) -> bool {
        on_entry(self.phase) ==> self.index < self.count
    }

    /// Begins a download of `filename` for an item, with the length that the
    /// transfer declares. The first thing to do is to look at the item's
    /// directory.
    pub fn begin(
        file_manager: &FileManager,
        collection_item: &CollectionItem,
        filename: &str,
        declared_length: u64,
    ) -> (start: (Materializer, Action))
        ensures
            (start.0@, start.1@) == begin_spec(
                file_manager.root_directory@,
                collection_item@,
                filename@,
                declared_length,
            ),
    {
        let directory = file_manager.get_item_directory(collection_item);
        let action = Action::Inspect(copy_path(&directory));
        let machine = Materializer {
            phase: Phase::Gate,
            kind: collection_item.itype,
            directory,
            filename: String::from_str(filename),
            declared_length,
            directory_exists: false,
            count: 0,
            index: 0,
            entry_name: String::new(),
        };
        (machine, action)
    }

    /// Whether nothing is left to do.
    pub fn is_finished(&self) -> (done: bool)
        ensures
            done == (self@.phase == Phase::Finished),
    {
        match self.phase {
            Phase::Finished => true,
            _ => false,
        }
    }

    /// Where the download ends up.
    fn target(&self) -> (path: Vec<String>)
        ensures
            path.deep_view() == self@.target(),
    {
        child_path(&self.directory, self.filename.clone())
    }

    /// Where the download is written.
    fn staging(&self) -> (path: Vec<String>)
        ensures
            path.deep_view() == self@.staging(),
    {
        child_path(&self.directory, temporary_name(self.filename.as_str()))
    }

    /// The file that marks the directory as unfinished.
    fn sentinel(&self) -> (path: Vec<String>)
        ensures
            path.deep_view() == self@.sentinel(),
    {
        child_path(&self.directory, String::from_str(SENTINEL_NAME))
    }

    /// Where the entry at hand ends up.
    fn entry_target(&self) -> (path: Vec<String>)
        ensures
            path.deep_view() == self@.entry_target(),
    {
        child_path(&self.directory, self.entry_name.clone())
    }

    /// Where the entry at hand is written.
    fn entry_staging(&self) -> (path: Vec<String>)
        ensures
            path.deep_view() == self@.entry_staging(),
    {
        child_path(&self.directory, temporary_name(self.entry_name.as_str()))
    }

    /// Whether the download is an archive to be unpacked.
    fn archive(&self) -> (yes: bool)
        ensures
            yes == is_archive(self@.filename),
    {
        ends_with(self.filename.as_str(), ARCHIVE_EXTENSION)
    }

    /// The same download in another phase.
    fn at(self, phase: Phase) -> (next: Materializer)
        requires
            on_entry(phase) ==> self.index < self.count,
        ensures
            next@ == self@.at(phase),
    {
        Materializer {
            phase,
            kind: self.kind,
            directory: self.directory,
            filename: self.filename,
            declared_length: self.declared_length,
            directory_exists: self.directory_exists,
            count: self.count,
            index: self.index,
            entry_name: self.entry_name,
        }
    }

    /// Ends the download.
    fn finish(self, outcome: Result<Materialized, MaterializeError>) -> (next: (
        Materializer,
        Action,
    ))
        ensures
            (next.0@, next.1@) == finish(self@, outcome),
    {
        (self.at(Phase::Finished), Action::Finish(outcome))
    }

    /// Goes on to the transfer.
    fn enter_payload(self) -> (next: (Materializer, Action))
        ensures
            (next.0@, next.1@) == enter_payload(self@),
    {
        let action = Action::Download(self.staging());
        (self.at(Phase::Fetch), action)
    }

    /// Goes on to the making of the directory.
    fn enter_resolve(self) -> (next: (Materializer, Action))
        ensures
            (next.0@, next.1@) == enter_resolve(self@),
    {
        if self.directory_exists {
            self.enter_payload()
        } else {
            let action = Action::CreateDirectory(copy_path(&self.directory));
            (self.at(Phase::MakeDirectory), action)
        }
    }

    /// Goes on with the entry at `index`.
    fn enter_entry(self, index: usize) -> (next: (Materializer, Action))
        ensures
            (next.0@, next.1@) == enter_entry(self@, index as nat),
    {
        if index < self.count {
            let next = Materializer {
                phase: Phase::ReadingEntry,
                kind: self.kind,
                directory: self.directory,
                filename: self.filename,
                declared_length: self.declared_length,
                directory_exists: self.directory_exists,
                count: self.count,
                index,
                entry_name: self.entry_name,
            };
            (next, Action::ReadEntry(index))
        } else {
            let action = Action::Remove(self.staging());
            let next = Materializer {
                phase: Phase::Discard,
                kind: self.kind,
                directory: self.directory,
                filename: self.filename,
                declared_length: self.declared_length,
                directory_exists: self.directory_exists,
                count: self.count,
                index,
                entry_name: self.entry_name,
            };
            (next, action)
        }
    }

    /// Goes on to the removal of the marker.
    fn enter_finish(self) -> (next: (Materializer, Action))
        ensures
            (next.0@, next.1@) == enter_finish(self@),
    {
        let action = Action::Probe(self.sentinel());
        (self.at(Phase::SentinelCheck), action)
    }

    /// Takes in how the last action went and says what is to be done next.
    /// A fault ends the download at once, with the directory still marked.
    pub fn step(self, event: Event) -> (next: (Materializer, Action))
        ensures
            (next.0@, next.1@) == step_spec(self@, event@),
    {
        proof {
            use_type_invariant(&self);
        }
        if self.is_finished() {
            return self.finish(Err(MaterializeError::UnexpectedEvent));
        }
        match event {
            Event::IoFailed => {
                return self.finish(Err(MaterializeError::BadIO));
            },
            Event::ArchiveFailed => {
                return self.finish(Err(MaterializeError::BadZip));
            },
            Event::TransferFailed => {
                return self.finish(Err(MaterializeError::Transfer));
            },
            _ => {},
        }
        match (self.phase, event) {
            (Phase::Gate, Event::Directory(found)) => {
                let seen = Materializer {
                    phase: self.phase,
                    kind: self.kind,
                    directory: self.directory,
                    filename: self.filename,
                    declared_length: self.declared_length,
                    directory_exists: found.exists,
                    count: self.count,
                    index: self.index,
                    entry_name: self.entry_name,
                };
                match seen.kind {
                    CollectionItemKind::Album => {
                        if is_directory_complete(&found) {
                            seen.finish(Ok(Materialized::Skipped))
                        } else {
                            seen.enter_resolve()
                        }
                    },
                    CollectionItemKind::Track => {
                        let action = Action::Probe(seen.target());
                        (seen.at(Phase::GateFile), action)
                    },
                }
            },
            (Phase::GateFile, Event::Exists(there)) => {
                if there {
                    self.finish(Ok(Materialized::Skipped))
                } else {
                    self.enter_resolve()
                }
            },
            (Phase::MakeDirectory, Event::Done) => {
                let action = Action::CreateFile(self.sentinel());
                (self.at(Phase::MakeSentinel), action)
            },
            (Phase::MakeSentinel, Event::Done) => self.enter_payload(),
            (Phase::ClearFinal, Event::Exists(there)) => {
                if there {
                    let action = Action::Remove(self.target());
                    (self.at(Phase::RemoveFinal), action)
                } else {
                    let action = Action::Probe(self.target());
                    (self.at(Phase::RecheckFinal), action)
                }
            },
            (Phase::RemoveFinal, Event::Done) => {
                let action = Action::Probe(self.target());
                (self.at(Phase::RecheckFinal), action)
            },
            (Phase::Fetch, Event::Stored(bytes)) => {
                if bytes != self.declared_length {
                    let expected = self.declared_length;
                    self.finish(Err(MaterializeError::LengthMismatch { expected, actual: bytes }))
                } else if self.archive() {
                    let action = Action::OpenArchive(self.staging());
                    (self.at(Phase::Open), action)
                } else {
                    let action = Action::Probe(self.target());
                    (self.at(Phase::ClearFinal), action)
                }
            },
            (Phase::RecheckFinal, Event::Exists(there)) => {
                if there {
                    let action = Action::Remove(self.target());
                    (self.at(Phase::RemoveFinalAgain), action)
                } else {
                    let action = Action::Rename(self.staging(), self.target());
                    (self.at(Phase::Promote), action)
                }
            },
            (Phase::RemoveFinalAgain, Event::Done) => {
                let action = Action::Rename(self.staging(), self.target());
                (self.at(Phase::Promote), action)
            },
            (Phase::Promote, Event::Done) => self.enter_finish(),
            (Phase::Open, Event::Opened(count)) => {
                let opened = Materializer {
                    phase: self.phase,
                    kind: self.kind,
                    directory: self.directory,
                    filename: self.filename,
                    declared_length: self.declared_length,
                    directory_exists: self.directory_exists,
                    count,
                    index: self.index,
                    entry_name: self.entry_name,
                };
                opened.enter_entry(0)
            },
            (Phase::ReadingEntry, Event::Entry(entry)) => {
                if !entry.is_file {
                    let index = self.index + 1;
                    self.enter_entry(index)
                } else {
                    match entry.enclosed_name {
                        None => self.finish(Err(MaterializeError::BadZip)),
                        Some(name) => {
                            let named = Materializer {
                                phase: Phase::EntryCheck,
                                kind: self.kind,
                                directory: self.directory,
                                filename: self.filename,
                                declared_length: self.declared_length,
                                directory_exists: self.directory_exists,
                                count: self.count,
                                index: self.index,
                                entry_name: name,
                            };
                            let action = Action::Probe(named.entry_target());
                            (named, action)
                        },
                    }
                }
            },
            (Phase::EntryCheck, Event::Exists(there)) => {
                if there {
                    let action = Action::Remove(self.entry_target());
                    (self.at(Phase::EntryRemove), action)
                } else {
                    let action = Action::Extract(self.index, self.entry_staging());
                    (self.at(Phase::EntryExtract), action)
                }
            },
            (Phase::EntryRemove, Event::Done) => {
                let action = Action::Extract(self.index, self.entry_staging());
                (self.at(Phase::EntryExtract), action)
            },
            (Phase::EntryExtract, Event::Done) => {
                let action = Action::Rename(self.entry_staging(), self.entry_target());
                (self.at(Phase::EntryPromote), action)
            },
            (Phase::EntryPromote, Event::Done) => {
                let index = self.index + 1;
                self.enter_entry(index)
            },
            (Phase::Discard, Event::Done) => self.enter_finish(),
            (Phase::SentinelCheck, Event::Exists(there)) => {
                if there {
                    let action = Action::Remove(self.sentinel());
                    (self.at(Phase::SentinelRemove), action)
                } else {
                    self.finish(Ok(Materialized::Completed))
                }
            },
            (Phase::SentinelRemove, Event::Done) => self.finish(Ok(Materialized::Completed)),
            _ => self.finish(Err(MaterializeError::UnexpectedEvent)),
        }
    }
}

} // verus!
