//! The load of one binary as a state machine. The loader decides; whoever
//! drives it touches the file and the engine: it performs the action that
//! the loader asks for and hands back what came of it.

use crate::arch::Arch;
use crate::binary::elf::{arch_from, arch_of, RawHeader, SegmentDescriptor, PT_LOAD};
use crate::binary::{detect, detected, BinaryFormat};
use crate::emulator::{map_key, Emulator, MemMap, Protection};
use crate::error::{EngineError, Error, ErrorKind, ErrorView};
use crate::registry::{distinct_keys, has_key, EntryView};
use crate::text::prefixed_hex;
use vstd::prelude::*;
use vstd::string::StringExecFns;

verus! {

/// How far a load has come.
#[derive(Clone, Copy, Debug, PartialEq, Eq, Structural)]
pub enum LoadState {
    /// Nothing was read yet.
    Unopened,
    /// The file is open and its leading bytes are those of this format.
    Opened(BinaryFormat),
    /// The header and the segment descriptors are parsed. The loader passes
    /// through this state within the step that takes the header.
    HeaderParsed,
    /// The machine of the header is resolved to an architecture.
    ArchResolved,
    /// The engine exists; segments are being loaded.
    EmulatorCreated,
    /// Every loadable segment is mapped and filled. Final.
    SegmentsLoaded,
    /// A step failed. Final.
    Failed(ErrorKind),
}

/// What the driver reports to the loader.
#[derive(Debug)]
pub enum Event {
    /// The file was opened; these are its first four bytes.
    Opened([u8; 4]),
    /// The parser read the file from its start and gave this header.
    HeaderParsed(RawHeader),
    /// The engine was created.
    EngineCreated,
    /// The engine reserved the region.
    Reserved,
    /// The segment's bytes were read from the file and written to the engine.
    Copied,
    /// Opening, seeking or reading the file failed.
    IoFailed(String),
    /// The parser could not interpret the file.
    ParseFailed(String),
    /// The engine refused the operation.
    EngineFailed(EngineError),
}

/// An [`Event`] with its strings and vectors as sequences.
pub enum EventView {
    Opened(Seq<u8>),
    HeaderParsed { machine: u16, segments: Seq<SegmentDescriptor> },
    EngineCreated,
    Reserved,
    Copied,
    IoFailed(Seq<char>),
    ParseFailed(Seq<char>),
    EngineFailed(EngineError),
}

impl View for Event {
    type V = EventView;

    open spec fn view(&self) -> EventView {
        match self {
            Event::Opened(magic) => EventView::Opened(magic@),
            Event::HeaderParsed(header) => EventView::HeaderParsed {
                machine: header.machine,
                segments: header.segments@,
            },
            Event::EngineCreated => EventView::EngineCreated,
            Event::Reserved => EventView::Reserved,
            Event::Copied => EventView::Copied,
            Event::IoFailed(text) => EventView::IoFailed(text@),
            Event::ParseFailed(text) => EventView::ParseFailed(text@),
            Event::EngineFailed(e) => EventView::EngineFailed(*e),
        }
    }
}

/// What the loader asks the driver to do next.
#[derive(Clone, Copy, Debug, PartialEq, Eq, Structural)]
pub enum Action {
    /// Open the file and read its first four bytes.
    Open,
    /// Go back to the start of the file and parse it as this format.
    Parse(BinaryFormat),
    /// Create an engine for this architecture.
    CreateEngine(Arch),
    /// Reserve this region in the engine.
    Reserve { addr: u64, size: u64, flags: Protection },
    /// Read `len` bytes at `offset` of the file and write them to the
    /// engine's memory at `addr`.
    Copy { offset: u64, len: u64, addr: u64 },
    /// The load is complete.
    Finish,
    /// The load failed; nothing is left to do.
    Abort,
}

/// The loader as the contracts see it.
pub struct LoaderView {
    pub state: LoadState,
    /// The segment descriptors of the parsed header.
    pub segments: Seq<SegmentDescriptor>,
    /// The resolved architecture.
    pub arch: Option<Arch>,
    /// The mappings committed in the emulator, in the order of commitment.
    pub entries: Seq<EntryView>,
    /// The index of the segment that is being loaded.
    pub cursor: nat,
    /// Whether the region of that segment is reserved already.
    pub reserved: bool,
    /// The failure that ended the load.
    pub failure: Option<ErrorView>,
}

/// The description of a segment whose region cannot be held on this machine.
pub open spec fn unmappable_text() -> Seq<char> {
    "segment does not fit the address space"@
}

/// A loader that has read nothing.
pub open spec fn initial() -> LoaderView {
    LoaderView {
        state: LoadState::Unopened,
        segments: Seq::empty(),
        arch: None,
        entries: Seq::empty(),
        cursor: 0,
        reserved: false,
        failure: None,
    }
}

/// A loader that failed with `failure`. What was built so far is dropped.
pub open spec fn failed(failure: ErrorView) -> LoaderView {
    LoaderView {
        state: LoadState::Failed(failure.kind()),
        segments: Seq::empty(),
        arch: None,
        entries: Seq::empty(),
        cursor: 0,
        reserved: false,
        failure: Some(failure),
    }
}

/// The index of the first loadable segment at or behind `from`, or the
/// number of segments where there is none.
pub open spec fn next_loadable(segments: Seq<SegmentDescriptor>, from: nat) -> nat
    decreases segments.len() - from,
{
    if from >= segments.len() {
        segments.len()
    } else if segments[from as int].loadable() {
        from
    } else {
        next_loadable(segments, from + 1)
    }
}

/// The entries that loading the first `upto` segments leaves in the
/// registry: one for each loadable segment among them, in their order, each
/// under the key of its unnamed region.
pub open spec fn loaded_entries(segments: Seq<SegmentDescriptor>, upto: nat) -> Seq<EntryView>
    decreases upto,
{
    if upto == 0 {
        Seq::empty()
    } else {
        let before = loaded_entries(segments, (upto - 1) as nat);
        let segment = segments[upto - 1];
        if segment.loadable() {
            before.push((map_key(segment.mapping()), segment.mapping()))
        } else {
            before
        }
    }
}

/// The number of loadable segments among the first `upto`.
pub open spec fn loadable_count(segments: Seq<SegmentDescriptor>, upto: nat) -> nat
    decreases upto,
{
    if upto == 0 {
        0
    } else {
        loadable_count(segments, (upto - 1) as nat) + if segments[upto - 1].loadable() {
            1nat
        } else {
            0nat
        }
    }
}

/// Moves a loader whose engine exists to the first loadable segment at or
/// behind `from`. Without such a segment the load is complete. A segment
/// whose region cannot be held, or whose key is taken, ends the load.
pub open spec fn settle(pre: LoaderView, from: nat) -> LoaderView {
    let index = next_loadable(pre.segments, from);
    if index >= pre.segments.len() {
        LoaderView {
            state: LoadState::SegmentsLoaded,
            cursor: pre.segments.len(),
            reserved: false,
            ..pre
        }
    } else {
        let segment = pre.segments[index as int];
        if !segment.mappable() {
            failed(ErrorView::ParserError(unmappable_text()))
        } else if has_key(pre.entries, map_key(segment.mapping())) {
            failed(ErrorView::MapAlreadyExists(segment.mapping()))
        } else {
            LoaderView { state: LoadState::EmulatorCreated, cursor: index, reserved: false, ..pre }
        }
    }
}

/// Resolves the machine of a parsed header.
pub open spec fn resolve(pre: LoaderView, machine: u16) -> LoaderView {
    match arch_of(machine) {
        Some(arch) => LoaderView { state: LoadState::ArchResolved, arch: Some(arch), ..pre },
        None => failed(ErrorView::UnsupportedArch(prefixed_hex(machine as nat))),
    }
}

/// The loader after `event`. A final state takes no event. Before that,
/// a reported failure ends the load with the matching error, whatever was
/// going on; any other event counts only in the state that waits for it and
/// is passed over elsewhere.
pub open spec fn step(pre: LoaderView, event: EventView) -> LoaderView {
    match pre.state {
        LoadState::SegmentsLoaded => pre,
        LoadState::Failed(_) => pre,
        _ => match event {
            EventView::IoFailed(text) => failed(ErrorView::IoError(text)),
            EventView::ParseFailed(text) => failed(ErrorView::ParserError(text)),
            EventView::EngineFailed(e) => failed(ErrorView::EmulatorError(e)),
            EventView::Opened(magic) => if pre.state == LoadState::Unopened {
                match detected(magic) {
                    Some(format) => LoaderView { state: LoadState::Opened(format), ..pre },
                    None => failed(ErrorView::UnknownFormat),
                }
            } else {
                pre
            },
            EventView::HeaderParsed { machine, segments } => if pre.state is Opened {
                resolve(LoaderView { state: LoadState::HeaderParsed, segments, ..pre }, machine)
            } else {
                pre
            },
            EventView::EngineCreated => if pre.state == LoadState::ArchResolved {
                settle(LoaderView { state: LoadState::EmulatorCreated, ..pre }, 0)
            } else {
                pre
            },
            EventView::Reserved => if pre.state == LoadState::EmulatorCreated && !pre.reserved {
                let mapping = pre.segments[pre.cursor as int].mapping();
                LoaderView {
                    reserved: true,
                    entries: pre.entries.push((map_key(mapping), mapping)),
                    ..pre
                }
            } else {
                pre
            },
            EventView::Copied => if pre.state == LoadState::EmulatorCreated && pre.reserved {
                settle(LoaderView { reserved: false, ..pre }, pre.cursor + 1)
            } else {
                pre
            },
        },
    }
}

/// What a loader waits for.
pub open spec fn pending(loader: LoaderView) -> Action {
    match loader.state {
        LoadState::Unopened => Action::Open,
        LoadState::Opened(format) => Action::Parse(format),
        LoadState::ArchResolved => Action::CreateEngine(loader.arch->Some_0),
        LoadState::EmulatorCreated => {
            let segment = loader.segments[loader.cursor as int];
            if loader.reserved {
                Action::Copy { offset: segment.offset, len: segment.filesz, addr: segment.vaddr }
            } else {
                Action::Reserve {
                    addr: segment.mapping().addr,
                    size: segment.mapping().size,
                    flags: segment.mapping().flags,
                }
            }
        },
        LoadState::SegmentsLoaded => Action::Finish,
        _ => Action::Abort,
    }
}

/// What holds of a loader between steps.
pub open spec fn consistent(loader: LoaderView) -> bool {
    &&& distinct_keys(loader.entries)
    &&& match loader.state {
        LoadState::Unopened => loader == initial(),
        LoadState::Opened(format) => loader == (LoaderView {
            state: LoadState::Opened(format),
            ..initial()
        }),
        LoadState::HeaderParsed => false,
        LoadState::ArchResolved => {
            &&& loader.arch is Some
            &&& loader.entries == Seq::<EntryView>::empty()
            &&& loader.cursor == 0
            &&& !loader.reserved
            &&& loader.failure is None
        },
        LoadState::EmulatorCreated => {
            &&& loader.arch is Some
            &&& loader.cursor < loader.segments.len()
            &&& loader.segments[loader.cursor as int].loadable()
            &&& loader.segments[loader.cursor as int].mappable()
            &&& loader.entries == loaded_entries(
                loader.segments,
                if loader.reserved {
                    loader.cursor + 1
                } else {
                    loader.cursor
                },
            )
            &&& loader.reserved || !has_key(
                loader.entries,
                map_key(loader.segments[loader.cursor as int].mapping()),
            )
            &&& loader.failure is None
        },
        LoadState::SegmentsLoaded => {
            &&& loader.arch is Some
            &&& loader.cursor == loader.segments.len()
            &&& !loader.reserved
            &&& loader.entries == loaded_entries(loader.segments, loader.segments.len())
            &&& loader.failure is None
        },
        LoadState::Failed(kind) => {
            &&& loader.failure is Some
            &&& loader == failed(loader.failure->Some_0)
        },
    }
}

/// Segments that are passed over leave no entry.
pub proof fn lemma_next_loadable(segments: Seq<SegmentDescriptor>, from: nat)
    requires
        from <= segments.len(),
    ensures
        from <= next_loadable(segments, from) <= segments.len(),
        next_loadable(segments, from) < segments.len() ==> segments[next_loadable(
            segments,
            from,
        ) as int].loadable(),
        loaded_entries(segments, next_loadable(segments, from)) == loaded_entries(segments, from),
    decreases segments.len() - from,
{
    if from < segments.len() && !segments[from as int].loadable() {
        lemma_next_loadable(segments, from + 1);
    }
}

/// Loading leaves as many entries as there are loadable segments.
pub proof fn lemma_loaded_count(segments: Seq<SegmentDescriptor>, upto: nat)
    ensures
        loaded_entries(segments, upto).len() == loadable_count(segments, upto),
    decreases upto,
{
    if upto > 0 {
        lemma_loaded_count(segments, (upto - 1) as nat);
    }
}

/// A fresh loader is consistent.
pub proof fn lemma_initial_consistent()
    ensures
        consistent(initial()),
{
}

/// Every step keeps the loader consistent.
pub proof fn lemma_step_consistent(pre: LoaderView, event: EventView)
    requires
        consistent(pre),
    ensures
        consistent(step(pre, event)),
{
    match pre.state {
        LoadState::ArchResolved => {
            lemma_next_loadable(pre.segments, 0);
        },
        LoadState::EmulatorCreated => {
            if pre.reserved {
                lemma_next_loadable(pre.segments, pre.cursor + 1);
            } else {
                let mapping = pre.segments[pre.cursor as int].mapping();
                let grown = pre.entries.push((map_key(mapping), mapping));
                assert(distinct_keys(grown)) by {
                    assert forall|i: int, j: int| 0 <= i < j < grown.len() implies (
                    #[trigger] grown[i]).0 != (#[trigger] grown[j]).0 by {
                        assert(grown[i] == pre.entries[i]);
                        if j < pre.entries.len() {
                            assert(grown[j] == pre.entries[j]);
                        }
                    }
                }
            }
        },
        _ => {},
    }
}

/// A final state takes no event: once the load is complete or has failed,
/// nothing changes it.
pub proof fn lemma_final_states_absorb(pre: LoaderView, event: EventView)
    requires
        pre.state == LoadState::SegmentsLoaded || pre.state is Failed,
    ensures
        step(pre, event) == pre,
{
}

/// A complete load has committed one region for each loadable segment and
/// no other.
pub proof fn lemma_complete_load(loader: LoaderView)
    requires
        consistent(loader),
        loader.state == LoadState::SegmentsLoaded,
    ensures
        loader.entries.len() == loadable_count(loader.segments, loader.segments.len()),
        loader.entries == loaded_entries(loader.segments, loader.segments.len()),
        distinct_keys(loader.entries),
{
    lemma_loaded_count(loader.segments, loader.segments.len());
}

/// What a loader holds in each state.
enum Progress {
    Unopened,
    Opened(BinaryFormat),
    ArchResolved { segments: Vec<SegmentDescriptor>, arch: Arch },
    /// `awaiting` is the region of the segment at `cursor` until the engine
    /// has reserved it.
    EmulatorCreated {
        segments: Vec<SegmentDescriptor>,
        emulator: Emulator,
        cursor: usize,
        awaiting: Option<MemMap>,
    },
    SegmentsLoaded { segments: Vec<SegmentDescriptor>, emulator: Emulator },
    Failed(Error),
}

/// Drives the load of one binary into one emulator.
pub struct Loader {
    progress: Progress,
}

impl View for Loader {
    type V = LoaderView;

    closed spec fn view(&self) -> LoaderView {
        match self.progress {
            Progress::Unopened => initial(),
            Progress::Opened(format) => LoaderView { state: LoadState::Opened(format), ..initial() },
            Progress::ArchResolved { segments, arch } => LoaderView {
                state: LoadState::ArchResolved,
                segments: segments@,
                arch: Some(arch),
                ..initial()
            },
            Progress::EmulatorCreated { segments, emulator, cursor, awaiting } => LoaderView {
                state: LoadState::EmulatorCreated,
                segments: segments@,
                arch: Some(emulator.spec_arch()),
                entries: emulator.entries(),
                cursor: cursor as nat,
                reserved: awaiting is None,
                failure: None,
            },
            Progress::SegmentsLoaded { segments, emulator } => LoaderView {
                state: LoadState::SegmentsLoaded,
                segments: segments@,
                arch: Some(emulator.spec_arch()),
                entries: emulator.entries(),
                cursor: segments@.len(),
                reserved: false,
                failure: None,
            },
            Progress::Failed(failure) => failed(failure@),
        }
    }
}

impl Loader {
    #[verifier::type_invariant]
    spec fn well_formed(&self) -> bool {
        &&& consistent(self@)
        &&& match self.progress {
            Progress::EmulatorCreated { segments, cursor, awaiting: Some(mapping), .. } =>
                mapping@ == segments@[cursor as int].mapping(),
            _ => true,
        }
    }

    /// A loader that has read nothing yet.
    pub fn new() -> (loader: Loader)
        ensures
            loader@ == initial(),
    {
        Loader { progress: Progress::Unopened }
    }

    /// How far the load has come.
    pub fn state(&self) -> (state: LoadState)
        ensures
            state == self@.state,
            consistent(self@),
    {
        proof {
            use_type_invariant(self);
        }
        match &self.progress {
            Progress::Unopened => LoadState::Unopened,
            Progress::Opened(format) => LoadState::Opened(*format),
            Progress::ArchResolved { .. } => LoadState::ArchResolved,
            Progress::EmulatorCreated { .. } => LoadState::EmulatorCreated,
            Progress::SegmentsLoaded { .. } => LoadState::SegmentsLoaded,
            Progress::Failed(failure) => LoadState::Failed(failure.kind()),
        }
    }

    /// What the loader waits for.
    pub fn pending(&self) -> (action: Action)
        ensures
            action == pending(self@),
            consistent(self@),
    {
        proof {
            use_type_invariant(self);
        }
        match &self.progress {
            Progress::Unopened => Action::Open,
            Progress::Opened(format) => Action::Parse(*format),
            Progress::ArchResolved { arch, .. } => Action::CreateEngine(*arch),
            Progress::EmulatorCreated { segments, cursor, awaiting, .. } => match awaiting {
                Some(mapping) => Action::Reserve {
                    addr: mapping.addr,
                    size: mapping.size,
                    flags: mapping.flags,
                },
                None => {
                    let segment = &segments[*cursor];
                    Action::Copy {
                        offset: segment.offset,
                        len: segment.filesz,
                        addr: segment.vaddr,
                    }
                },
            },
            Progress::SegmentsLoaded { .. } => Action::Finish,
            Progress::Failed(_) => Action::Abort,
        }
    }

    /// A loader that failed with `failure`.
    fn fail(failure: Error) -> (loader: Loader)
        ensures
            loader@ == failed(failure@),
    {
        Loader { progress: Progress::Failed(failure) }
    }

    /// Goes on to the first loadable segment at or behind `from` and checks
    /// that its region can be reserved.
    fn settle(segments: Vec<SegmentDescriptor>, emulator: Emulator, from: usize) -> (loader:
        Loader)
        requires
            from <= segments@.len(),
            distinct_keys(emulator.entries()),
            emulator.entries() == loaded_entries(segments@, from as nat),
        ensures
            loader@ == settle(
                LoaderView {
                    state: LoadState::EmulatorCreated,
                    segments: segments@,
                    arch: Some(emulator.spec_arch()),
                    entries: emulator.entries(),
                    cursor: from as nat,
                    reserved: false,
                    failure: None,
                },
                from as nat,
            ),
    {
        let mut index: usize = from;
        while index < segments.len() && segments[index].kind != PT_LOAD
            invariant
                from <= index <= segments@.len(),
                next_loadable(segments@, index as nat) == next_loadable(segments@, from as nat),
            decreases segments@.len() - index,
        {
            index += 1;
        }
        proof {
            lemma_next_loadable(segments@, from as nat);
        }
        if index >= segments.len() {
            return Loader { progress: Progress::SegmentsLoaded { segments, emulator } };
        }
        match segments[index].to_mapping() {
            None => Loader::fail(
                Error::ParserError(String::from_str("segment does not fit the address space")),
            ),
            Some(mapping) => {
                if emulator.can_map(&mapping) {
                    Loader {
                        progress: Progress::EmulatorCreated {
                            segments,
                            emulator,
                            cursor: index,
                            awaiting: Some(mapping),
                        },
                    }
                } else {
                    Loader::fail(Error::MapAlreadyExists(mapping))
                }
            },
        }
    }

    /// Takes what the driver reports and says what to do next.
    pub fn step(self, event: Event) -> (next: (Loader, Action))
        ensures
            next.0@ == step(self@, event@),
            next.1 == pending(next.0@),
            consistent(next.0@),
    {
        let loader = self.advance(event);
        let action = loader.pending();
        (loader, action)
    }

    /// The loader after `event`.
    fn advance(self, event: Event) -> (next: Loader)
        ensures
            next@ == step(self@, event@),
    {
        proof {
            use_type_invariant(&self);
        }
        match (self.progress, event) {
            (Progress::SegmentsLoaded { segments, emulator }, _) => Loader {
                progress: Progress::SegmentsLoaded { segments, emulator },
            },
            (Progress::Failed(failure), _) => Loader { progress: Progress::Failed(failure) },
            (_, Event::IoFailed(text)) => Loader::fail(Error::IoError(text)),
            (_, Event::ParseFailed(text)) => Loader::fail(Error::ParserError(text)),
            (_, Event::EngineFailed(e)) => Loader::fail(Error::EmulatorError(e)),
            (Progress::Unopened, Event::Opened(magic)) => {
                match detect(magic.as_slice()) {
                    Some(format) => Loader { progress: Progress::Opened(format) },
                    None => Loader::fail(Error::UnknownFormat),
                }
            },
            (Progress::Opened(_), Event::HeaderParsed(header)) => {
                match arch_from(header.machine) {
                    Ok(arch) => Loader {
                        progress: Progress::ArchResolved { segments: header.segments, arch },
                    },
                    Err(failure) => Loader::fail(failure),
                }
            },
            (Progress::ArchResolved { segments, arch }, Event::EngineCreated) => {
                match Emulator::new(arch, Ok(())) {
                    Ok(emulator) => Loader::settle(segments, emulator, 0),
                    Err(failure) => Loader::fail(failure),
                }
            },
            (
                Progress::EmulatorCreated { segments, emulator, cursor, awaiting: Some(mapping) },
                Event::Reserved,
            ) => {
                let mut emulator = emulator;
                match emulator.mem_map(mapping, Ok(())) {
                    Ok(_) => Loader {
                        progress: Progress::EmulatorCreated {
                            segments,
                            emulator,
                            cursor,
                            awaiting: None,
                        },
                    },
                    Err(failure) => Loader::fail(failure),
                }
            },
            (
                Progress::EmulatorCreated { segments, emulator, cursor, awaiting: None },
                Event::Copied,
            ) => {
                assert(cursor < segments.len());
                Loader::settle(segments, emulator, cursor + 1)
            },
            (progress, _) => Loader { progress },
        }
    }

    /// Ends the load: the emulator of a complete load, the error of a failed
    /// one, nothing while the load is still going on.
    pub fn into_result(self) -> (outcome: Option<Result<Box<Emulator>, Error>>)
        ensures
            match self@.state {
                LoadState::SegmentsLoaded => outcome is Some && outcome->Some_0 is Ok
                    && outcome->Some_0->Ok_0.entries() == self@.entries && Some(
                    outcome->Some_0->Ok_0.spec_arch(),
                ) == self@.arch,
                LoadState::Failed(_) => outcome is Some && outcome->Some_0 is Err && Some(
                    outcome->Some_0->Err_0@,
                ) == self@.failure,
                _ => outcome is None,
            },
    {
        match self.progress {
            Progress::SegmentsLoaded { emulator, .. } => Some(Ok(Box::new(emulator))),
            Progress::Failed(failure) => Some(Err(failure)),
            _ => None,
        }
    }
}

} // verus!
