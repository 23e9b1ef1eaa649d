use popcorn::arch::{Arch, Isa, Mode};
use popcorn::binary::elf::{RawHeader, SegmentDescriptor, EM_X86_64, PF_R, PF_W, PF_X, PT_LOAD};
use popcorn::binary::loader::{Action, Event, LoadState, Loader};
use popcorn::binary::BinaryFormat;
use popcorn::emulator::Protection;
use popcorn::error::{EngineError, ErrorKind};
use popcorn::{Emulator, Error};

const ELF: [u8; 4] = [0x7f, 0x45, 0x4c, 0x46];

fn load_segment(vaddr: u64, offset: u64, filesz: u64, memsz: u64, flags: u32) -> SegmentDescriptor {
    SegmentDescriptor { kind: PT_LOAD, vaddr, offset, filesz, memsz, flags }
}

fn other_segment(kind: u32) -> SegmentDescriptor {
    SegmentDescriptor { kind, vaddr: 0x40_0040, offset: 0x40, filesz: 0x1f8, memsz: 0x1f8, flags: PF_R }
}

fn header(segments: Vec<SegmentDescriptor>) -> RawHeader {
    RawHeader { machine: EM_X86_64, segments }
}

/// A loader whose engine was just created for `segments`.
fn at_segments(segments: Vec<SegmentDescriptor>) -> (Loader, Action) {
    let loader = Loader::new();
    assert_eq!(loader.pending(), Action::Open);
    let (loader, action) = loader.step(Event::Opened(ELF));
    assert_eq!(action, Action::Parse(BinaryFormat::Elf));
    let (loader, action) = loader.step(Event::HeaderParsed(header(segments)));
    assert_eq!(action, Action::CreateEngine(Arch { arch: Isa::X86, mode: Mode::Mode64 }));
    loader.step(Event::EngineCreated)
}

/// Answers every request with success until the load ends.
fn run_to_end(mut loader: Loader, mut action: Action) -> (Loader, Vec<Action>) {
    let mut asked = Vec::new();
    loop {
        asked.push(action);
        let event = match action {
            Action::Open => Event::Opened(ELF),
            Action::Parse(_) => panic!("the header is given by the test"),
            Action::CreateEngine(_) => Event::EngineCreated,
            Action::Reserve { .. } => Event::Reserved,
            Action::Copy { .. } => Event::Copied,
            Action::Finish | Action::Abort => return (loader, asked),
        };
        let next = loader.step(event);
        loader = next.0;
        action = next.1;
    }
}

fn loaded(segments: Vec<SegmentDescriptor>) -> (Box<Emulator>, Vec<Action>) {
    let (loader, action) = at_segments(segments);
    let (loader, asked) = run_to_end(loader, action);
    assert_eq!(loader.state(), LoadState::SegmentsLoaded);
    match loader.into_result() {
        Some(Ok(emulator)) => (emulator, asked),
        other => panic!("unexpected: {:?}", other.map(|r| r.map(|_| ()))),
    }
}

fn failure_of(loader: Loader) -> Error {
    match loader.into_result() {
        Some(Err(e)) => e,
        Some(Ok(_)) => panic!("the load succeeded"),
        None => panic!("the load is still going on"),
    }
}

#[test]
fn load_of_a_missing_file_is_an_io_failure() {
    let loader = Loader::new();
    assert_eq!(loader.state(), LoadState::Unopened);
    let (loader, action) =
        loader.step(Event::IoFailed("No such file or directory (os error 2)".to_string()));
    assert_eq!(action, Action::Abort);
    assert_eq!(loader.state(), LoadState::Failed(ErrorKind::Io));
    match failure_of(loader) {
        Error::IoError(text) => assert_eq!(text, "No such file or directory (os error 2)"),
        other => panic!("unexpected: {:?}", other),
    }
}

#[test]
fn load_of_an_unknown_signature_is_refused() {
    let (loader, action) = Loader::new().step(Event::Opened(*b"This"));
    assert_eq!(action, Action::Abort);
    assert_eq!(loader.state(), LoadState::Failed(ErrorKind::UnknownFormat));
    assert!(matches!(failure_of(loader), Error::UnknownFormat));
    let (loader, _) = Loader::new().step(Event::Opened([0, 0, 0, 0]));
    assert!(matches!(failure_of(loader), Error::UnknownFormat));
}

#[test]
fn load_of_an_unparsable_file_is_a_parser_failure() {
    let (loader, _) = Loader::new().step(Event::Opened(ELF));
    assert_eq!(loader.state(), LoadState::Opened(BinaryFormat::Elf));
    let (loader, action) = loader.step(Event::ParseFailed("InvalidFormat(None)".to_string()));
    assert_eq!(action, Action::Abort);
    assert_eq!(loader.state(), LoadState::Failed(ErrorKind::Parser));
    match failure_of(loader) {
        Error::ParserError(text) => assert_eq!(text, "InvalidFormat(None)"),
        other => panic!("unexpected: {:?}", other),
    }
}

#[test]
fn load_for_an_unsupported_machine_is_refused() {
    let (loader, _) = Loader::new().step(Event::Opened(ELF));
    let (loader, action) =
        loader.step(Event::HeaderParsed(RawHeader { machine: 40, segments: Vec::new() }));
    assert_eq!(action, Action::Abort);
    assert_eq!(loader.state(), LoadState::Failed(ErrorKind::UnsupportedArch));
    match failure_of(loader) {
        Error::UnsupportedArch(text) => assert_eq!(text, "0x28"),
        other => panic!("unexpected: {:?}", other),
    }
}

#[test]
fn load_without_an_engine_is_an_engine_failure() {
    let (loader, _) = Loader::new().step(Event::Opened(ELF));
    let (loader, _) = loader.step(Event::HeaderParsed(header(Vec::new())));
    assert_eq!(loader.state(), LoadState::ArchResolved);
    let (loader, action) = loader.step(Event::EngineFailed(EngineError { code: 2 }));
    assert_eq!(action, Action::Abort);
    assert_eq!(loader.state(), LoadState::Failed(ErrorKind::Emulator));
    match failure_of(loader) {
        Error::EmulatorError(e) => assert_eq!(e.code, 2),
        other => panic!("unexpected: {:?}", other),
    }
}

#[test]
fn load_of_a_reference_binary_maps_each_loadable_segment() {
    let segments = vec![
        other_segment(6),
        other_segment(3),
        load_segment(0x40_0000, 0, 0xb24c, 0xb24c, PF_R | PF_X),
        load_segment(0x60_be10, 0xbe10, 0x5f0, 0x790, PF_R | PF_W),
        other_segment(2),
        other_segment(4),
        other_segment(0x6474_e550),
        other_segment(0x6474_e551),
    ];
    let (emulator, asked) = loaded(segments);
    assert_eq!(emulator.mappings().len(), 2);
    assert_eq!(*emulator.arch(), Arch { arch: Isa::X86, mode: Mode::Mode64 });
    let text = emulator.mappings().get(".anonymous[0x400000]").unwrap();
    assert_eq!(text.addr, 0x40_0000);
    assert_eq!(text.size, 0xc000);
    assert_eq!(text.flags, Protection { read: true, write: false, execute: true });
    let data = emulator.mappings().get(".anonymous[0x60b000]").unwrap();
    assert_eq!(data.addr, 0x60_b000);
    assert_eq!(data.size, 0x2000);
    assert_eq!(data.flags, Protection { read: true, write: true, execute: false });
    assert_eq!(
        asked,
        vec![
            Action::Reserve {
                addr: 0x40_0000,
                size: 0xc000,
                flags: Protection { read: true, write: false, execute: true },
            },
            Action::Copy { offset: 0, len: 0xb24c, addr: 0x40_0000 },
            Action::Reserve {
                addr: 0x60_b000,
                size: 0x2000,
                flags: Protection { read: true, write: true, execute: false },
            },
            Action::Copy { offset: 0xbe10, len: 0x5f0, addr: 0x60_be10 },
            Action::Finish,
        ]
    );
}

#[test]
fn load_without_loadable_segments_maps_nothing() {
    let (emulator, asked) = loaded(vec![other_segment(6), other_segment(4)]);
    assert_eq!(emulator.mappings().len(), 0);
    assert_eq!(asked, vec![Action::Finish]);
    let (emulator, asked) = loaded(Vec::new());
    assert!(emulator.mappings().is_empty());
    assert_eq!(asked, vec![Action::Finish]);
}

#[test]
fn segments_on_two_pages_give_two_entries() {
    let (emulator, _) = loaded(vec![
        load_segment(0x1000, 0x1000, 0x100, 0x100, PF_R),
        load_segment(0x2000, 0x2000, 0x100, 0x100, PF_R),
    ]);
    assert_eq!(emulator.mappings().len(), 2);
    assert!(emulator.mappings().contains_key(".anonymous[0x1000]"));
    assert!(emulator.mappings().contains_key(".anonymous[0x2000]"));
    assert_eq!(emulator.mappings().entry_at(0).unwrap().0, ".anonymous[0x1000]");
    assert_eq!(emulator.mappings().entry_at(1).unwrap().0, ".anonymous[0x2000]");
    assert_eq!(emulator.mappings().get(".anonymous[0x1000]").unwrap().addr, 0x1000);
    assert_eq!(emulator.mappings().get(".anonymous[0x2000]").unwrap().addr, 0x2000);
}

#[test]
fn segments_on_one_page_collide() {
    let (loader, action) = at_segments(vec![
        load_segment(0x1000, 0x1000, 0x100, 0x100, PF_R),
        load_segment(0x1800, 0x1800, 0x100, 0x100, PF_R | PF_W),
    ]);
    assert_eq!(loader.state(), LoadState::EmulatorCreated);
    let (loader, asked) = run_to_end(loader, action);
    assert_eq!(asked.len(), 3);
    assert_eq!(asked[2], Action::Abort);
    assert_eq!(loader.state(), LoadState::Failed(ErrorKind::MapAlreadyExists));
    match failure_of(loader) {
        Error::MapAlreadyExists(rejected) => {
            assert_eq!(rejected.addr, 0x1000);
            assert_eq!(rejected.size, 0x1000);
            assert_eq!(rejected.flags, Protection { read: true, write: true, execute: false });
        }
        other => panic!("unexpected: {:?}", other),
    }
}

#[test]
fn only_the_bytes_in_the_file_are_copied() {
    let (loader, action) = at_segments(vec![load_segment(0x60_0e10, 0xe10, 0x230, 0x8000, PF_R | PF_W)]);
    assert_eq!(
        action,
        Action::Reserve {
            addr: 0x60_0000,
            size: 0x9000,
            flags: Protection { read: true, write: true, execute: false },
        }
    );
    let (loader, action) = loader.step(Event::Reserved);
    assert_eq!(action, Action::Copy { offset: 0xe10, len: 0x230, addr: 0x60_0e10 });
    let (loader, action) = loader.step(Event::Copied);
    assert_eq!(action, Action::Finish);
    let emulator = loader.into_result().unwrap().unwrap();
    assert_eq!(emulator.mappings().len(), 1);
    assert_eq!(emulator.mappings().get(".anonymous[0x600000]").unwrap().size, 0x9000);
}

#[test]
fn a_refused_reservation_ends_the_load() {
    let (loader, action) = at_segments(vec![
        load_segment(0x1000, 0, 0x10, 0x10, PF_R),
        load_segment(0x5000, 0x10, 0x10, 0x10, PF_R),
    ]);
    assert!(matches!(action, Action::Reserve { addr: 0x1000, .. }));
    let (loader, _) = loader.step(Event::Reserved);
    let (loader, action) = loader.step(Event::Copied);
    assert!(matches!(action, Action::Reserve { addr: 0x5000, .. }));
    let (loader, action) = loader.step(Event::EngineFailed(EngineError { code: 11 }));
    assert_eq!(action, Action::Abort);
    assert_eq!(loader.state(), LoadState::Failed(ErrorKind::Emulator));
    assert!(matches!(failure_of(loader), Error::EmulatorError(EngineError { code: 11 })));
}

#[test]
fn a_failed_read_ends_the_load() {
    let (loader, _) = at_segments(vec![load_segment(0x1000, 0x9000, 0x10, 0x10, PF_R)]);
    let (loader, action) = loader.step(Event::Reserved);
    assert_eq!(action, Action::Copy { offset: 0x9000, len: 0x10, addr: 0x1000 });
    let (loader, action) = loader.step(Event::IoFailed("failed to fill whole buffer".to_string()));
    assert_eq!(action, Action::Abort);
    match failure_of(loader) {
        Error::IoError(text) => assert_eq!(text, "failed to fill whole buffer"),
        other => panic!("unexpected: {:?}", other),
    }
}

#[test]
fn a_segment_that_cannot_be_held_ends_the_load() {
    let (loader, action) = at_segments(vec![load_segment(0x1000, 0, 0x10, u64::MAX, PF_R)]);
    assert_eq!(action, Action::Abort);
    assert_eq!(loader.state(), LoadState::Failed(ErrorKind::Parser));
    match failure_of(loader) {
        Error::ParserError(text) => assert_eq!(text, "segment does not fit the address space"),
        other => panic!("unexpected: {:?}", other),
    }
}

#[test]
fn a_final_state_takes_no_event() {
    let (loader, action) = at_segments(vec![load_segment(0x1000, 0, 0x10, 0x10, PF_X)]);
    let (loader, _) = run_to_end(loader, action);
    assert_eq!(loader.state(), LoadState::SegmentsLoaded);
    let (loader, action) = loader.step(Event::IoFailed("late".to_string()));
    assert_eq!(action, Action::Finish);
    let (loader, action) = loader.step(Event::Reserved);
    assert_eq!(action, Action::Finish);
    assert_eq!(loader.into_result().unwrap().unwrap().mappings().len(), 1);

    let (loader, _) = Loader::new().step(Event::Opened([1, 2, 3, 4]));
    let (loader, action) = loader.step(Event::Opened(ELF));
    assert_eq!(action, Action::Abort);
    let (loader, action) = loader.step(Event::IoFailed("late".to_string()));
    assert_eq!(action, Action::Abort);
    assert!(matches!(failure_of(loader), Error::UnknownFormat));
}

#[test]
fn an_event_out_of_turn_is_passed_over() {
    let (loader, action) = Loader::new().step(Event::Reserved);
    assert_eq!(action, Action::Open);
    assert_eq!(loader.state(), LoadState::Unopened);
    let (loader, action) = loader.step(Event::HeaderParsed(header(Vec::new())));
    assert_eq!(action, Action::Open);
    let (loader, action) = at_segments_from(loader);
    assert!(matches!(action, Action::Reserve { addr: 0x3000, .. }));
    let (loader, action) = loader.step(Event::Copied);
    assert!(matches!(action, Action::Reserve { addr: 0x3000, .. }));
    let (loader, action) = loader.step(Event::Reserved);
    assert!(matches!(action, Action::Copy { addr: 0x3004, .. }));
    let (loader, action) = loader.step(Event::Reserved);
    assert!(matches!(action, Action::Copy { addr: 0x3004, .. }));
    assert!(loader.into_result().is_none());
}

fn at_segments_from(loader: Loader) -> (Loader, Action) {
    let (loader, _) = loader.step(Event::Opened(ELF));
    let (loader, _) =
        loader.step(Event::HeaderParsed(header(vec![load_segment(0x3004, 4, 8, 8, PF_R)])));
    loader.step(Event::EngineCreated)
}

#[test]
fn an_unfinished_load_has_no_result() {
    assert!(Loader::new().into_result().is_none());
    let (loader, _) = Loader::new().step(Event::Opened(ELF));
    assert!(loader.into_result().is_none());
}
