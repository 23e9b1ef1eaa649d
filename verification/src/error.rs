//! The failures a load can end in.

use crate::emulator::{MemMap, MemMapView};
use vstd::prelude::*;

verus! {

/// The code with which the CPU-emulation engine turned an operation down.
#[derive(Clone, Copy, Debug, PartialEq, Eq, Structural)]
pub struct EngineError {
    pub code: u32,
}

/// Every way in which loading a binary or mapping memory can fail, one
/// variant per layer that the failure comes from.
#[derive(Debug)]
pub enum Error {
    /// Opening, seeking or reading the source file failed.
    IoError(String),
    /// No known format recognises the leading bytes of the file.
    UnknownFormat,
    /// The structure of the file could not be interpreted.
    ParserError(String),
    /// The machine that the file targets is not supported; holds a
    /// description of the machine identifier.
    UnsupportedArch(String),
    /// The key of the mapping is already taken in the emulator.
    MapAlreadyExists(MemMap),
    /// The engine refused an operation.
    EmulatorError(EngineError),
}

/// The layer a failure comes from, without its details.
#[derive(Clone, Copy, Debug, PartialEq, Eq, Structural)]
pub enum ErrorKind {
    Io,
    UnknownFormat,
    Parser,
    UnsupportedArch,
    MapAlreadyExists,
    Emulator,
}

/// An [`Error`] with its strings as sequences of characters.
pub enum ErrorView {
    IoError(Seq<char>),
    UnknownFormat,
    ParserError(Seq<char>),
    UnsupportedArch(Seq<char>),
    MapAlreadyExists(MemMapView),
    EmulatorError(EngineError),
}

impl ErrorView {
    pub open spec fn kind(self) -> ErrorKind {
        match self {
            ErrorView::IoError(_) => ErrorKind::Io,
            ErrorView::UnknownFormat => ErrorKind::UnknownFormat,
            ErrorView::ParserError(_) => ErrorKind::Parser,
            ErrorView::UnsupportedArch(_) => ErrorKind::UnsupportedArch,
            ErrorView::MapAlreadyExists(_) => ErrorKind::MapAlreadyExists,
            ErrorView::EmulatorError(_) => ErrorKind::Emulator,
        }
    }
}

impl View for Error {
    type V = ErrorView;

    open spec fn view(&self) -> ErrorView {
        match self {
            Error::IoError(text) => ErrorView::IoError(text@),
            Error::UnknownFormat => ErrorView::UnknownFormat,
            Error::ParserError(text) => ErrorView::ParserError(text@),
            Error::UnsupportedArch(text) => ErrorView::UnsupportedArch(text@),
            Error::MapAlreadyExists(mapping) => ErrorView::MapAlreadyExists(mapping@),
            Error::EmulatorError(e) => ErrorView::EmulatorError(*e),
        }
    }
}

impl Error {
    /// The layer this failure comes from.
    pub fn kind(&self) -> (kind: ErrorKind)
        ensures
            kind == self@.kind(),
    {
        match self {
            Error::IoError(_) => ErrorKind::Io,
            Error::UnknownFormat => ErrorKind::UnknownFormat,
            Error::ParserError(_) => ErrorKind::Parser,
            Error::UnsupportedArch(_) => ErrorKind::UnsupportedArch,
            Error::MapAlreadyExists(_) => ErrorKind::MapAlreadyExists,
            Error::EmulatorError(_) => ErrorKind::Emulator,
        }
    }
}

} // verus!
