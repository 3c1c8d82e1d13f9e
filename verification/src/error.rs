//! Error type shared by every phase of the loader.
//!
//! Every parse-time failure aborts the whole parse: callers never see a
//! partially populated module.  Collaborator failures (map creation, program
//! load, attach) carry over as their own variants.

use vstd::prelude::*;

verus! {

/// A typed failure identifying which phase of loading went wrong.
#[derive(Debug, Clone, Copy, PartialEq, Eq, Structural)]
pub enum Error {
    /// The object file could not be read.  Raised by callers that perform
    /// the file access; never produced by the parsing functions themselves.
    IO,
    /// The ELF structure is invalid: bad magic, truncated tables, an
    /// out-of-range byte range, or a misaligned or out-of-range relocation
    /// offset.
    MalformedObject,
    /// The string table provides no usable name for the section with this
    /// index.
    MissingSectionName(usize),
    /// A section's content does not fit the shape its kind requires, or a
    /// program section names a kind that is not recognized.
    UnsupportedSectionKind,
    /// The map-creation collaborator refused to create a map.
    MapCreationError,
    /// The program-load collaborator rejected the program.
    ProgramLoadError,
    /// `load` was called on a program that already holds a kernel handle.
    ProgramAlreadyLoaded,
    /// An attach operation was requested before the program was loaded.
    ProgramNotLoaded,
    /// A relocation targets the section with this index, but no program was
    /// extracted from that section.
    RelocationTargetMissing(usize),
    /// The symbol with this index does not resolve to a known map name.
    RelocationSymbolUnresolved(usize),
    /// The attach collaborator failed.
    AttachError,
    /// A name or license destined for a C-style string holds an embedded
    /// terminator byte.
    StringConversionError,
}

} // verus!
