use vstd::prelude::*;

verus! {

/// This error indicates that the data slice was not large enough to
/// read the respective item.
#[derive(Debug, Clone, Copy, PartialEq, Eq)]
pub enum ReadError {
    PerfHeader,
    FeatureSection,
    BuildIdSection,
    StringLen,
    String,
    NrCpus,
    AttrsSection,
    PerfEventAttr,
    PerfEventHeader,
    PerfEventData,
}

/// The error type used in this crate.
#[derive(Debug, Clone, PartialEq, Eq)]
pub enum Error {
    /// The data slice was not big enough to read the struct, or we were
    /// trying to follow an invalid offset to somewhere outside of the data
    /// bounds.
    Read(ReadError),
    /// The buffer ended before the end of the structure being parsed.
    Truncated,
    /// The file magic was not one of the two recognized values.
    UnrecognizedMagicValue([u8; 8]),
    /// The declared header size is smaller than the fixed header layout.
    InvalidHeaderSize,
    /// A section size did not fit into usize.
    SectionSizeTooBig,
    /// The file declares no perf event attributes, so samples cannot be
    /// attributed.
    NoAttributes,
    /// The file contains multiple events but this attr does not specify
    /// IDENTIFIER.
    NoIdentifierDespiteMultiEvent(usize),
    /// The file contains multiple events but this attr does not agree with
    /// attr zero about SAMPLE_ID_ALL.
    InconsistentSampleIdAllWithMultiEvent(usize),
    /// The section wasn't big enough to contain the u32 string length.
    NotEnoughSpaceForStringLen,
    /// The section wasn't big enough to contain the u32 string list length.
    NotEnoughSpaceForStringListLen,
    /// The feature section wasn't big enough.
    FeatureSectionTooSmall,
    /// No event types were found in the simpleperf meta info section.
    NoEventTypesInSimpleperfMetaInfo,
    /// The indicated string length wouldn't fit in the remaining section.
    StringLengthTooLong,
    /// The indicated string list length wouldn't fit into usize.
    StringListLengthBiggerThanUsize,
    /// The indicated string length wouldn't fit into usize.
    StringLengthBiggerThanUsize,
    /// The string was not valid utf-8.
    StringUtf8,
    /// An attribute's self-reported size exceeded the size the file declared.
    InconsistentAttributeSizes(u64, u64),
    /// The specified size in a perf event header was smaller than the header
    /// itself.
    InvalidPerfEventSize,
    /// Decompression of a compressed record failed. The string holds the
    /// decompressor's error name.
    ZstdDecompress(String),
    /// A record of the legacy simpleperf file section could not be parsed.
    ParsingSimpleperfFileV1Section(ReadError),
}

/// The errors that attribute decoding and feature-section reading can
/// produce: everything but the header-prefix errors, whose exact conditions
/// the file entry points state themselves.
pub open spec fn is_section_error(e: Error) -> bool {
    ||| (e is Read && !(e->Read_0 is PerfHeader))
    ||| e is Truncated
    ||| e is FeatureSectionTooSmall
    ||| e is SectionSizeTooBig
    ||| e is InconsistentAttributeSizes
    ||| e is NotEnoughSpaceForStringLen
    ||| e is NotEnoughSpaceForStringListLen
    ||| e is StringLengthTooLong
    ||| e is StringUtf8
    ||| e is NoEventTypesInSimpleperfMetaInfo
}

/// The error type used for jitdump parsing.
#[derive(Debug, Clone, Copy, PartialEq, Eq)]
pub enum JitDumpError {
    /// The data does not hold enough bytes for the jitdump file header.
    NotEnoughBytesForHeader,
    /// The header's total size field is smaller than the fixed header layout.
    InvalidHeaderSize(u32),
    /// The data does not begin with one of the two jitdump magic values.
    InvalidMagicBytes([u8; 4]),
    /// The header's version field holds an unrecognized version.
    UnrecognizedVersion(u32),
}

} // verus!
