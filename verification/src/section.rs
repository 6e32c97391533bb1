use vstd::prelude::*;

use crate::endian::{int_value, read_u64, Endianness};

verus! {

/// `perf_file_section`
///
/// A `PerfFileSection` points at another part of the perf file. The header
/// contains three such pointers: for attributes, data and event types.
#[derive(Debug, Clone, Copy, PartialEq, Eq, Structural)]
pub struct PerfFileSection {
    /// offset from start of file
    pub offset: u64,
    /// size of the section
    pub size: u64,
}

/// The number of bytes a `perf_file_section` takes in the file.
pub const SECTION_STRUCT_SIZE: usize = 16;

/// The section whose two `u64` fields start at `pos` of `data`.
pub open spec fn spec_parse_section(data: Seq<u8>, pos: int, e: Endianness) -> PerfFileSection {
    PerfFileSection {
        offset: int_value(data.subrange(pos, pos + 8), e) as u64,
        size: int_value(data.subrange(pos + 8, pos + 16), e) as u64,
    }
}

impl PerfFileSection {
    /// Reads a section pointer from `data` at `pos`.
    pub fn parse(data: &[u8], pos: usize, e: Endianness) -> (r: Self)
        requires
            pos + SECTION_STRUCT_SIZE <= data@.len(),
        ensures
            r == spec_parse_section(data@, pos as int, e),
    {
        let n = data.len();
        proof {
            assert(pos + 16 <= n);
        }
        let offset = read_u64(data, pos, e);
        let size = read_u64(data, pos + 8, e);
        PerfFileSection { offset, size }
    }
}

} // verus!
