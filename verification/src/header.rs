use vstd::prelude::*;

use crate::endian::{int_bytes, int_value, lemma_int_value_of_int_bytes, pow256, read_u64,
    Endianness};
use crate::error::Error;
use crate::features::FeatureSet;
use crate::section::{spec_parse_section, PerfFileSection, SECTION_STRUCT_SIZE};

verus! {

/// The number of bytes of the fixed `perf_header` layout: the magic, three
/// `u64` fields, three section pointers and the 256-bit feature bitset.
pub const PERF_HEADER_SIZE: usize = 104;

/// The number of bytes of the pipe-mode header: the magic and one `u64`.
pub const PERF_PIPE_HEADER_SIZE: usize = 16;

/// `perf_header`
///
/// The magic number identifies the perf file and the version. Current perf
/// versions use PERFILE2. The magic also identifies the endian: when the
/// magic value is byte-swapped, the file is in non-native endian.
#[derive(Debug, Clone, Copy)]
pub struct PerfHeader {
    pub magic: [u8; 8],
    /// size of the header
    pub header_size: u64,
    /// size of an attribute in attrs
    pub attr_size: u64,
    pub attr_section: PerfFileSection,
    pub data_section: PerfFileSection,
    pub event_types_section: PerfFileSection,
    /// Feature flags
    pub features: FeatureSet,
}

/// `perf_pipe_file_header`: the header of a pipe-mode stream, which has no
/// section pointers because all metadata arrives inline as records.
#[derive(Debug, Clone, Copy)]
pub struct PerfPipeHeader {
    pub magic: [u8; 8],
    /// size of the header
    pub size: u64,
}

/// The bytes of the little-endian magic `"PERFILE2"`.
pub open spec fn magic_le() -> Seq<u8> {
    seq![80u8, 69u8, 82u8, 70u8, 73u8, 76u8, 69u8, 50u8]
}

/// The bytes of the big-endian magic `"2ELIFREP"`.
pub open spec fn magic_be() -> Seq<u8> {
    seq![50u8, 69u8, 76u8, 73u8, 70u8, 82u8, 69u8, 80u8]
}

/// The bytes of the little-endian magic, as a vector.
pub fn magic_le_vec() -> (r: Vec<u8>)
    ensures
        r@ == magic_le(),
{
    let v: Vec<u8> = vec![80u8, 69u8, 82u8, 70u8, 73u8, 76u8, 69u8, 50u8];
    proof {
        assert(v@ =~= magic_le());
    }
    v
}

/// The bytes of the big-endian magic, as a vector.
pub fn magic_be_vec() -> (r: Vec<u8>)
    ensures
        r@ == magic_be(),
{
    let v: Vec<u8> = vec![50u8, 69u8, 76u8, 73u8, 70u8, 82u8, 69u8, 80u8];
    proof {
        assert(v@ =~= magic_be());
    }
    v
}

/// The byte order that a header magic declares: a magic that begins with
/// `'P'` reads in little-endian order, any other in big-endian order. Which
/// magics are accepted at all is decided one level up, where the two file
/// entry points compare the magic against its two known values.
pub open spec fn endian_of_magic(magic: Seq<u8>) -> Endianness {
    if magic[0] == 80u8 {
        Endianness::LittleEndian
    } else {
        Endianness::BigEndian
    }
}

/// The logical content of a `perf_header`, independent of byte order.
#[verifier::ext_equal]
pub struct PerfHeaderModel {
    pub header_size: u64,
    pub attr_size: u64,
    pub attr_section: PerfFileSection,
    pub data_section: PerfFileSection,
    pub event_types_section: PerfFileSection,
    pub features: [u64; 4],
}

impl PerfHeader {
    /// The logical content of this header, without the magic.
    pub open spec fn model(&self) -> PerfHeaderModel {
        PerfHeaderModel {
            header_size: self.header_size,
            attr_size: self.attr_size,
            attr_section: self.attr_section,
            data_section: self.data_section,
            event_types_section: self.event_types_section,
            features: self.features.0,
        }
    }
}

/// The header whose fields start right after the magic, read in the byte
/// order the magic declares.
pub open spec fn spec_parse_header_fields(data: Seq<u8>, e: Endianness) -> PerfHeaderModel {
    PerfHeaderModel {
        header_size: int_value(data.subrange(8, 16), e) as u64,
        attr_size: int_value(data.subrange(16, 24), e) as u64,
        attr_section: spec_parse_section(data, 24, e),
        data_section: spec_parse_section(data, 40, e),
        event_types_section: spec_parse_section(data, 56, e),
        features: [
            int_value(data.subrange(72, 80), e) as u64,
            int_value(data.subrange(80, 88), e) as u64,
            int_value(data.subrange(88, 96), e) as u64,
            int_value(data.subrange(96, 104), e) as u64,
        ],
    }
}

impl PerfHeader {
    /// Reads the file header from the start of `data`, in the byte order
    /// that the magic declares.
    pub fn parse(data: &[u8]) -> (r: Result<Self, Error>)
        ensures
            r is Ok <==> data@.len() >= PERF_HEADER_SIZE,
            r is Ok ==> r->Ok_0.magic@ == data@.subrange(0, 8) && r->Ok_0.model()
                == spec_parse_header_fields(data@, endian_of_magic(data@)),
            r is Err ==> r->Err_0 == Error::Read(crate::error::ReadError::PerfHeader),
    {
        if data.len() < PERF_HEADER_SIZE {
            return Err(Error::Read(crate::error::ReadError::PerfHeader));
        }
        let magic: [u8; 8] = [
            data[0],
            data[1],
            data[2],
            data[3],
            data[4],
            data[5],
            data[6],
            data[7],
        ];
        proof {
            assert(magic@ =~= data@.subrange(0, 8));
        }
        let e = if data[0] == 80 {
            Endianness::LittleEndian
        } else {
            Endianness::BigEndian
        };
        let header_size = read_u64(data, 8, e);
        let attr_size = read_u64(data, 16, e);
        let attr_section = PerfFileSection::parse(data, 24, e);
        let data_section = PerfFileSection::parse(data, 40, e);
        let event_types_section = PerfFileSection::parse(data, 56, e);
        let features = FeatureSet(
            [read_u64(data, 72, e), read_u64(data, 80, e), read_u64(data, 88, e), read_u64(
                data,
                96,
                e,
            )],
        );
        Ok(
            PerfHeader {
                magic,
                header_size,
                attr_size,
                attr_section,
                data_section,
                event_types_section,
                features,
            },
        )
    }
}

impl PerfPipeHeader {
    /// Reads the pipe-mode header from the start of `data`, in the byte
    /// order that the magic declares.
    pub fn parse(data: &[u8]) -> (r: Result<Self, Error>)
        ensures
            r is Ok <==> data@.len() >= PERF_PIPE_HEADER_SIZE,
            r is Ok ==> r->Ok_0.magic@ == data@.subrange(0, 8) && r->Ok_0.size == int_value(
                data@.subrange(8, 16),
                endian_of_magic(data@),
            ),
            r is Err ==> r->Err_0 == Error::Read(crate::error::ReadError::PerfHeader),
    {
        if data.len() < PERF_PIPE_HEADER_SIZE {
            return Err(Error::Read(crate::error::ReadError::PerfHeader));
        }
        let magic: [u8; 8] = [
            data[0],
            data[1],
            data[2],
            data[3],
            data[4],
            data[5],
            data[6],
            data[7],
        ];
        proof {
            assert(magic@ =~= data@.subrange(0, 8));
        }
        let e = if data[0] == 80 {
            Endianness::LittleEndian
        } else {
            Endianness::BigEndian
        };
        let size = read_u64(data, 8, e);
        Ok(PerfPipeHeader { magic, size })
    }
}

/// The encoding of a header model in the given byte order, with the matching
/// magic in front.
pub open spec fn spec_header_bytes(m: PerfHeaderModel, e: Endianness) -> Seq<u8> {
    let magic = if e == Endianness::LittleEndian {
        magic_le()
    } else {
        magic_be()
    };
    magic + int_bytes(m.header_size as nat, 8, e) + int_bytes(m.attr_size as nat, 8, e)
        + int_bytes(m.attr_section.offset as nat, 8, e) + int_bytes(m.attr_section.size as nat, 8, e)
        + int_bytes(m.data_section.offset as nat, 8, e) + int_bytes(m.data_section.size as nat, 8, e)
        + int_bytes(m.event_types_section.offset as nat, 8, e) + int_bytes(
        m.event_types_section.size as nat,
        8,
        e,
    ) + int_bytes(m.features@[0] as nat, 8, e) + int_bytes(m.features@[1] as nat, 8, e) + int_bytes(
        m.features@[2] as nat,
        8,
        e,
    ) + int_bytes(m.features@[3] as nat, 8, e)
}

/// Endian round-trip: the little-endian encoding of a header and its
/// big-endian twin parse to the same logical content — the model itself.
pub proof fn lemma_header_endian_round_trip(m: PerfHeaderModel)
    ensures
        spec_parse_header_fields(spec_header_bytes(m, Endianness::LittleEndian),
            Endianness::LittleEndian) == m,
        spec_parse_header_fields(spec_header_bytes(m, Endianness::BigEndian),
            Endianness::BigEndian) == m,
        endian_of_magic(spec_header_bytes(m, Endianness::LittleEndian))
            == Endianness::LittleEndian,
        endian_of_magic(spec_header_bytes(m, Endianness::BigEndian)) == Endianness::BigEndian,
{
    lemma_header_round_trip_one(m, Endianness::LittleEndian);
    lemma_header_round_trip_one(m, Endianness::BigEndian);
    assert(spec_header_bytes(m, Endianness::LittleEndian)[0] == 80u8);
    assert(spec_header_bytes(m, Endianness::BigEndian)[0] == 50u8);
}

proof fn lemma_header_round_trip_one(m: PerfHeaderModel, e: Endianness)
    ensures
        spec_parse_header_fields(spec_header_bytes(m, e), e) == m,
{
    crate::endian::lemma_pow256_values();
    lemma_int_value_of_int_bytes(m.header_size as nat, 8, e);
    lemma_int_value_of_int_bytes(m.attr_size as nat, 8, e);
    lemma_int_value_of_int_bytes(m.attr_section.offset as nat, 8, e);
    lemma_int_value_of_int_bytes(m.attr_section.size as nat, 8, e);
    lemma_int_value_of_int_bytes(m.data_section.offset as nat, 8, e);
    lemma_int_value_of_int_bytes(m.data_section.size as nat, 8, e);
    lemma_int_value_of_int_bytes(m.event_types_section.offset as nat, 8, e);
    lemma_int_value_of_int_bytes(m.event_types_section.size as nat, 8, e);
    lemma_int_value_of_int_bytes(m.features@[0] as nat, 8, e);
    lemma_int_value_of_int_bytes(m.features@[1] as nat, 8, e);
    lemma_int_value_of_int_bytes(m.features@[2] as nat, 8, e);
    lemma_int_value_of_int_bytes(m.features@[3] as nat, 8, e);
    let data = spec_header_bytes(m, e);
    assert(data.subrange(8, 16) =~= int_bytes(m.header_size as nat, 8, e));
    assert(data.subrange(16, 24) =~= int_bytes(m.attr_size as nat, 8, e));
    assert(data.subrange(24, 32) =~= int_bytes(m.attr_section.offset as nat, 8, e));
    assert(data.subrange(32, 40) =~= int_bytes(m.attr_section.size as nat, 8, e));
    assert(data.subrange(40, 48) =~= int_bytes(m.data_section.offset as nat, 8, e));
    assert(data.subrange(48, 56) =~= int_bytes(m.data_section.size as nat, 8, e));
    assert(data.subrange(56, 64) =~= int_bytes(m.event_types_section.offset as nat, 8, e));
    assert(data.subrange(64, 72) =~= int_bytes(m.event_types_section.size as nat, 8, e));
    assert(data.subrange(72, 80) =~= int_bytes(m.features@[0] as nat, 8, e));
    assert(data.subrange(80, 88) =~= int_bytes(m.features@[1] as nat, 8, e));
    assert(data.subrange(88, 96) =~= int_bytes(m.features@[2] as nat, 8, e));
    assert(data.subrange(96, 104) =~= int_bytes(m.features@[3] as nat, 8, e));
    assert(spec_parse_header_fields(data, e).features@ =~= m.features@);
    assert(spec_parse_header_fields(data, e) =~= m);
}

} // verus!
