use vstd::prelude::*;

use crate::endian::Endianness;
use crate::error::ReadError;
use linux_perf_event_reader::{PerfEventAttr, RecordIdParseInfo, RecordParseInfo, RecordType};

verus! {

#[verifier::external_type_specification]
#[verifier::external_body]
pub struct ExPerfEventAttr(PerfEventAttr);

#[verifier::external_type_specification]
#[verifier::external_body]
pub struct ExRecordParseInfo(RecordParseInfo);

#[verifier::external_type_specification]
#[verifier::external_body]
pub struct ExRecordIdParseInfo(RecordIdParseInfo);

/// The self-reported size of the `perf_event_attr` at the start of the
/// bytes, when one parses there; whether it does, and the size it reports,
/// depend on the bytes and the byte order alone.
pub uninterp spec fn attr_parse_size(bytes: Seq<u8>, little: bool) -> Option<u64>;

/// Relies on `PerfEventAttr::parse`: it reads one `perf_event_attr` from the
/// start of the bytes and returns it together with the attribute's
/// self-reported size, which it checks against the fixed minimum of 64; it
/// fails when the bytes run out inside the fields it reads.
#[verifier::external_body]
pub fn parse_perf_event_attr(data: &[u8], e: Endianness) -> (r: Result<
    (PerfEventAttr, u64),
    ReadError,
>)
    ensures
        r is Ok <==> attr_parse_size(data@, e == Endianness::LittleEndian) is Some,
        r is Ok ==> Some(r->Ok_0.1) == attr_parse_size(data@, e == Endianness::LittleEndian),
        r is Ok ==> 64 <= r->Ok_0.1,
        r is Err ==> r->Err_0 == ReadError::PerfEventAttr,
{
    let mut cursor = std::io::Cursor::new(data);
    let res = match e {
        Endianness::LittleEndian => PerfEventAttr::parse::<_, byteorder::LittleEndian>(
            &mut cursor,
        ),
        Endianness::BigEndian => PerfEventAttr::parse::<_, byteorder::BigEndian>(&mut cursor),
    };
    res.map_err(|_| ReadError::PerfEventAttr)
}

/// Relies on `RecordParseInfo::new`: it derives the parse offsets from the
/// attribute's sample format and flags.
#[verifier::external_body]
pub fn record_parse_info_new(attr: &PerfEventAttr, e: Endianness) -> RecordParseInfo {
    let endian = match e {
        Endianness::LittleEndian => linux_perf_event_reader::Endianness::LittleEndian,
        Endianness::BigEndian => linux_perf_event_reader::Endianness::BigEndian,
    };
    RecordParseInfo::new(attr, endian)
}

/// Relies on the `id_parse_info` field of `RecordParseInfo`: the part of the
/// parse info that locates a record's event ID.
#[verifier::external_body]
pub fn record_id_parse_info_of(info: &RecordParseInfo) -> RecordIdParseInfo {
    info.id_parse_info
}

/// Relies on the derived `PartialEq` of `RecordIdParseInfo`: field equality.
#[verifier::external_body]
pub fn id_parse_infos_equal(a: &RecordIdParseInfo, b: &RecordIdParseInfo) -> bool {
    a == b
}

/// Relies on `AttrFlags::contains`: whether the attribute sets the
/// SAMPLE_ID_ALL flag.
#[verifier::external_body]
pub fn attr_has_sample_id_all(attr: &PerfEventAttr) -> bool {
    attr.flags.contains(linux_perf_event_reader::AttrFlags::SAMPLE_ID_ALL)
}

/// Relies on `SampleFormat::contains`: whether the attribute sets the
/// IDENTIFIER bit of its sample format.
#[verifier::external_body]
pub fn attr_has_identifier(attr: &PerfEventAttr) -> bool {
    attr.sample_format.contains(linux_perf_event_reader::SampleFormat::IDENTIFIER)
}

/// Relies on `get_record_id`: the event ID of a record body, read at the
/// offset the id parse info gives, when the body is long enough.
#[verifier::external_body]
pub fn record_id_of(
    record_type: u32,
    data: &[u8],
    e: Endianness,
    info: &RecordIdParseInfo,
) -> Option<u64> {
    let rt = RecordType(record_type);
    let raw = linux_perf_event_reader::RawData::from(data);
    match e {
        Endianness::LittleEndian => linux_perf_event_reader::get_record_id::<
            byteorder::LittleEndian,
        >(rt, raw, info),
        Endianness::BigEndian => linux_perf_event_reader::get_record_id::<byteorder::BigEndian>(
            rt,
            raw,
            info,
        ),
    }
}

/// The event ID that the IDENTIFIER scheme reads from a record body: a
/// function of the record type, the body bytes, the byte order and the
/// SAMPLE_ID_ALL setting alone.
pub uninterp spec fn record_identifier_spec(
    record_type: u32,
    data: Seq<u8>,
    little: bool,
    sample_id_all: bool,
) -> Option<u64>;

/// Relies on `get_record_identifier`: the event ID of a record body when
/// every attribute sets IDENTIFIER, read from the position that the record
/// type and the SAMPLE_ID_ALL setting determine.
#[verifier::external_body]
pub fn record_identifier_of(
    record_type: u32,
    data: &[u8],
    e: Endianness,
    sample_id_all: bool,
) -> (r: Option<u64>)
    ensures
        r == record_identifier_spec(
            record_type,
            data@,
            e == Endianness::LittleEndian,
            sample_id_all,
        ),
{
    let rt = RecordType(record_type);
    let raw = linux_perf_event_reader::RawData::from(data);
    match e {
        Endianness::LittleEndian => linux_perf_event_reader::get_record_identifier::<
            byteorder::LittleEndian,
        >(rt, raw, sample_id_all),
        Endianness::BigEndian => linux_perf_event_reader::get_record_identifier::<
            byteorder::BigEndian,
        >(rt, raw, sample_id_all),
    }
}

/// Relies on `get_record_timestamp`: the timestamp of a record body, read at
/// the offset the parse info gives, when the body carries one.
#[verifier::external_body]
pub fn record_timestamp_of(
    record_type: u32,
    data: &[u8],
    e: Endianness,
    info: &RecordParseInfo,
) -> Option<u64> {
    let rt = RecordType(record_type);
    let raw = linux_perf_event_reader::RawData::from(data);
    match e {
        Endianness::LittleEndian => linux_perf_event_reader::get_record_timestamp::<
            byteorder::LittleEndian,
        >(rt, raw, info),
        Endianness::BigEndian => linux_perf_event_reader::get_record_timestamp::<
            byteorder::BigEndian,
        >(rt, raw, info),
    }
}

} // verus!
