use vstd::prelude::*;

use crate::auxtrace::Auxtrace;
use crate::buf;
use crate::endian::{int_value, read_u16, read_u32, read_u64, Endianness};
use crate::error::Error;
use crate::thread_map::ThreadMap;
use linux_perf_event_reader::{PerfEventAttr, RecordParseInfo};

verus! {

/// The number of bytes of a `perf_event_header`.
pub const PERF_EVENT_HEADER_SIZE: usize = 8;

/// The record type value at which user (tool-synthesized) records start;
/// records below it come from the kernel.
pub const PERF_RECORD_USER_TYPE_START: u32 = 64;

pub const PERF_RECORD_HEADER_ATTR: u32 = 64;
pub const PERF_RECORD_HEADER_EVENT_TYPE: u32 = 65;
pub const PERF_RECORD_HEADER_TRACING_DATA: u32 = 66;
pub const PERF_RECORD_HEADER_BUILD_ID: u32 = 67;
pub const PERF_RECORD_FINISHED_ROUND: u32 = 68;
pub const PERF_RECORD_ID_INDEX: u32 = 69;
pub const PERF_RECORD_AUXTRACE_INFO: u32 = 70;
pub const PERF_RECORD_AUXTRACE: u32 = 71;
pub const PERF_RECORD_AUXTRACE_ERROR: u32 = 72;
pub const PERF_RECORD_THREAD_MAP: u32 = 73;
pub const PERF_RECORD_CPU_MAP: u32 = 74;
pub const PERF_RECORD_STAT_CONFIG: u32 = 75;
pub const PERF_RECORD_STAT: u32 = 76;
pub const PERF_RECORD_STAT_ROUND: u32 = 77;
pub const PERF_RECORD_EVENT_UPDATE: u32 = 78;
pub const PERF_RECORD_TIME_CONV: u32 = 79;
pub const PERF_RECORD_HEADER_FEATURE: u32 = 80;
pub const PERF_RECORD_COMPRESSED: u32 = 81;
pub const PERF_RECORD_FINISHED_INIT: u32 = 82;
pub const PERF_RECORD_COMPRESSED2: u32 = 83;

pub const SIMPLE_PERF_RECORD_KERNEL_SYMBOL: u32 = 32769;
pub const SIMPLE_PERF_RECORD_DSO: u32 = 32770;
pub const SIMPLE_PERF_RECORD_SYMBOL: u32 = 32771;
pub const SIMPLE_PERF_RECORD_SPLIT: u32 = 32772;
pub const SIMPLE_PERF_RECORD_SPLIT_END: u32 = 32773;
pub const SIMPLE_PERF_RECORD_EVENT_ID: u32 = 32774;
pub const SIMPLE_PERF_RECORD_CALLCHAIN: u32 = 32775;
pub const SIMPLE_PERF_RECORD_UNWINDING_RESULT: u32 = 32776;
pub const SIMPLE_PERF_RECORD_TRACING_DATA: u32 = 32777;

/// `perf_event_header`: the eight bytes in front of every record in the data
/// stream.
#[derive(Debug, Clone, Copy, PartialEq, Eq, Structural)]
pub struct PerfEventHeader {
    pub type_: u32,
    pub misc: u16,
    pub size: u16,
}

/// The event header whose bytes start at `pos` of `data`.
pub open spec fn spec_parse_event_header(data: Seq<u8>, pos: int, e: Endianness) -> PerfEventHeader {
    PerfEventHeader {
        type_: int_value(data.subrange(pos, pos + 4), e) as u32,
        misc: int_value(data.subrange(pos + 4, pos + 6), e) as u16,
        size: int_value(data.subrange(pos + 6, pos + 8), e) as u16,
    }
}

impl PerfEventHeader {
    /// Reads a record header from `data` at `pos`.
    pub fn parse(data: &[u8], pos: usize, e: Endianness) -> (r: Self)
        requires
            pos + PERF_EVENT_HEADER_SIZE <= data@.len(),
        ensures
            r == spec_parse_event_header(data@, pos as int, e),
    {
        let n = data.len();
        proof {
            assert(pos + 8 <= n);
        }
        let type_ = read_u32(data, pos, e);
        let misc = read_u16(data, pos + 4, e);
        let size = read_u16(data, pos + 6, e);
        PerfEventHeader { type_, misc, size }
    }
}

/// Whether a record type value denotes a user (tool-synthesized) record
/// rather than a kernel record.
pub open spec fn spec_is_user_type(t: u32) -> bool {
    t >= 64
}

/// A record type for which `spec_is_user_type` holds.
#[derive(Debug, Clone, Copy, PartialEq, Eq, Structural)]
pub struct UserRecordType(pub u32);

impl UserRecordType {
    /// Wraps a record type value, if it lies in the user range.
    pub fn try_from(record_type: u32) -> (r: Option<Self>)
        ensures
            r is Some <==> spec_is_user_type(record_type),
            r is Some ==> r->0 == UserRecordType(record_type),
    {
        if record_type >= PERF_RECORD_USER_TYPE_START {
            Some(UserRecordType(record_type))
        } else {
            None
        }
    }

    /// The wrapped record type value.
    pub fn record_type(&self) -> (r: u32)
        ensures
            r == self.0,
    {
        self.0
    }
}


/// Whether a complete record sits at the front of `b`: its header is there,
/// its declared size covers at least the header, and its bytes are all there.
pub open spec fn has_complete_record(b: Seq<u8>, e: Endianness) -> bool {
    let h = spec_parse_event_header(b, 0, e);
    b.len() >= 8 && h.size >= 8 && h.size <= b.len()
}

/// The complete records at the front of a byte stream, each as its header
/// and its body bytes, up to the first incomplete or malformed one.
pub open spec fn complete_records(b: Seq<u8>, e: Endianness) -> Seq<(PerfEventHeader, Seq<u8>)>
    decreases b.len(),
{
    if has_complete_record(b, e) {
        let h = spec_parse_event_header(b, 0, e);
        seq![(h, b.subrange(8, h.size as int))] + complete_records(b.skip(h.size as int), e)
    } else {
        Seq::empty()
    }
}

/// What remains of a byte stream after its complete records: the trailing
/// bytes that the next chunk must complete.
pub open spec fn scan_leftover(b: Seq<u8>, e: Endianness) -> Seq<u8>
    decreases b.len(),
{
    if has_complete_record(b, e) {
        scan_leftover(b.skip(spec_parse_event_header(b, 0, e).size as int), e)
    } else {
        b
    }
}

/// Chunk-boundary carry: scanning a stream in two chunks, with the leftover
/// of the first prepended to the second, yields exactly the records of the
/// whole stream — a record that straddles the boundary is parsed whole from
/// the carried bytes.
pub proof fn lemma_chunked_scan(b1: Seq<u8>, b2: Seq<u8>, e: Endianness)
    ensures
        complete_records(b1 + b2, e) == complete_records(b1, e) + complete_records(
            scan_leftover(b1, e) + b2,
            e,
        ),
        scan_leftover(b1 + b2, e) == scan_leftover(scan_leftover(b1, e) + b2, e),
    decreases b1.len(),
{
    if has_complete_record(b1, e) {
        let h = spec_parse_event_header(b1, 0, e);
        let sz = h.size as int;
        assert((b1 + b2).subrange(0, 4) =~= b1.subrange(0, 4));
        assert((b1 + b2).subrange(4, 6) =~= b1.subrange(4, 6));
        assert((b1 + b2).subrange(6, 8) =~= b1.subrange(6, 8));
        assert(spec_parse_event_header(b1 + b2, 0, e) == h);
        assert(has_complete_record(b1 + b2, e));
        assert((b1 + b2).subrange(8, sz) =~= b1.subrange(8, sz));
        assert((b1 + b2).skip(sz) =~= b1.skip(sz) + b2);
        lemma_chunked_scan(b1.skip(sz), b2, e);
        assert(complete_records(b1 + b2, e) =~= complete_records(b1, e) + complete_records(
            scan_leftover(b1, e) + b2,
            e,
        ));
    } else {
        // Nothing of `b1` was complete: the carried bytes are all of it.
        assert(scan_leftover(b1, e) =~= b1);
        assert(scan_leftover(b1, e) + b2 =~= b1 + b2);
        assert(complete_records(b1, e) + complete_records(b1 + b2, e) =~= complete_records(
            b1 + b2,
            e,
        ));
    }
}

/// A raw kernel-emitted event record: its type, its `misc` flags, its body
/// bytes, and the parse info of the attribute it belongs to.
pub struct RawEventRecord {
    /// The record type. Below `PERF_RECORD_USER_TYPE_START`.
    pub record_type: u32,
    /// The `misc` flags of the record header.
    pub misc: u16,
    /// The body bytes, after the event header.
    pub data: Vec<u8>,
    /// How to locate ids and timestamps in records of this attribute.
    pub parse_info: RecordParseInfo,
}

/// A raw user record.
///
/// Can be turned into a parsed [`UserRecord`] using [`RawUserRecord::parse`].
pub struct RawUserRecord {
    pub record_type: UserRecordType,
    pub endian: Endianness,
    pub misc: u16,
    pub data: Vec<u8>,
}

/// A record from a perf.data file's data stream: either a record emitted by
/// the kernel for a perf event, or a record synthesized by a user-space tool
/// like `perf`.
pub enum PerfFileRecord {
    /// Emitted by the kernel for a perf event.
    EventRecord {
        /// An index into the event attribute list: the attribute this record
        /// belongs to.
        attr_index: usize,
        /// The record.
        record: RawEventRecord,
    },
    /// Synthesized by a user space tool, for example by `perf` or by
    /// `simpleperf`.
    UserRecord(RawUserRecord),
}

/// PERF_RECORD_HEADER_ATTR: an event attribute with its event IDs, sent
/// inline in pipe mode in place of the attribute section of a file.
pub struct HeaderAttr {
    pub attr: PerfEventAttr,
    pub ids: Vec<u64>,
}

/// The `u64` values that fill `data` from `pos` to its end, as many as fit.
pub open spec fn trailing_ids(data: Seq<u8>, pos: int, e: Endianness) -> Seq<u64> {
    Seq::new(
        (if pos <= data.len() {
            (data.len() - pos) / 8
        } else {
            0
        }) as nat,
        |k: int| int_value(data.subrange(pos + 8 * k, pos + 8 * k + 8), e) as u64,
    )
}

impl HeaderAttr {
    /// Reads a HEADER_ATTR record body: one `perf_event_attr` followed by
    /// event IDs filling the rest of the body.
    pub fn parse(data: &[u8], e: Endianness) -> (r: Result<HeaderAttr, Error>)
        ensures
            r is Ok <==> crate::attr_info::attr_parse_size(
                data@,
                e == Endianness::LittleEndian,
            ) is Some,
            r is Ok ==> r->Ok_0.ids@ == trailing_ids(
                data@,
                crate::attr_info::attr_parse_size(data@, e == Endianness::LittleEndian)->0 as int,
                e,
            ),
            r is Err ==> r->Err_0 == Error::Read(crate::error::ReadError::PerfEventAttr),
    {
        let (attr, attr_size) = match crate::attr_info::parse_perf_event_attr(data, e) {
            Ok(pair) => pair,
            Err(err) => {
                return Err(Error::Read(err));
            }
        };
        let n = data.len();
        if attr_size > n as u64 {
            // A declared size beyond the body: there is no room for ids.
            proof {
                assert(trailing_ids(data@, attr_size as int, e) =~= Seq::<u64>::empty());
            }
            return Ok(HeaderAttr { attr, ids: Vec::new() });
        }
        let ghost sz = attr_size as int;
        let mut pos = attr_size as usize;
        let mut ids: Vec<u64> = Vec::new();
        if n >= 8 {
            while pos <= n - 8
                invariant
                    n == data@.len(),
                    n >= 8,
                    sz <= pos <= n,
                    pos == sz + 8 * ids@.len(),
                    forall|k: int|
                        0 <= k < ids@.len() ==> ids@[k] == int_value(
                            #[trigger] data@.subrange(sz + 8 * k, sz + 8 * k + 8),
                            e,
                        ),
                decreases n - pos,
            {
                ids.push(read_u64(data, pos, e));
                pos = pos + 8;
            }
        }
        proof {
            assert(ids@.len() == (n - sz) / 8) by (nonlinear_arith)
                requires
                    sz + 8 * ids@.len() <= n,
                    n < sz + 8 * ids@.len() + 8,
            ;
            assert(ids@ =~= trailing_ids(data@, sz, e));
        }
        Ok(HeaderAttr { attr, ids })
    }
}

/// PERF_RECORD_HEADER_FEATURE: one feature section's data, sent inline in
/// pipe mode in place of the feature sections of a file.
#[derive(Debug, Clone, PartialEq, Eq)]
pub struct HeaderFeature {
    /// The feature's bit index. Unknown indices are kept as they are.
    pub feature: u32,
    /// The feature section's bytes.
    pub data: Vec<u8>,
}

impl HeaderFeature {
    /// Reads a HEADER_FEATURE record body: a `u64` feature index followed by
    /// the feature section's bytes.
    pub fn parse(data: &[u8], e: Endianness) -> (r: Result<HeaderFeature, Error>)
        ensures
            r is Ok <==> data@.len() >= 8,
            r is Ok ==> {
                let hf = r->Ok_0;
                &&& hf.feature == int_value(data@.subrange(0, 8), e) % 0x1_0000_0000
                &&& hf.data@ == data@.subrange(8, data@.len() as int)
            },
            r is Err ==> r->Err_0 == Error::Truncated,
    {
        if data.len() < 8 {
            return Err(Error::Truncated);
        }
        let feature_wide = read_u64(data, 0, e);
        let feature = (feature_wide % 0x1_0000_0000) as u32;
        let payload = buf::copy_range(data, 8, data.len());
        Ok(HeaderFeature { feature, data: payload })
    }
}

/// A parsed user record.
pub enum UserRecord {
    ThreadMap(ThreadMap),
    HeaderAttr(HeaderAttr),
    HeaderFeature(HeaderFeature),
    Auxtrace(Auxtrace),
    /// Any user record type this crate does not parse further.
    Raw(RawUserRecord),
}

impl RawUserRecord {
    /// Parses the record body according to the record type. Types without a
    /// parser are handed back raw.
    pub fn parse(self) -> (r: Result<UserRecord, Error>)
        ensures
            self.record_type.0 == PERF_RECORD_THREAD_MAP && r is Ok ==> r->Ok_0 is ThreadMap,
            self.record_type.0 == PERF_RECORD_THREAD_MAP ==> (r is Ok <==> self.data@.len() >= 8
                && 8 + int_value(self.data@.subrange(0, 8), self.endian) * 24
                <= self.data@.len()),
            self.record_type.0 == PERF_RECORD_HEADER_ATTR && r is Ok ==> r->Ok_0 is HeaderAttr,
            self.record_type.0 == PERF_RECORD_HEADER_ATTR ==> (r is Ok
                <==> crate::attr_info::attr_parse_size(
                self.data@,
                self.endian == Endianness::LittleEndian,
            ) is Some),
            self.record_type.0 == PERF_RECORD_HEADER_FEATURE && r is Ok ==> r->Ok_0
                is HeaderFeature,
            self.record_type.0 == PERF_RECORD_HEADER_FEATURE ==> (r is Ok <==> self.data@.len()
                >= 8),
            self.record_type.0 == PERF_RECORD_AUXTRACE && r is Ok ==> r->Ok_0 is Auxtrace,
            self.record_type.0 == PERF_RECORD_AUXTRACE ==> (r is Ok <==> self.data@.len()
                >= crate::auxtrace::AUXTRACE_FIXED_SIZE),
            self.record_type.0 != PERF_RECORD_THREAD_MAP && self.record_type.0
                != PERF_RECORD_HEADER_ATTR && self.record_type.0 != PERF_RECORD_HEADER_FEATURE
                && self.record_type.0 != PERF_RECORD_AUXTRACE ==> r == Ok::<UserRecord, Error>(
                UserRecord::Raw(self),
            ),
    {
        let t = self.record_type.0;
        let record = if t == PERF_RECORD_HEADER_ATTR {
            UserRecord::HeaderAttr(
                match HeaderAttr::parse(self.data.as_slice(), self.endian) {
                    Ok(v) => v,
                    Err(err) => {
                        return Err(err);
                    }
                },
            )
        } else if t == PERF_RECORD_THREAD_MAP {
            UserRecord::ThreadMap(
                match ThreadMap::parse(self.data.as_slice(), self.endian) {
                    Ok(v) => v,
                    Err(err) => {
                        return Err(err);
                    }
                },
            )
        } else if t == PERF_RECORD_HEADER_FEATURE {
            UserRecord::HeaderFeature(
                match HeaderFeature::parse(self.data.as_slice(), self.endian) {
                    Ok(v) => v,
                    Err(err) => {
                        return Err(err);
                    }
                },
            )
        } else if t == PERF_RECORD_AUXTRACE {
            UserRecord::Auxtrace(
                match Auxtrace::parse(self.data.as_slice(), self.endian) {
                    Ok(v) => v,
                    Err(err) => {
                        return Err(err);
                    }
                },
            )
        } else {
            UserRecord::Raw(self)
        };
        Ok(record)
    }
}

} // verus!
