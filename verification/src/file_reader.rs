use vstd::prelude::*;

use crate::attr_info;
use crate::buf;
use crate::decompression::ZstdDecompressor;
use crate::endian::{read_u64, Endianness};
use crate::error::{Error, ReadError};
use crate::feature_sections::AttributeDescription;
use crate::features::{Feature, FeatureSet};
use crate::header::{PerfHeader, PerfPipeHeader, PERF_HEADER_SIZE, PERF_PIPE_HEADER_SIZE};
use crate::linmap;
use crate::perf_file::PerfFile;
use crate::records::{HeaderAttr, HeaderFeature, PerfEventHeader, PerfFileRecord, RawEventRecord,
    RawUserRecord, UserRecordType, PERF_EVENT_HEADER_SIZE, PERF_RECORD_COMPRESSED,
    PERF_RECORD_COMPRESSED2, PERF_RECORD_FINISHED_ROUND, PERF_RECORD_HEADER_ATTR,
    PERF_RECORD_HEADER_FEATURE, PERF_RECORD_USER_TYPE_START, spec_is_user_type};
use crate::section::{PerfFileSection, SECTION_STRUCT_SIZE};
use crate::simpleperf;
use crate::sorter::Sorter;
use linux_perf_event_reader::{RecordIdParseInfo, RecordParseInfo};
use std::collections::HashMap;

verus! {

broadcast use vstd::std_specs::hash::group_hash_axioms;

/// How the event ID of an incoming record is found, chosen once per file.
pub enum IdParseInfos {
    /// There is only one event; every record belongs to it.
    OnlyOneEvent,
    /// There are multiple events, but all share one ID layout.
    Same(RecordIdParseInfo),
    /// Every attribute sets IDENTIFIER; the payload carries whether they all
    /// set SAMPLE_ID_ALL.
    PerAttribute(bool),
}

/// The shape of an [`IdParseInfos`] value, without the opaque layout.
#[derive(PartialEq, Eq, Structural)]
pub enum IdSchemeShape {
    OnlyOne,
    Same,
    PerAttribute(bool),
}

impl IdParseInfos {
    /// The shape of this choice.
    pub open spec fn shape(&self) -> IdSchemeShape {
        match self {
            IdParseInfos::OnlyOneEvent => IdSchemeShape::OnlyOne,
            IdParseInfos::Same(_) => IdSchemeShape::Same,
            IdParseInfos::PerAttribute(b) => IdSchemeShape::PerAttribute(*b),
        }
    }
}

/// The identification scheme that the rules of the format assign to a file
/// whose attributes have the given properties: one event needs no scheme;
/// multiple events sharing an ID layout use that layout; otherwise every
/// attribute must set IDENTIFIER and they must agree on SAMPLE_ID_ALL.
pub open spec fn spec_classify(same: Seq<bool>, has_id: Seq<bool>, sia: Seq<bool>) -> Result<
    IdSchemeShape,
    Error,
> {
    if same.len() == 1 {
        Ok(IdSchemeShape::OnlyOne)
    } else if forall|k: int| 1 <= k < same.len() ==> #[trigger] same[k] {
        Ok(IdSchemeShape::Same)
    } else {
        spec_classify_scan(has_id, sia, 0)
    }
}

/// The first attribute, from `i` up, that breaks the per-attribute rules,
/// reported as the matching error; the scheme when none does.
pub open spec fn spec_classify_scan(has_id: Seq<bool>, sia: Seq<bool>, i: int) -> Result<
    IdSchemeShape,
    Error,
>
    decreases has_id.len() - i,
{
    if i < 0 || i >= has_id.len() {
        Ok(IdSchemeShape::PerAttribute(sia[0]))
    } else if !has_id[i] {
        Err(Error::NoIdentifierDespiteMultiEvent(i as usize))
    } else if sia[i] != sia[0] {
        Err(Error::InconsistentSampleIdAllWithMultiEvent(i as usize))
    } else {
        spec_classify_scan(has_id, sia, i + 1)
    }
}

/// A scan failure is always one of the two per-attribute errors.
proof fn lemma_classify_scan_err_shape(has_id: Seq<bool>, sia: Seq<bool>, i: int)
    ensures
        spec_classify_scan(has_id, sia, i) is Err ==> (spec_classify_scan(has_id, sia, i)->Err_0
            is NoIdentifierDespiteMultiEvent || spec_classify_scan(has_id, sia, i)->Err_0
            is InconsistentSampleIdAllWithMultiEvent),
    decreases has_id.len() - i,
{
    if 0 <= i < has_id.len() && has_id[i] && sia[i] == sia[0] {
        lemma_classify_scan_err_shape(has_id, sia, i + 1);
    }
}

/// Chooses the identification scheme for a file. `same_as_first[k]` says
/// whether attribute `k` shares the first attribute's ID layout, whose value
/// is `first_info`; the other two vectors carry the IDENTIFIER bit and the
/// SAMPLE_ID_ALL flag of each attribute.
pub fn classify_id_parse_infos(
    same_as_first: &Vec<bool>,
    has_identifier: &Vec<bool>,
    has_sample_id_all: &Vec<bool>,
    first_info: RecordIdParseInfo,
) -> (r: Result<IdParseInfos, Error>)
    requires
        same_as_first@.len() >= 1,
        has_identifier@.len() == same_as_first@.len(),
        has_sample_id_all@.len() == same_as_first@.len(),
    ensures
        match r {
            Ok(scheme) => spec_classify(same_as_first@, has_identifier@, has_sample_id_all@)
                == Ok::<IdSchemeShape, Error>(scheme.shape()),
            Err(err) => spec_classify(same_as_first@, has_identifier@, has_sample_id_all@)
                == Err::<IdSchemeShape, Error>(err),
        },
{
    let n = same_as_first.len();
    if n == 1 {
        return Ok(IdParseInfos::OnlyOneEvent);
    }
    let mut all_same = true;
    let mut k: usize = 1;
    while k < n
        invariant
            1 <= k <= n,
            n == same_as_first@.len(),
            all_same == forall|j: int| 1 <= j < k ==> #[trigger] same_as_first@[j],
        decreases n - k,
    {
        if !same_as_first[k] {
            all_same = false;
        }
        k = k + 1;
    }
    if all_same {
        return Ok(IdParseInfos::Same(first_info));
    }
    // Make sure that all attributes have IDENTIFIER and agree on
    // SAMPLE_ID_ALL. Otherwise there is no way to know which attr a record
    // belongs to: that takes the record's ID, and the ID can only be read
    // when its location does not depend on the attr.
    let first_sia = has_sample_id_all[0];
    let mut i: usize = 0;
    while i < n
        invariant
            i <= n,
            n == has_identifier@.len() == has_sample_id_all@.len(),
            n == same_as_first@.len(),
            n >= 2,
            !(forall|j: int| 1 <= j < same_as_first@.len() ==> #[trigger] same_as_first@[j]),
            first_sia == has_sample_id_all@[0],
            spec_classify_scan(has_identifier@, has_sample_id_all@, 0) == spec_classify_scan(
                has_identifier@,
                has_sample_id_all@,
                i as int,
            ),
        decreases n - i,
    {
        if !has_identifier[i] {
            return Err(Error::NoIdentifierDespiteMultiEvent(i));
        }
        if has_sample_id_all[i] != first_sia {
            return Err(Error::InconsistentSampleIdAllWithMultiEvent(i));
        }
        i = i + 1;
    }
    Ok(IdParseInfos::PerAttribute(first_sia))
}

/// The attribute index that a resolved event ID selects: the mapped index
/// when the ID is known, index 0 when the ID is missing or unmapped.
pub fn resolve_attr_index(id: Option<u64>, map: &HashMap<u64, usize>) -> (r: usize)
    ensures
        match id {
            Some(id_val) => r == if map@.contains_key(id_val) {
                map@[id_val]
            } else {
                0
            },
            None => r == 0,
        },
{
    match id {
        Some(id_val) => {
            match map.get(&id_val) {
                Some(index) => *index,
                None => 0,
            }
        }
        None => 0,
    }
}

/// A sort key of the round sorter: the record's timestamp, when it has one,
/// with a monotonically increasing arrival number as the tiebreak.
#[derive(Debug, Clone, Copy, PartialEq, Eq, Structural)]
pub struct RecordSortKey {
    /// The record's timestamp; user records have none.
    pub timestamp: Option<u64>,
    /// The arrival number: the position of the record in the file.
    pub offset: u64,
}

/// The largest arrival number the sorter keys can tell apart. A record takes
/// at least eight bytes, so no input in an addressable buffer reaches it.
pub const MAX_ARRIVAL: u64 = 0x7FFF_FFFF_FFFF_FFFF;

/// The packed order of a sort key: records without a timestamp first, then
/// by timestamp, and the arrival number as the tiebreak.
pub open spec fn spec_sort_key(timestamp: Option<u64>, offset: u64) -> u128 {
    ((match timestamp {
        Option::None => 0u128,
        Option::Some(t) => (t + 1) as u128,
    }) * 0x8000_0000_0000_0000 + offset) as u128
}

impl RecordSortKey {
    /// Packs the key for the round sorter.
    pub fn as_sort_key(&self) -> (r: u128)
        requires
            self.offset <= MAX_ARRIVAL,
        ensures
            r == spec_sort_key(self.timestamp, self.offset),
    {
        let high: u128 = match self.timestamp {
            Option::None => 0,
            Option::Some(t) => (t as u128) + 1,
        };
        high * 0x8000_0000_0000_0000 + (self.offset as u128)
    }
}

/// The packed keys order exactly as the pairs do lexicographically, with a
/// missing timestamp below every present one.
pub proof fn lemma_sort_key_order(a_ts: Option<u64>, a_off: u64, b_ts: Option<u64>, b_off: u64)
    requires
        a_off <= MAX_ARRIVAL,
        b_off <= MAX_ARRIVAL,
    ensures
        (spec_sort_key(a_ts, a_off) <= spec_sort_key(b_ts, b_off)) <==> {
            let ah = match a_ts {
                Option::None => 0u128,
                Option::Some(t) => (t + 1) as u128,
            };
            let bh = match b_ts {
                Option::None => 0u128,
                Option::Some(t) => (t + 1) as u128,
            };
            ah < bh || (ah == bh && a_off <= b_off)
        },
{
    let ah = match a_ts {
        Option::None => 0u128,
        Option::Some(t) => (t + 1) as u128,
    };
    let bh = match b_ts {
        Option::None => 0u128,
        Option::Some(t) => (t + 1) as u128,
    };
    assert((ah * 0x8000_0000_0000_0000 + a_off <= bh * 0x8000_0000_0000_0000 + b_off) <==> (ah
        < bh || (ah == bh && a_off <= b_off))) by (nonlinear_arith)
        requires
            a_off < 0x8000_0000_0000_0000,
            b_off < 0x8000_0000_0000_0000,
            ah <= 0x1_0000_0000_0000_0000,
            bh <= 0x1_0000_0000_0000_0000,
    ;
}

/// A record waiting in the round sorter.
pub struct PendingRecord {
    record_type: u32,
    misc: u16,
    buffer: Vec<u8>,
    attr_index: Option<usize>,
}

/// Whether a pending record is consistent with an attribute table of `n`
/// entries: user records carry no attribute, event records carry one in
/// range.
spec fn pending_ok(p: PendingRecord, n: int) -> bool {
    if spec_is_user_type(p.record_type) {
        p.attr_index is None
    } else {
        p.attr_index is Some && p.attr_index->0 < n
    }
}

/// Whether the record starting at `p` cannot be read from the data ending at
/// `end`: its header is cut off, its declared size is below the header size,
/// its body is cut off, or it is a COMPRESSED2 record whose declared
/// compressed length does not fit its body.
pub open spec fn bad_record_at(data: Seq<u8>, p: int, end: int, e: Endianness) -> bool {
    let h = crate::records::spec_parse_event_header(data, p, e);
    ||| end - p < 8
    ||| h.size < 8
    ||| p + h.size > end
    ||| (h.type_ == PERF_RECORD_COMPRESSED2 && (h.size < 16 || crate::endian::int_value(
        data.subrange(p + 8, p + 16),
        e,
    ) > h.size - 16))
}

/// A value counted in the multiset of a sequence of consistent records is
/// itself consistent.
proof fn lemma_counted_pending_ok(s: Seq<(u128, PendingRecord)>, n: int, x: (u128, PendingRecord))
    requires
        forall|i: int| 0 <= i < s.len() ==> pending_ok((#[trigger] s[i]).1, n),
        s.to_multiset().count(x) > 0,
    ensures
        pending_ok(x.1, n),
{
    broadcast use vstd::seq_lib::group_to_multiset_ensures;

    assert(s.contains(x));
    let j = choose|j: int| 0 <= j < s.len() && s[j] == x;
    assert(pending_ok(s[j].1, n));
}

/// The id map is faithful to the attribute list: every mapped event ID leads
/// to an attribute whose id list holds that ID, and every listed ID is
/// mapped. With [`resolve_attr_index`], this is how a record is attached to
/// exactly one attribute; an unmapped ID falls back to attribute 0.
pub open spec fn id_map_matches(m: Map<u64, usize>, attrs: Seq<AttributeDescription>) -> bool {
    &&& forall|k: u64|
        m.contains_key(k) ==> #[trigger] m[k] < attrs.len() && attrs[m[k] as int].event_ids@.contains(
            k,
        )
    &&& forall|i: int, j: int|
        0 <= i < attrs.len() && 0 <= j < attrs[i].event_ids@.len() ==> m.contains_key(
            #[trigger] attrs[i].event_ids@[j],
        )
}

/// A parser for the perf.data file format: the result of opening a file or a
/// pipe-mode stream.
///
/// Holds the parsed metadata ([`PerfFile`]) and the iterator over the records
/// of the data stream ([`PerfRecordIter`]).
pub struct PerfFileReader {
    pub perf_file: PerfFile,
    pub record_iter: PerfRecordIter,
}

/// An iterator which incrementally reads and sorts the records from a
/// perf.data file.
pub struct PerfRecordIter {
    /// The file or stream bytes.
    data: Vec<u8>,
    endian: Endianness,
    /// The position of the next unread record.
    pos: usize,
    /// The end of the record data.
    end: usize,
    /// Whether the bytes are a pipe-mode stream, whose record data simply
    /// ends at the end of the bytes.
    pipe_mode: bool,
    id_parse_infos: IdParseInfos,
    /// One entry per attribute; never empty.
    parse_infos: Vec<RecordParseInfo>,
    event_id_to_attr_index: HashMap<u64, usize>,
    sorter: Sorter<PendingRecord>,
    decompressor: ZstdDecompressor,
    /// For pipe mode: the first non-metadata record, read during
    /// initialization.
    pending_first_record: Option<(PerfEventHeader, Vec<u8>)>,
    /// The arrival number of the next record: the tiebreak of the sort key.
    arrival: u64,
}

impl PerfRecordIter {
    /// The iterator's invariant: the position lies in the record data, the
    /// attribute table is not empty, and every buffered record refers to an
    /// attribute that exists.
    pub closed spec fn wf(&self) -> bool {
        &&& self.sorter.wf()
        &&& self.parse_infos@.len() >= 1
        &&& self.pos <= self.end <= self.data@.len()
        &&& forall|i: int|
            0 <= i < self.sorter.ready().len() ==> pending_ok(
                (#[trigger] self.sorter.ready()[i]).1,
                self.parse_infos@.len() as int,
            )
        &&& forall|i: int|
            0 <= i < self.sorter.pending().len() ==> pending_ok(
                (#[trigger] self.sorter.pending()[i]).1,
                self.parse_infos@.len() as int,
            )
        &&& forall|k: u64|
            self.event_id_to_attr_index@.contains_key(k)
                ==> #[trigger] self.event_id_to_attr_index@[k] < self.parse_infos@.len()
        &&& self.arrival <= MAX_ARRIVAL
    }

    /// The number of attributes the iterator resolves records against.
    pub closed spec fn attr_count(&self) -> int {
        self.parse_infos@.len() as int
    }

    /// The map from event ID to attribute index that record resolution uses.
    pub closed spec fn id_map(&self) -> Map<u64, usize> {
        self.event_id_to_attr_index@
    }

    /// The file endian.
    pub fn endian(&self) -> (r: Endianness)
        ensures
            r == self.spec_endian(),
    {
        self.endian
    }

    /// The file endian.
    pub closed spec fn spec_endian(&self) -> Endianness {
        self.endian
    }

    /// Whether every record batched so far respected the producer's round
    /// contract: no record's key fell below the bound its round had already
    /// promised.
    pub closed spec fn rounds_respected(&self) -> bool {
        self.sorter.contract_kept()
    }

    /// The plaintext tail carried from the last compressed chunk, waiting
    /// for the next chunk to complete it.
    pub closed spec fn carried(&self) -> Seq<u8> {
        self.decompressor.carried()
    }

    /// The records buffered for emission, oldest first, each with its key.
    pub closed spec fn buffered(&self) -> Seq<(u128, PendingRecord)> {
        self.sorter.ready()
    }

    /// Whether the iterator reads a pipe-mode stream.
    pub closed spec fn is_pipe(&self) -> bool {
        self.pipe_mode
    }

    /// The position of the next unread record.
    pub closed spec fn stream_pos(&self) -> int {
        self.pos as int
    }

    /// The end of the record data.
    pub closed spec fn stream_end(&self) -> int {
        self.end as int
    }

    /// The bytes the iterator reads.
    pub closed spec fn stream_data(&self) -> Seq<u8> {
        self.data@
    }

    /// Nothing is left: the data was read to its end, and every record has
    /// been emitted.
    pub closed spec fn exhausted(&self) -> bool {
        &&& self.pos == self.end
        &&& self.sorter.ready().len() == 0
        &&& self.sorter.pending().len() == 0
        &&& self.pending_first_record is None
    }

    /// Whether the emitted record carries exactly the head buffered record's
    /// type, flags, body and attribute.
    pub closed spec fn record_of_pending(&self, p: PendingRecord, rec: PerfFileRecord) -> bool {
        match rec {
            PerfFileRecord::UserRecord(u) => {
                &&& spec_is_user_type(p.record_type)
                &&& u.record_type.0 == p.record_type
                &&& u.misc == p.misc
                &&& u.data == p.buffer
                &&& u.endian == self.endian
            }
            PerfFileRecord::EventRecord { attr_index, record } => {
                &&& !spec_is_user_type(p.record_type)
                &&& Some(attr_index) == p.attr_index
                &&& record.record_type == p.record_type
                &&& record.misc == p.misc
                &&& record.data == p.buffer
            }
        }
    }

    /// The sort keys of the records that are buffered, in emission order.
    pub closed spec fn buffered_keys(&self) -> Seq<u128> {
        Seq::new(self.sorter.ready().len(), |i: int| self.sorter.ready()[i].0)
    }

    /// Ordering: while the input respected the round contract, the buffered
    /// records stand in non-decreasing key order — the key being the packed
    /// (timestamp, arrival) pair — so they are emitted sorted by time.
    pub proof fn lemma_emission_sorted(&self)
        requires
            self.wf(),
            self.rounds_respected(),
        ensures
            forall|i: int, j: int|
                0 <= i < j < self.buffered_keys().len() ==> #[trigger] self.buffered_keys()[i]
                    <= #[trigger] self.buffered_keys()[j],
    {
        self.sorter.lemma_ready_sorted();
    }

    /// After a sorter flush, every buffered record still refers to an
    /// attribute that exists: the flush only moved records between the
    /// sorter's two queues.
    proof fn lemma_buffered_records_stay_ok(
        &self,
        pre_ready: Seq<(u128, PendingRecord)>,
        pre_pending: Seq<(u128, PendingRecord)>,
    )
        requires
            self.sorter.ready().len() >= pre_ready.len(),
            self.sorter.ready().take(pre_ready.len() as int) == pre_ready,
            forall|i: int|
                pre_ready.len() <= i < self.sorter.ready().len() ==> pre_pending.to_multiset().count(
                    #[trigger] self.sorter.ready()[i],
                ) > 0,
            forall|i: int|
                0 <= i < self.sorter.pending().len() ==> pre_pending.to_multiset().count(
                    #[trigger] self.sorter.pending()[i],
                ) > 0,
            forall|i: int|
                0 <= i < pre_ready.len() ==> pending_ok(
                    (#[trigger] pre_ready[i]).1,
                    self.parse_infos@.len() as int,
                ),
            forall|i: int|
                0 <= i < pre_pending.len() ==> pending_ok(
                    (#[trigger] pre_pending[i]).1,
                    self.parse_infos@.len() as int,
                ),
        ensures
            forall|i: int|
                0 <= i < self.sorter.ready().len() ==> pending_ok(
                    (#[trigger] self.sorter.ready()[i]).1,
                    self.parse_infos@.len() as int,
                ),
            forall|i: int|
                0 <= i < self.sorter.pending().len() ==> pending_ok(
                    (#[trigger] self.sorter.pending()[i]).1,
                    self.parse_infos@.len() as int,
                ),
    {
        let n = self.parse_infos@.len() as int;
        assert forall|i: int|
            0 <= i < self.sorter.ready().len() implies pending_ok(
            (#[trigger] self.sorter.ready()[i]).1,
            n,
        ) by {
            if i < pre_ready.len() {
                assert(self.sorter.ready().take(pre_ready.len() as int)[i]
                    == self.sorter.ready()[i]);
                assert(pending_ok(pre_ready[i].1, n));
            } else {
                lemma_counted_pending_ok(pre_pending, n, self.sorter.ready()[i]);
            }
        }
        assert forall|i: int|
            0 <= i < self.sorter.pending().len() implies pending_ok(
            (#[trigger] self.sorter.pending()[i]).1,
            n,
        ) by {
            lemma_counted_pending_ok(pre_pending, n, self.sorter.pending()[i]);
        }
    }

    /// Iterates the records in this file. The records are emitted sorted by
    /// time, as far as the producer respected the round contract.
    ///
    /// `next_record` does some internal buffering so that the sort order can
    /// be guaranteed. This buffering takes advantage of FINISHED_ROUND
    /// records so that no more records are buffered than necessary.
    pub fn next_record(&mut self, perf_file: &mut PerfFile) -> (r: Result<
        Option<PerfFileRecord>,
        Error,
    >)
        requires
            old(self).wf(),
        ensures
            final(self).wf(),
            final(self).attr_count() == old(self).attr_count(),
            r is Ok ==> match r->Ok_0 {
                Some(PerfFileRecord::EventRecord { attr_index, .. }) => attr_index < old(
                    self,
                ).attr_count(),
                Some(PerfFileRecord::UserRecord(u)) => spec_is_user_type(u.record_type.0),
                None => true,
            },
            // A buffered record is owed: the head of the queue comes back.
            old(self).buffered().len() > 0 ==> r is Ok && r->Ok_0 is Some && old(
                self,
            ).record_of_pending(old(self).buffered()[0].1, r->Ok_0->0) && final(self).buffered()
                == old(self).buffered().drop_first(),
            // Nothing comes back only when everything was read and emitted.
            r is Ok && r->Ok_0 is None ==> final(self).exhausted(),
            r is Err && r->Err_0 is Truncated ==> old(self).is_pipe(),
            r is Err && r->Err_0 is Read ==> !old(self).is_pipe(),
            r is Err && (r->Err_0 is Truncated || r->Err_0 is Read || r->Err_0
                is InvalidPerfEventSize) ==> exists|p: int|
                old(self).stream_pos() <= p < old(self).stream_end() && bad_record_at(
                    old(self).stream_data(),
                    p,
                    old(self).stream_end(),
                    old(self).spec_endian(),
                ),
    {
        if !self.sorter.has_more() {
            match self.read_next_round() {
                Ok(()) => {}
                Err(err) => {
                    proof {
                        if err is Truncated || err is Read || err is InvalidPerfEventSize {
                            let p = choose|p: int|
                                old(self).pos <= p < old(self).end && bad_record_at(
                                    old(self).data@,
                                    p,
                                    old(self).end as int,
                                    old(self).endian,
                                );
                            assert(old(self).stream_pos() <= p < old(self).stream_end()
                                && bad_record_at(
                                old(self).stream_data(),
                                p,
                                old(self).stream_end(),
                                old(self).spec_endian(),
                            ));
                        }
                    }
                    return Err(err);
                }
            }
        }
        match self.sorter.get_next() {
            Some(pending_record) => {
                let record = self.convert_pending_record(pending_record);
                Ok(Some(record))
            }
            None => Ok(None),
        }
    }

    /// Reads records into the sorter until a FINISHED_ROUND record makes some
    /// of them ready, or until the record data runs out.
    fn read_next_round(&mut self) -> (r: Result<(), Error>)
        requires
            old(self).wf(),
        ensures
            final(self).wf(),
            final(self).attr_count() == old(self).attr_count(),
            r is Ok ==> final(self).sorter.ready().len() > 0 || (final(self).pos
                == final(self).end && final(self).sorter.pending().len() == 0
                && final(self).pending_first_record is None),
            r is Err && r->Err_0 is Truncated ==> old(self).pipe_mode,
            r is Err && r->Err_0 is Read ==> !old(self).pipe_mode,
            r is Err && (r->Err_0 is Truncated || r->Err_0 is Read || r->Err_0
                is InvalidPerfEventSize) ==> exists|p: int|
                old(self).pos <= p < old(self).end && bad_record_at(
                    old(self).data@,
                    p,
                    old(self).end as int,
                    old(self).endian,
                ),
            final(self).pipe_mode == old(self).pipe_mode,
    {
        if let Some(pending) = self.pending_first_record.take() {
            let (pending_header, pending_buffer) = pending;
            self.process_record(pending_header, pending_buffer);
        }
        proof {
            assert(self.pending_first_record is None);
        }
        loop
            invariant
                self.wf(),
                self.attr_count() == old(self).attr_count(),
                self.pipe_mode == old(self).pipe_mode,
                self.pending_first_record is None,
                self.data == old(self).data,
                self.endian == old(self).endian,
                self.end == old(self).end,
                old(self).pos <= self.pos,
            ensures
                self.wf(),
                self.attr_count() == old(self).attr_count(),
                self.pipe_mode == old(self).pipe_mode,
                self.pending_first_record is None,
                self.pos == self.end,
            decreases self.end - self.pos,
        {
            if self.pos >= self.end {
                break ;
            }
            if self.end - self.pos < PERF_EVENT_HEADER_SIZE {
                proof {
                    assert(bad_record_at(self.data@, self.pos as int, self.end as int,
                        self.endian));
                }
                if self.pipe_mode {
                    return Err(Error::Truncated);
                }
                return Err(Error::Read(ReadError::PerfEventHeader));
            }
            let header = PerfEventHeader::parse(self.data.as_slice(), self.pos, self.endian);
            let size = header.size as usize;
            if size < PERF_EVENT_HEADER_SIZE {
                proof {
                    assert(bad_record_at(self.data@, self.pos as int, self.end as int,
                        self.endian));
                }
                return Err(Error::InvalidPerfEventSize);
            }
            if size > self.end - self.pos {
                proof {
                    assert(bad_record_at(self.data@, self.pos as int, self.end as int,
                        self.endian));
                }
                if self.pipe_mode {
                    return Err(Error::Truncated);
                }
                return Err(Error::Read(ReadError::PerfEventData));
            }
            let record_start = self.pos;
            self.pos = self.pos + size;

            if header.type_ == PERF_RECORD_FINISHED_ROUND {
                let ghost pre_ready = self.sorter.ready();
                let ghost pre_pending = self.sorter.pending();
                self.sorter.finish_round();
                proof {
                    self.lemma_buffered_records_stay_ok(pre_ready, pre_pending);
                }
                if self.sorter.has_more() {
                    // The sorter has ready records. This round is done.
                    return Ok(());
                }
                // Keep going, so that the loop only ends with an empty
                // sorter when the data has truly run out.
                continue ;
            }

            if header.type_ == PERF_RECORD_COMPRESSED || header.type_ == PERF_RECORD_COMPRESSED2 {
                let mut body_start = record_start + PERF_EVENT_HEADER_SIZE;
                let mut body_end = record_start + size;
                if header.type_ == PERF_RECORD_COMPRESSED2 {
                    // A COMPRESSED2 record declares the length of the
                    // compressed bytes; the rest of the body is padding.
                    if body_end - body_start < 8 {
                        proof {
                            assert(bad_record_at(self.data@, record_start as int,
                                self.end as int, self.endian));
                        }
                        return Err(Error::InvalidPerfEventSize);
                    }
                    let declared = read_u64(self.data.as_slice(), body_start, self.endian);
                    body_start = body_start + 8;
                    if declared > (body_end - body_start) as u64 {
                        proof {
                            assert(bad_record_at(self.data@, record_start as int,
                                self.end as int, self.endian));
                        }
                        return Err(Error::InvalidPerfEventSize);
                    }
                    body_end = body_start + (declared as usize);
                }
                let compressed = buf::copy_range(self.data.as_slice(), body_start, body_end);
                let decompressed = match self.decompressor.decompress(compressed.as_slice()) {
                    Ok(bytes) => bytes,
                    Err(err) => {
                        return Err(err);
                    }
                };
                self.process_decompressed(decompressed);
                continue ;
            }

            let body = buf::copy_range(
                self.data.as_slice(),
                record_start + PERF_EVENT_HEADER_SIZE,
                record_start + size,
            );
            self.process_record(header, body);
        }
        // Everything has been read.
        let ghost pre_ready = self.sorter.ready();
        let ghost pre_pending = self.sorter.pending();
        self.sorter.finish();
        proof {
            self.lemma_buffered_records_stay_ok(pre_ready, pre_pending);
        }
        Ok(())
    }

    /// Scans the plaintext of a compressed chunk record by record, feeding
    /// each complete record through the normal path; a trailing partial
    /// record is carried over to the next chunk.
    fn process_decompressed(&mut self, buffer: Vec<u8>)
        requires
            old(self).wf(),
        ensures
            final(self).wf(),
            final(self).attr_count() == old(self).attr_count(),
            final(self).pos == old(self).pos,
            final(self).end == old(self).end,
            final(self).data == old(self).data,
            final(self).endian == old(self).endian,
            final(self).pipe_mode == old(self).pipe_mode,
            final(self).pending_first_record == old(self).pending_first_record,
            final(self).carried() == crate::records::scan_leftover(buffer@, old(self).endian),
    {
        let n = buffer.len();
        let mut pos: usize = 0;
        proof {
            assert(buffer@.skip(0) =~= buffer@);
        }
        loop
            invariant
                self.wf(),
                self.attr_count() == old(self).attr_count(),
                self.pos == old(self).pos,
                self.end == old(self).end,
                self.data == old(self).data,
                self.endian == old(self).endian,
                self.pipe_mode == old(self).pipe_mode,
                self.pending_first_record == old(self).pending_first_record,
                pos <= n,
                n == buffer@.len(),
                crate::records::scan_leftover(buffer@, self.endian)
                    == crate::records::scan_leftover(buffer@.skip(pos as int), self.endian),
            ensures
                self.wf(),
                self.attr_count() == old(self).attr_count(),
                self.pos == old(self).pos,
                self.end == old(self).end,
                self.data == old(self).data,
                self.endian == old(self).endian,
                self.pipe_mode == old(self).pipe_mode,
                self.pending_first_record == old(self).pending_first_record,
                pos <= n,
                n == buffer@.len(),
                crate::records::scan_leftover(buffer@, self.endian)
                    == crate::records::scan_leftover(buffer@.skip(pos as int), self.endian),
                !crate::records::has_complete_record(buffer@.skip(pos as int), self.endian),
            decreases n - pos,
        {
            if n - pos < PERF_EVENT_HEADER_SIZE {
                break ;
            }
            let header = PerfEventHeader::parse(buffer.as_slice(), pos, self.endian);
            proof {
                let rest = buffer@.skip(pos as int);
                assert(rest.subrange(0, 4) =~= buffer@.subrange(pos as int, pos + 4));
                assert(rest.subrange(4, 6) =~= buffer@.subrange(pos + 4, pos + 6));
                assert(rest.subrange(6, 8) =~= buffer@.subrange(pos + 6, pos + 8));
                assert(crate::records::spec_parse_event_header(rest, 0, self.endian) == header);
            }
            let size = header.size as usize;
            if size < PERF_EVENT_HEADER_SIZE {
                // A malformed inner record; everything from here on is
                // carried over and will fail again if more data arrives.
                break ;
            }
            if size > n - pos {
                // The record straddles into the next chunk.
                break ;
            }
            proof {
                // The complete record at `pos` moves the leftover point on.
                let rest = buffer@.skip(pos as int);
                assert(crate::records::has_complete_record(rest, self.endian));
                assert(rest.skip(size as int) =~= buffer@.skip(pos + size));
            }
            if header.type_ == PERF_RECORD_FINISHED_ROUND {
                let ghost pre_ready = self.sorter.ready();
                let ghost pre_pending = self.sorter.pending();
                self.sorter.finish_round();
                proof {
                    self.lemma_buffered_records_stay_ok(pre_ready, pre_pending);
                }
            } else {
                let body = buf::copy_range(
                    buffer.as_slice(),
                    pos + PERF_EVENT_HEADER_SIZE,
                    pos + size,
                );
                self.process_record(header, body);
            }
            pos = pos + size;
        }
        proof {
            // At the break, no complete record starts at `pos`, so the tail
            // from `pos` is exactly the leftover of the whole buffer.
            let rest = buffer@.skip(pos as int);
            if rest.len() >= 8 {
                assert(rest.subrange(0, 4) =~= buffer@.subrange(pos as int, pos + 4));
                assert(rest.subrange(4, 6) =~= buffer@.subrange(pos + 4, pos + 6));
                assert(rest.subrange(6, 8) =~= buffer@.subrange(pos + 6, pos + 8));
            }
            assert(!crate::records::has_complete_record(rest, self.endian));
            assert(crate::records::scan_leftover(rest, self.endian) == rest);
        }
        self.decompressor.save_partial_record(&buffer.as_slice()[pos..n]);
        proof {
            assert(self.carried() =~= buffer@.skip(pos as int));
        }
    }

    /// Computes the attribute index and the timestamp of one record and
    /// inserts it into the round sorter.
    fn process_record(&mut self, header: PerfEventHeader, buffer: Vec<u8>)
        requires
            old(self).wf(),
        ensures
            final(self).wf(),
            final(self).attr_count() == old(self).attr_count(),
            final(self).pos == old(self).pos,
            final(self).end == old(self).end,
            final(self).data == old(self).data,
            final(self).endian == old(self).endian,
            final(self).pipe_mode == old(self).pipe_mode,
            final(self).pending_first_record == old(self).pending_first_record,
            // Exactly this record joins the sorter's pending queue, keyed by
            // its timestamp with the arrival number as the tiebreak.
            final(self).sorter.ready() == old(self).sorter.ready(),
            final(self).sorter.pending() == old(self).sorter.pending().push(
                final(self).sorter.pending().last(),
            ),
            ({
                let entry = final(self).sorter.pending().last();
                &&& entry.1.record_type == header.type_
                &&& entry.1.misc == header.misc
                &&& entry.1.buffer == buffer
                &&& (spec_is_user_type(header.type_) ==> entry.1.attr_index is None && entry.0
                    == spec_sort_key(None, old(self).arrival))
                &&& (!spec_is_user_type(header.type_) ==> entry.1.attr_index is Some
                    && exists|ts: Option<u64>|
                    entry.0 == #[trigger] spec_sort_key(ts, old(self).arrival))
                &&& (!spec_is_user_type(header.type_) && old(self).id_parse_infos
                    is PerAttribute ==> {
                    let id = crate::attr_info::record_identifier_spec(
                        header.type_,
                        buffer@,
                        old(self).endian == Endianness::LittleEndian,
                        old(self).id_parse_infos->PerAttribute_0,
                    );
                    entry.1.attr_index == Some(
                        match id {
                            Some(v) => if old(self).id_map().contains_key(v) {
                                old(self).id_map()[v]
                            } else {
                                0usize
                            },
                            None => 0usize,
                        },
                    )
                })
            }),
            final(self).arrival == if old(self).arrival < MAX_ARRIVAL {
                (old(self).arrival + 1) as u64
            } else {
                old(self).arrival
            },
    {
        let record_type = header.type_;
        let (attr_index, timestamp): (Option<usize>, Option<u64>) = if record_type
            < PERF_RECORD_USER_TYPE_START {
            let index: usize = match &self.id_parse_infos {
                IdParseInfos::OnlyOneEvent => 0,
                IdParseInfos::Same(id_parse_info) => {
                    let id = attr_info::record_id_of(
                        record_type,
                        buffer.as_slice(),
                        self.endian,
                        id_parse_info,
                    );
                    resolve_attr_index(id, &self.event_id_to_attr_index)
                }
                IdParseInfos::PerAttribute(sample_id_all) => {
                    // IDENTIFIER is guaranteed by the PerAttribute scheme.
                    let id = attr_info::record_identifier_of(
                        record_type,
                        buffer.as_slice(),
                        self.endian,
                        *sample_id_all,
                    );
                    resolve_attr_index(id, &self.event_id_to_attr_index)
                }
            };
            let timestamp = attr_info::record_timestamp_of(
                record_type,
                buffer.as_slice(),
                self.endian,
                &self.parse_infos[index],
            );
            (Some(index), timestamp)
        } else {
            // A user record: no attribute, no timestamp.
            (None, None)
        };
        let sort_key = RecordSortKey { timestamp, offset: self.arrival };
        if self.arrival < MAX_ARRIVAL {
            self.arrival = self.arrival + 1;
        }
        let pending_record = PendingRecord {
            record_type,
            misc: header.misc,
            buffer,
            attr_index,
        };
        self.sorter.insert_unordered(sort_key.as_sort_key(), pending_record);
    }

    /// Turns a pending record into the record value handed to the caller.
    fn convert_pending_record(&self, pending_record: PendingRecord) -> (r: PerfFileRecord)
        requires
            self.wf(),
            pending_ok(pending_record, self.attr_count()),
        ensures
            self.record_of_pending(pending_record, r),
            match r {
                PerfFileRecord::EventRecord { attr_index, .. } => attr_index < self.attr_count(),
                PerfFileRecord::UserRecord(u) => spec_is_user_type(u.record_type.0),
            },
    {
        let PendingRecord { record_type, misc, buffer, attr_index } = pending_record;
        match UserRecordType::try_from(record_type) {
            Some(user_type) => PerfFileRecord::UserRecord(
                RawUserRecord { record_type: user_type, endian: self.endian, misc, data: buffer },
            ),
            None => {
                let attr_index = match attr_index {
                    Some(index) => index,
                    None => 0,  // unreachable: event records always carry an index
                };
                let parse_info = self.parse_infos[attr_index];
                PerfFileRecord::EventRecord {
                    attr_index,
                    record: RawEventRecord { record_type, misc, data: buffer, parse_info },
                }
            }
        }
    }
}


/// The bodies of the HEADER_ATTR records in the metadata prefix of a
/// pipe-mode stream, scanned from `pos`: HEADER_FEATURE records are passed
/// over, and the first record of any other type (or a clean end of the
/// bytes) ends the prefix. `None` when the prefix is truncated or malformed.
pub open spec fn pipe_attr_bodies(data: Seq<u8>, pos: int, e: Endianness) -> Option<Seq<Seq<u8>>>
    decreases data.len() - pos,
{
    if pos < 0 || pos > data.len() {
        None
    } else if pos == data.len() {
        Some(Seq::empty())
    } else if data.len() - pos < 8 {
        None
    } else {
        let h = crate::records::spec_parse_event_header(data, pos, e);
        if h.size < 8 || pos + h.size > data.len() {
            None
        } else if h.type_ == PERF_RECORD_HEADER_ATTR {
            let body = data.subrange(pos + 8, pos + h.size);
            if crate::attr_info::attr_parse_size(body, e == Endianness::LittleEndian) is Some {
                match pipe_attr_bodies(data, pos + h.size, e) {
                    Some(rest) => Some(seq![body] + rest),
                    None => None,
                }
            } else {
                None
            }
        } else if h.type_ == PERF_RECORD_HEADER_FEATURE {
            if h.size >= 16 {
                pipe_attr_bodies(data, pos + h.size, e)
            } else {
                None
            }
        } else {
            Some(Seq::empty())
        }
    }
}

/// `rest` with `prefix` in front, when there is a `rest` at all.
pub open spec fn opt_prepend(prefix: Seq<Seq<u8>>, rest: Option<Seq<Seq<u8>>>) -> Option<
    Seq<Seq<u8>>,
> {
    match rest {
        Some(r) => Some(prefix + r),
        None => None,
    }
}

/// The event IDs that a HEADER_ATTR body carries: everything after its
/// attribute, whose size the attribute itself declares.
pub open spec fn attr_body_ids(body: Seq<u8>, e: Endianness) -> Seq<u64> {
    crate::records::trailing_ids(
        body,
        crate::attr_info::attr_parse_size(body, e == Endianness::LittleEndian)->0 as int,
        e,
    )
}

impl PerfFileReader {
    /// Parse a perf.data file given as one in-memory byte buffer.
    ///
    /// The bytes must start with the file-mode header; the data section and
    /// the feature sections are located through its section pointers.
    pub fn parse_file(data: Vec<u8>) -> (r: Result<PerfFileReader, Error>)
        ensures
            r is Ok ==> r->Ok_0.record_iter.wf() && r->Ok_0.perf_file.attributes@.len() >= 1,
            r is Ok ==> data@.len() >= 8 && (r->Ok_0.perf_file.endian
                == Endianness::LittleEndian <==> data@.subrange(0, 8)
                == crate::header::magic_le()),
            r is Ok ==> (r->Ok_0.perf_file.endian == Endianness::BigEndian <==> data@.subrange(
                0,
                8,
            ) == crate::header::magic_be()),
            r is Ok ==> id_map_matches(
                r->Ok_0.record_iter.id_map(),
                r->Ok_0.perf_file.attributes@,
            ) && r->Ok_0.record_iter.attr_count() == r->Ok_0.perf_file.attributes@.len(),
            // The prefix checks, each tied to its error.
            ({
                let m = crate::header::spec_parse_header_fields(
                    data@,
                    crate::header::endian_of_magic(data@),
                );
                let magic_known = data@.subrange(0, 8) == crate::header::magic_le()
                    || data@.subrange(0, 8) == crate::header::magic_be();
                let prefix_ok = data@.len() >= crate::header::PERF_HEADER_SIZE && magic_known
                    && m.header_size >= crate::header::PERF_HEADER_SIZE;
                let ds_ok = m.data_section.offset <= data@.len() && m.data_section.size
                    <= data@.len() - m.data_section.offset;
                &&& (r == Err::<PerfFileReader, Error>(
                    Error::Read(ReadError::PerfHeader),
                ) <==> data@.len() < crate::header::PERF_HEADER_SIZE)
                &&& ((r is Err && r->Err_0 is UnrecognizedMagicValue) <==> (data@.len()
                    >= crate::header::PERF_HEADER_SIZE && !magic_known))
                &&& (r is Err && r->Err_0 is UnrecognizedMagicValue
                    ==> r->Err_0->UnrecognizedMagicValue_0@ == data@.subrange(0, 8))
                &&& ((r is Err && r->Err_0 is InvalidHeaderSize) <==> (data@.len()
                    >= crate::header::PERF_HEADER_SIZE && magic_known && m.header_size
                    < crate::header::PERF_HEADER_SIZE))
                &&& (prefix_ok && !ds_ok ==> r == Err::<PerfFileReader, Error>(
                    Error::SectionSizeTooBig,
                ))
                &&& (r is Err && r->Err_0 is NoAttributes ==> prefix_ok && ds_ok)
                &&& (r is Ok ==> prefix_ok && ds_ok)
            }),
    {
        let header = match PerfHeader::parse(data.as_slice()) {
            Ok(h) => h,
            Err(err) => {
                return Err(err);
            }
        };
        let e: Endianness;
        if buf::bytes_equal(&header.magic, crate::header::magic_le_vec().as_slice()) {
            e = Endianness::LittleEndian;
        } else if buf::bytes_equal(&header.magic, crate::header::magic_be_vec().as_slice()) {
            e = Endianness::BigEndian;
        } else {
            return Err(Error::UnrecognizedMagicValue(header.magic));
        }
        if header.header_size < PERF_HEADER_SIZE as u64 {
            // The declared header size must cover the fixed layout; a larger
            // one only means that extra bytes sit before the sections, which
            // the section pointers already skip.
            return Err(Error::InvalidHeaderSize);
        }
        let dlen = data.len();
        if header.data_section.offset > dlen as u64 || header.data_section.size > dlen as u64
            - header.data_section.offset {
            return Err(Error::SectionSizeTooBig);
        }
        let data_start = header.data_section.offset as usize;
        let data_end = data_start + header.data_section.size as usize;

        // Read the section pointer of each feature, starting just after the
        // data section.
        let mut feature_pos = data_end;
        let mut feature_sections_info: Vec<(u32, PerfFileSection)> = Vec::new();
        let mut feature_iter = header.features.iter();
        loop
            invariant_except_break
                feature_iter.position() <= 256,
            invariant
                feature_pos <= dlen,
                dlen == data@.len(),
                data@.len() >= crate::header::PERF_HEADER_SIZE,
                data@.subrange(0, 8) == crate::header::magic_le() || data@.subrange(0, 8)
                    == crate::header::magic_be(),
                crate::header::spec_parse_header_fields(
                    data@,
                    crate::header::endian_of_magic(data@),
                ).header_size >= crate::header::PERF_HEADER_SIZE,
                crate::header::spec_parse_header_fields(
                    data@,
                    crate::header::endian_of_magic(data@),
                ).data_section.offset <= data@.len(),
                crate::header::spec_parse_header_fields(
                    data@,
                    crate::header::endian_of_magic(data@),
                ).data_section.size <= data@.len() - crate::header::spec_parse_header_fields(
                    data@,
                    crate::header::endian_of_magic(data@),
                ).data_section.offset,
            decreases 256 - feature_iter.position(),
        {
            let feature = match feature_iter.next() {
                Some(f) => f,
                None => {
                    break ;
                }
            };
            if dlen < SECTION_STRUCT_SIZE || feature_pos > dlen - SECTION_STRUCT_SIZE {
                return Err(Error::Read(ReadError::FeatureSection));
            }
            let section = PerfFileSection::parse(data.as_slice(), feature_pos, e);
            feature_pos = feature_pos + SECTION_STRUCT_SIZE;
            feature_sections_info.push((feature, section));
        }

        // Read each feature section's bytes.
        let mut feature_sections = linmap::feature_map_new();
        let mut i: usize = 0;
        while i < feature_sections_info.len()
            invariant
                dlen == data@.len(),
                i <= feature_sections_info@.len(),
                data@.len() >= crate::header::PERF_HEADER_SIZE,
                data@.subrange(0, 8) == crate::header::magic_le() || data@.subrange(0, 8)
                    == crate::header::magic_be(),
                crate::header::spec_parse_header_fields(
                    data@,
                    crate::header::endian_of_magic(data@),
                ).header_size >= crate::header::PERF_HEADER_SIZE,
                crate::header::spec_parse_header_fields(
                    data@,
                    crate::header::endian_of_magic(data@),
                ).data_section.offset <= data@.len(),
                crate::header::spec_parse_header_fields(
                    data@,
                    crate::header::endian_of_magic(data@),
                ).data_section.size <= data@.len() - crate::header::spec_parse_header_fields(
                    data@,
                    crate::header::endian_of_magic(data@),
                ).data_section.offset,
            decreases feature_sections_info@.len() - i,
        {
            let (feature, section) = feature_sections_info[i];
            if section.offset > dlen as u64 || section.size > dlen as u64 - section.offset {
                return Err(Error::SectionSizeTooBig);
            }
            let start = section.offset as usize;
            let payload = buf::copy_range(data.as_slice(), start, start + section.size as usize);
            linmap::feature_map_insert(&mut feature_sections, feature, payload);
            i = i + 1;
        }

        // Resolve the event attributes through one of the four pathways.
        let attributes: Vec<AttributeDescription>;
        let event_desc = linmap::feature_map_get(
            &feature_sections,
            Feature::EventDesc.to_int(),
        );
        if let Some(event_desc_section) = event_desc {
            attributes = match AttributeDescription::parse_event_desc_section(
                event_desc_section.as_slice(),
                e,
            ) {
                Ok(v) => v,
                Err(err) => {
                    return Err(err);
                }
            };
        } else if header.event_types_section.size != 0 {
            attributes = match AttributeDescription::parse_event_types_section(
                data.as_slice(),
                &header.event_types_section,
                header.attr_size,
                e,
            ) {
                Ok(v) => v,
                Err(err) => {
                    return Err(err);
                }
            };
        } else {
            let meta_info = linmap::feature_map_get(
                &feature_sections,
                Feature::SimpleperfMetaInfo.to_int(),
            );
            if let Some(meta_info_section) = meta_info {
                let info_map = match simpleperf::parse_meta_info_map(
                    meta_info_section.as_slice(),
                ) {
                    Ok(m) => m,
                    Err(err) => {
                        return Err(err);
                    }
                };
                let event_types = match simpleperf::get_event_types(&info_map) {
                    Some(t) => t,
                    None => {
                        return Err(Error::NoEventTypesInSimpleperfMetaInfo);
                    }
                };
                attributes = match AttributeDescription::parse_simpleperf_attr_section(
                    data.as_slice(),
                    &header.attr_section,
                    header.attr_size,
                    &event_types,
                    e,
                ) {
                    Ok(v) => v,
                    Err(err) => {
                        return Err(err);
                    }
                };
            } else {
                attributes = match AttributeDescription::parse_attr_section(
                    data.as_slice(),
                    &header.attr_section,
                    header.attr_size,
                    e,
                ) {
                    Ok(v) => v,
                    Err(err) => {
                        return Err(err);
                    }
                };
            }
        }
        if attributes.len() == 0 {
            return Err(Error::NoAttributes);
        }
        let (parse_infos, event_id_to_attr_index, id_parse_infos) = match build_iter_tables(
            &attributes,
            e,
        ) {
            Ok(t) => t,
            Err(err) => {
                return Err(err);
            }
        };
        let perf_file = PerfFile {
            endian: e,
            features: header.features,
            feature_sections,
            attributes,
        };
        let record_iter = PerfRecordIter {
            data,
            endian: e,
            pos: data_start,
            end: data_end,
            pipe_mode: false,
            id_parse_infos,
            parse_infos,
            event_id_to_attr_index,
            sorter: Sorter::new(),
            decompressor: ZstdDecompressor::new(),
            pending_first_record: None,
            arrival: 0,
        };
        Ok(PerfFileReader { perf_file, record_iter })
    }

    /// Parse a perf.data stream in pipe mode.
    ///
    /// Pipe mode needs no seeking: the attributes and the features arrive
    /// inline, as HEADER_ATTR and HEADER_FEATURE records in front of the
    /// first real record.
    pub fn parse_pipe(data: Vec<u8>) -> (r: Result<PerfFileReader, Error>)
        ensures
            r is Ok ==> r->Ok_0.record_iter.wf() && r->Ok_0.perf_file.attributes@.len() >= 1,
            r is Ok ==> data@.len() >= 8 && (r->Ok_0.perf_file.endian
                == Endianness::LittleEndian <==> data@.subrange(0, 8)
                == crate::header::magic_le()),
            r is Ok ==> (r->Ok_0.perf_file.endian == Endianness::BigEndian <==> data@.subrange(
                0,
                8,
            ) == crate::header::magic_be()),
            r is Ok ==> id_map_matches(
                r->Ok_0.record_iter.id_map(),
                r->Ok_0.perf_file.attributes@,
            ) && r->Ok_0.record_iter.attr_count() == r->Ok_0.perf_file.attributes@.len(),
            ({
                let e = crate::header::endian_of_magic(data@);
                let magic_known = data@.subrange(0, 8) == crate::header::magic_le()
                    || data@.subrange(0, 8) == crate::header::magic_be();
                let hdr_size = crate::endian::int_value(data@.subrange(8, 16), e);
                let prefix_ok = data@.len() >= PERF_PIPE_HEADER_SIZE && magic_known
                    && PERF_PIPE_HEADER_SIZE <= hdr_size <= data@.len();
                let scan = pipe_attr_bodies(data@, hdr_size as int, e);
                &&& (r == Err::<PerfFileReader, Error>(
                    Error::Read(ReadError::PerfHeader),
                ) <==> data@.len() < PERF_PIPE_HEADER_SIZE)
                &&& ((r is Err && r->Err_0 is UnrecognizedMagicValue) <==> (data@.len()
                    >= PERF_PIPE_HEADER_SIZE && !magic_known))
                &&& ((r is Err && r->Err_0 is InvalidHeaderSize) <==> (data@.len()
                    >= PERF_PIPE_HEADER_SIZE && magic_known && hdr_size
                    < PERF_PIPE_HEADER_SIZE))
                // One attribute per HEADER_ATTR record, in stream order, each
                // carrying that record's trailing event IDs.
                &&& (r is Ok ==> scan is Some && {
                    let bodies = scan->0;
                    &&& r->Ok_0.perf_file.attributes@.len() == bodies.len()
                    &&& forall|i: int|
                        0 <= i < bodies.len()
                            ==> (#[trigger] r->Ok_0.perf_file.attributes@[i]).event_ids@
                            == attr_body_ids(bodies[i], e)
                })
                // No attributes exactly when no HEADER_ATTR precedes the
                // first real record of a clean metadata prefix.
                &&& ((r is Err && r->Err_0 is NoAttributes) <==> (prefix_ok && scan
                    == Some(Seq::<Seq<u8>>::empty())))
            }),
    {
        let pipe_header = match PerfPipeHeader::parse(data.as_slice()) {
            Ok(h) => h,
            Err(err) => {
                return Err(err);
            }
        };
        let e: Endianness;
        if buf::bytes_equal(&pipe_header.magic, crate::header::magic_le_vec().as_slice()) {
            e = Endianness::LittleEndian;
        } else if buf::bytes_equal(&pipe_header.magic, crate::header::magic_be_vec().as_slice()) {
            e = Endianness::BigEndian;
        } else {
            return Err(Error::UnrecognizedMagicValue(pipe_header.magic));
        }
        if pipe_header.size < PERF_PIPE_HEADER_SIZE as u64 {
            return Err(Error::InvalidHeaderSize);
        }
        let dlen = data.len();
        if pipe_header.size > dlen as u64 {
            return Err(Error::Truncated);
        }
        // Skip any additional header bytes a future version may declare.
        let mut pos: usize = pipe_header.size as usize;
        let mut attributes: Vec<AttributeDescription> = Vec::new();
        let mut feature_sections = linmap::feature_map_new();
        let mut feature_chunks: Vec<u64> = vec![0u64, 0u64, 0u64, 0u64];
        let mut pending_first_record: Option<(PerfEventHeader, Vec<u8>)> = None;
        let ghost pstart = pos as int;
        let ghost collected: Seq<Seq<u8>> = Seq::empty();
        let mut collected_track: Ghost<Seq<Seq<u8>>> = Ghost(collected);
        proof {
            assert(opt_prepend(Seq::empty(), pipe_attr_bodies(data@, pstart, e))
                == pipe_attr_bodies(data@, pstart, e));
        }

        // Read metadata records until the first real record or the end of
        // the stream.
        loop
            invariant_except_break
                pipe_attr_bodies(data@, pstart, e) == opt_prepend(
                    collected_track@,
                    pipe_attr_bodies(data@, pos as int, e),
                ),
            invariant
                pos <= dlen,
                dlen == data@.len(),
                feature_chunks@.len() == 4,
                dlen >= PERF_PIPE_HEADER_SIZE,
                data@.subrange(0, 8) == crate::header::magic_le() || data@.subrange(0, 8)
                    == crate::header::magic_be(),
                e == crate::header::endian_of_magic(data@),
                pstart == crate::endian::int_value(
                    data@.subrange(8, 16),
                    crate::header::endian_of_magic(data@),
                ),
                PERF_PIPE_HEADER_SIZE <= pstart <= dlen,
                attributes@.len() == collected_track@.len(),
                forall|i: int|
                    0 <= i < collected_track@.len()
                        ==> (#[trigger] attributes@[i]).event_ids@ == attr_body_ids(
                        collected_track@[i],
                        e,
                    ),
            ensures
                pos <= dlen,
                dlen == data@.len(),
                feature_chunks@.len() == 4,
                pipe_attr_bodies(data@, pstart, e) == Some(collected_track@),
                attributes@.len() == collected_track@.len(),
                forall|i: int|
                    0 <= i < collected_track@.len()
                        ==> (#[trigger] attributes@[i]).event_ids@ == attr_body_ids(
                        collected_track@[i],
                        e,
                    ),
            decreases dlen - pos,
        {
            if pos == dlen {
                // The stream ended with only metadata records; still valid.
                proof {
                    assert(pipe_attr_bodies(data@, pos as int, e) == Some(Seq::<Seq<u8>>::empty()));
                    assert(collected_track@ + Seq::<Seq<u8>>::empty() =~= collected_track@);
                }
                break ;
            }
            if dlen - pos < PERF_EVENT_HEADER_SIZE {
                proof {
                    assert(pipe_attr_bodies(data@, pos as int, e) is None);
                }
                return Err(Error::Truncated);
            }
            let ghost rec_pos = pos as int;
            let header = PerfEventHeader::parse(data.as_slice(), pos, e);
            let size = header.size as usize;
            if size < PERF_EVENT_HEADER_SIZE {
                proof {
                    assert(pipe_attr_bodies(data@, pos as int, e) is None);
                }
                return Err(Error::InvalidPerfEventSize);
            }
            if size > dlen - pos {
                proof {
                    assert(pipe_attr_bodies(data@, pos as int, e) is None);
                }
                return Err(Error::Truncated);
            }
            let body = buf::copy_range(
                data.as_slice(),
                pos + PERF_EVENT_HEADER_SIZE,
                pos + size,
            );
            pos = pos + size;
            if header.type_ == PERF_RECORD_HEADER_ATTR {
                let header_attr = match HeaderAttr::parse(body.as_slice(), e) {
                    Ok(v) => v,
                    Err(err) => {
                        proof {
                            assert(pipe_attr_bodies(data@, rec_pos, e) is None);
                        }
                        return Err(err);
                    }
                };
                attributes.push(
                    AttributeDescription {
                        attr: header_attr.attr,
                        name: None,
                        event_ids: header_attr.ids,
                    },
                );
                proof {
                    let rest = pipe_attr_bodies(data@, pos as int, e);
                    assert(pipe_attr_bodies(data@, rec_pos, e) == opt_prepend(
                        seq![body@],
                        rest,
                    ));
                    collected_track@ = collected_track@.push(body@);
                    if rest is Some {
                        assert((collected_track@.drop_last() + (seq![body@] + rest->0))
                            =~= collected_track@ + rest->0);
                    }
                }
            } else if header.type_ == PERF_RECORD_HEADER_FEATURE {
                let header_feature = match HeaderFeature::parse(body.as_slice(), e) {
                    Ok(v) => v,
                    Err(err) => {
                        proof {
                            assert(pipe_attr_bodies(data@, rec_pos, e) is None);
                        }
                        return Err(err);
                    }
                };
                linmap::feature_map_insert(
                    &mut feature_sections,
                    header_feature.feature,
                    header_feature.data,
                );
                if header_feature.feature < 256 {
                    crate::bitset256::set_bit_vec(&mut feature_chunks, header_feature.feature);
                }
            } else {
                // Not a metadata record: this is the first real record.
                pending_first_record = Some((header, body));
                proof {
                    assert(pipe_attr_bodies(data@, rec_pos, e) == Some(Seq::<Seq<u8>>::empty()));
                    assert(collected_track@ + Seq::<Seq<u8>>::empty() =~= collected_track@);
                }
                break ;
            }
        }
        if attributes.len() == 0 {
            return Err(Error::NoAttributes);
        }

        // When an EVENT_DESC feature arrived, take the event names from it,
        // matching attributes by their first event ID.
        let event_desc = linmap::feature_map_get(
            &feature_sections,
            Feature::EventDesc.to_int(),
        );
        if let Some(event_desc_section) = event_desc {
            let descs = match AttributeDescription::parse_event_desc_section(
                event_desc_section.as_slice(),
                e,
            ) {
                Ok(v) => v,
                Err(err) => {
                    return Err(err);
                }
            };
            let n_attrs = attributes.len();
            let ghost pre_attrs = attributes@;
            let mut named: Vec<AttributeDescription> = Vec::new();
            while attributes.len() > 0
                invariant
                    named@.len() + attributes@.len() == n_attrs,
                    n_attrs == pre_attrs.len(),
                    forall|i: int|
                        0 <= i < named@.len() ==> (#[trigger] named@[i]).event_ids@ == pre_attrs[
                        i].event_ids@,
                    forall|i: int|
                        0 <= i < attributes@.len() ==> (#[trigger] attributes@[i]).event_ids@
                            == pre_attrs[named@.len() + i].event_ids@,
                decreases attributes@.len(),
            {
                let mut attribute = attributes.remove(0);
                let ghost kept_ids = attribute.event_ids@;
                let mut j: usize = 0;
                while j < descs.len()
                    invariant
                        j <= descs@.len(),
                        attribute.event_ids@ == kept_ids,
                    decreases descs@.len() - j,
                {
                    if descs[j].event_ids.len() > 0 && attribute.event_ids.len() > 0 {
                        if descs[j].event_ids[0] == attribute.event_ids[0] {
                            attribute.name = match descs[j].name() {
                                Some(name) => Some(name.clone()),
                                None => None,
                            };
                            break ;
                        }
                    }
                    j = j + 1;
                }
                named.push(attribute);
            }
            attributes = named;
        }
        if attributes.len() == 0 {
            return Err(Error::NoAttributes);
        }

        let (parse_infos, event_id_to_attr_index, id_parse_infos) = match build_iter_tables(
            &attributes,
            e,
        ) {
            Ok(t) => t,
            Err(err) => {
                return Err(err);
            }
        };
        let features = FeatureSet(
            [feature_chunks[0], feature_chunks[1], feature_chunks[2], feature_chunks[3]],
        );
        let perf_file = PerfFile { endian: e, features, feature_sections, attributes };
        let record_iter = PerfRecordIter {
            data,
            endian: e,
            pos,
            end: dlen,
            pipe_mode: true,
            id_parse_infos,
            parse_infos,
            event_id_to_attr_index,
            sorter: Sorter::new(),
            decompressor: ZstdDecompressor::new(),
            pending_first_record,
            arrival: 0,
        };
        Ok(PerfFileReader { perf_file, record_iter })
    }
}

/// Builds the per-attribute tables of the record iterator: the parse info of
/// each attribute, the map from event ID to attribute index, and the
/// identification scheme that the attribute properties dictate.
fn build_iter_tables(attributes: &Vec<AttributeDescription>, e: Endianness) -> (r: Result<
    (Vec<RecordParseInfo>, HashMap<u64, usize>, IdParseInfos),
    Error,
>)
    requires
        attributes@.len() >= 1,
    ensures
        r is Ok ==> {
            let (infos, map, scheme) = r->Ok_0;
            &&& infos@.len() == attributes@.len()
            &&& forall|k: u64| map@.contains_key(k) ==> #[trigger] map@[k] < attributes@.len()
            &&& id_map_matches(map@, attributes@)
        },
        r is Err ==> r->Err_0 is NoIdentifierDespiteMultiEvent || r->Err_0
            is InconsistentSampleIdAllWithMultiEvent,
{
    broadcast use vstd::std_specs::hash::group_hash_axioms;

    let n_attrs = attributes.len();
    let mut event_id_to_attr_index: HashMap<u64, usize> = HashMap::new();
    let mut attr_index: usize = 0;
    while attr_index < n_attrs
        invariant
            n_attrs == attributes@.len(),
            attr_index <= n_attrs,
            vstd::std_specs::hash::obeys_key_model::<u64>(),
            forall|k: u64|
                event_id_to_attr_index@.contains_key(k) ==> #[trigger] event_id_to_attr_index@[k]
                    < n_attrs && attributes@[event_id_to_attr_index@[k] as int].event_ids@.contains(
                    k,
                ),
            forall|ai: int, j: int|
                0 <= ai < attr_index && 0 <= j < attributes@[ai].event_ids@.len()
                    ==> event_id_to_attr_index@.contains_key(
                        #[trigger] attributes@[ai].event_ids@[j],
                    ),
        decreases n_attrs - attr_index,
    {
        let ids = attributes[attr_index].ids();
        let mut j: usize = 0;
        while j < ids.len()
            invariant
                n_attrs == attributes@.len(),
                attr_index < n_attrs,
                j <= ids@.len(),
                ids@ == attributes@[attr_index as int].event_ids@,
                vstd::std_specs::hash::obeys_key_model::<u64>(),
                forall|k: u64|
                    event_id_to_attr_index@.contains_key(k)
                        ==> #[trigger] event_id_to_attr_index@[k] < n_attrs && attributes@[
                    event_id_to_attr_index@[k] as int].event_ids@.contains(k),
                forall|ai: int, jj: int|
                    0 <= ai < attr_index && 0 <= jj < attributes@[ai].event_ids@.len()
                        ==> event_id_to_attr_index@.contains_key(
                            #[trigger] attributes@[ai].event_ids@[jj],
                        ),
                forall|jj: int|
                    0 <= jj < j ==> event_id_to_attr_index@.contains_key(
                        #[trigger] ids@[jj],
                    ),
            decreases ids@.len() - j,
        {
            proof {
                assert(ids@.contains(ids@[j as int]));
            }
            event_id_to_attr_index.insert(ids[j], attr_index);
            j = j + 1;
        }
        attr_index = attr_index + 1;
    }

    let mut parse_infos: Vec<RecordParseInfo> = Vec::new();
    let mut i: usize = 0;
    while i < n_attrs
        invariant
            n_attrs == attributes@.len(),
            i <= n_attrs,
            parse_infos@.len() == i as int,
        decreases n_attrs - i,
    {
        parse_infos.push(attr_info::record_parse_info_new(&attributes[i].attr, e));
        i = i + 1;
    }

    let first_id_info = attr_info::record_id_parse_info_of(&parse_infos[0]);
    let mut same_as_first: Vec<bool> = Vec::new();
    let mut has_identifier: Vec<bool> = Vec::new();
    let mut has_sample_id_all: Vec<bool> = Vec::new();
    let mut k: usize = 0;
    while k < n_attrs
        invariant
            n_attrs == attributes@.len(),
            parse_infos@.len() == n_attrs,
            k <= n_attrs,
            same_as_first@.len() == k as int,
            has_identifier@.len() == k as int,
            has_sample_id_all@.len() == k as int,
        decreases n_attrs - k,
    {
        let this_info = attr_info::record_id_parse_info_of(&parse_infos[k]);
        same_as_first.push(attr_info::id_parse_infos_equal(&this_info, &first_id_info));
        has_identifier.push(attr_info::attr_has_identifier(&attributes[k].attr));
        has_sample_id_all.push(attr_info::attr_has_sample_id_all(&attributes[k].attr));
        k = k + 1;
    }
    let id_parse_infos = match classify_id_parse_infos(
        &same_as_first,
        &has_identifier,
        &has_sample_id_all,
        first_id_info,
    ) {
        Ok(scheme) => scheme,
        Err(err) => {
            proof {
                lemma_classify_scan_err_shape(has_identifier@, has_sample_id_all@, 0);
            }
            return Err(err);
        }
    };
    Ok((parse_infos, event_id_to_attr_index, id_parse_infos))
}

} // verus!
