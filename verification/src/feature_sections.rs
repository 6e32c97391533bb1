use vstd::prelude::*;

use crate::attr_info;
use crate::endian::{int_value, read_u32, read_u64, Endianness};
use crate::error::{Error, ReadError};
use crate::linmap;
use crate::section::{PerfFileSection, SECTION_STRUCT_SIZE};
use crate::simpleperf::SimplePerfEventType;
use crate::strings;
use crate::thread_map::{take_up_to_nul, up_to_nul};
use linear_map::LinearMap;
use linux_perf_event_reader::PerfEventAttr;

verus! {

/// The number of available and online CPUs. (`nr_cpus`)
#[derive(Debug, Clone, Copy, PartialEq, Eq, Structural)]
pub struct NrCpus {
    /// CPUs not yet onlined
    pub nr_cpus_available: u32,
    pub nr_cpus_online: u32,
}

impl NrCpus {
    /// Reads the two CPU counters of an NRCPUS feature section.
    pub fn parse(data: &[u8], e: Endianness) -> (r: Result<NrCpus, Error>)
        ensures
            r is Ok <==> data@.len() >= 8,
            r is Ok ==> r->Ok_0 == (NrCpus {
                nr_cpus_available: int_value(data@.subrange(0, 4), e) as u32,
                nr_cpus_online: int_value(data@.subrange(4, 8), e) as u32,
            }),
            r is Err ==> r->Err_0 == Error::Read(ReadError::NrCpus),
    {
        if data.len() < 8 {
            return Err(Error::Read(ReadError::NrCpus));
        }
        let nr_cpus_available = read_u32(data, 0, e);
        let nr_cpus_online = read_u32(data, 4, e);
        Ok(NrCpus { nr_cpus_available, nr_cpus_online })
    }
}

/// The timestamps of the first and last sample.
#[derive(Debug, Clone, Copy, PartialEq, Eq, Structural)]
pub struct SampleTimeRange {
    pub first_sample_time: u64,
    pub last_sample_time: u64,
}

impl SampleTimeRange {
    /// Reads the two timestamps of a SAMPLE_TIME feature section.
    pub fn parse(data: &[u8], e: Endianness) -> (r: Result<SampleTimeRange, Error>)
        ensures
            r is Ok <==> data@.len() >= 16,
            r is Ok ==> r->Ok_0 == (SampleTimeRange {
                first_sample_time: int_value(data@.subrange(0, 8), e) as u64,
                last_sample_time: int_value(data@.subrange(8, 16), e) as u64,
            }),
            r is Err ==> r->Err_0 == Error::FeatureSectionTooSmall,
    {
        if data.len() < 16 {
            return Err(Error::FeatureSectionTooSmall);
        }
        let first_sample_time = read_u64(data, 0, e);
        let last_sample_time = read_u64(data, 8, e);
        Ok(SampleTimeRange { first_sample_time, last_sample_time })
    }
}

/// The clock used to record the timestamps of the file, with one anchor
/// reading of it paired with the wall clock.
#[derive(Debug, Clone, Copy, PartialEq, Eq, Structural)]
pub struct ClockData {
    /// Clock ID used for timestamps
    pub clockid: u32,
    /// Wall clock time in nanoseconds since Unix epoch.
    pub wall_clock_ns: u64,
    /// Clock ID time in nanoseconds at the same instant as `wall_clock_ns`.
    pub clockid_time_ns: u64,
}

impl ClockData {
    /// Reads a CLOCK_DATA feature section: a version, which must be 1, then
    /// the clock id and the two anchor readings.
    pub fn parse(data: &[u8], e: Endianness) -> (r: Result<ClockData, Error>)
        ensures
            r is Ok <==> (data@.len() >= 24 && int_value(data@.subrange(0, 4), e) == 1),
            r is Ok ==> r->Ok_0 == (ClockData {
                clockid: int_value(data@.subrange(4, 8), e) as u32,
                wall_clock_ns: int_value(data@.subrange(8, 16), e) as u64,
                clockid_time_ns: int_value(data@.subrange(16, 24), e) as u64,
            }),
    {
        if data.len() < 24 {
            return Err(Error::FeatureSectionTooSmall);
        }
        let version = read_u32(data, 0, e);
        if version != 1 {
            return Err(Error::FeatureSectionTooSmall);
        }
        let clockid = read_u32(data, 4, e);
        let wall_clock_ns = read_u64(data, 8, e);
        let clockid_time_ns = read_u64(data, 16, e);
        Ok(ClockData { clockid, wall_clock_ns, clockid_time_ns })
    }
}

/// `perf_header_string`: a `u32` length followed by that many bytes, of
/// which the text is everything before the first NUL.
pub struct HeaderString;

/// The byte length that a `perf_header_string` at `pos` declares.
pub open spec fn spec_header_string_len(data: Seq<u8>, pos: int, e: Endianness) -> nat {
    int_value(data.subrange(pos, pos + 4), e)
}

/// The text bytes of a `perf_header_string` at `pos`: the declared range cut
/// at the first NUL.
pub open spec fn spec_header_string_bytes(data: Seq<u8>, pos: int, e: Endianness) -> Seq<u8> {
    up_to_nul(data.subrange(pos + 4, pos + 4 + spec_header_string_len(data, pos, e) as int))
}

impl HeaderString {
    /// Reads a `perf_header_string` from `data` at `pos`. The string is
    /// `None` when its bytes are not valid UTF-8.
    pub fn parse(data: &[u8], pos: usize, e: Endianness) -> (r: Result<
        (Option<String>, usize),
        Error,
    >)
        ensures
            r is Ok <==> (pos + 4 <= data@.len() && pos + 4 + spec_header_string_len(
                data@,
                pos as int,
                e,
            ) <= data@.len()),
            r is Err ==> r->Err_0 is NotEnoughSpaceForStringLen || r->Err_0
                is StringLengthTooLong,
            r is Ok ==> {
                let (s, new_pos) = r->Ok_0;
                let text = spec_header_string_bytes(data@, pos as int, e);
                &&& new_pos == pos + 4 + spec_header_string_len(data@, pos as int, e)
                &&& (s is Some <==> strings::utf8_valid(text))
                &&& s is Some ==> s->0@ == strings::utf8_chars(text)
                &&& strings::ascii_seq(text) ==> s is Some && s->0@ == strings::ascii_chars(text)
            },
    {
        let dlen = data.len();
        if dlen < 4 || pos > dlen - 4 {
            return Err(Error::NotEnoughSpaceForStringLen);
        }
        let len = read_u32(data, pos, e) as usize;
        proof {
            crate::endian::lemma_pow256_values();
        }
        if len > dlen - (pos + 4) {
            return Err(Error::StringLengthTooLong);
        }
        let text = take_up_to_nul(&data[pos + 4..pos + 4 + len]);
        let s = strings::utf8_string(text.as_slice());
        Ok((s, pos + 4 + len))
    }
}

/// A single event attr with its name and its event IDs.
pub struct AttributeDescription {
    pub attr: PerfEventAttr,
    pub name: Option<String>,
    pub event_ids: Vec<u64>,
}

impl AttributeDescription {
    /// The event attributes.
    pub fn attributes(&self) -> &PerfEventAttr {
        &self.attr
    }

    /// The event name.
    pub fn name(&self) -> (r: Option<&String>)
        ensures
            r is Some <==> self.name is Some,
            r is Some ==> r->0@ == self.name->0@,
    {
        self.name.as_ref()
    }

    /// The IDs for this event.
    pub fn ids(&self) -> (r: &Vec<u64>)
        ensures
            r@ == self.event_ids@,
    {
        &self.event_ids
    }

    /// Reads one attribute at `pos`, skipping padding up to the declared
    /// `attr_size`. Fails when the attribute's own size exceeds the declared
    /// one, since the attribute would then spill into its neighbor's slot.
    pub fn parse_single_attr(data: &[u8], pos: usize, attr_size: u64, e: Endianness) -> (r: Result<
        (PerfEventAttr, usize),
        Error,
    >)
        ensures
            r is Ok <==> ({
                let reported = attr_info::attr_parse_size(
                    data@.subrange(pos as int, pos + attr_size),
                    e == Endianness::LittleEndian,
                );
                &&& attr_size <= 0x7FFF_FFFF
                &&& pos + attr_size <= data@.len()
                &&& reported is Some
                &&& reported->0 <= attr_size
            }),
            r is Ok ==> r->Ok_0.1 == pos + attr_size,
            r is Err ==> crate::error::is_section_error(r->Err_0),
            r is Err && r->Err_0 is InconsistentAttributeSizes ==> attr_info::attr_parse_size(
                data@.subrange(pos as int, pos + attr_size),
                e == Endianness::LittleEndian,
            )->0 > attr_size,
    {
        let dlen = data.len();
        if attr_size > 0x7FFF_FFFF || pos > dlen {
            return Err(Error::Read(ReadError::PerfEventAttr));
        }
        let asz = attr_size as usize;
        if asz > dlen - pos {
            return Err(Error::Read(ReadError::PerfEventAttr));
        }
        let (attr, size) = match attr_info::parse_perf_event_attr(&data[pos..pos + asz], e) {
            Ok(pair) => pair,
            Err(err) => {
                return Err(Error::Read(err));
            }
        };
        if size > attr_size {
            return Err(Error::InconsistentAttributeSizes(size, attr_size));
        }
        // The remaining attr_size - size bytes are padding for future
        // extensions and are skipped.
        Ok((attr, pos + asz))
    }

    /// Parse the HEADER_EVENT_DESC section of a perf.data file into a list of
    /// `AttributeDescription` structs. The section is self-describing: a
    /// count, a per-attr size, and for each event its attr, its id count, its
    /// name and its ids.
    pub fn parse_event_desc_section(data: &[u8], e: Endianness) -> (r: Result<
        Vec<AttributeDescription>,
        Error,
    >)
        ensures
            r is Ok ==> data@.len() >= 8 && r->Ok_0@.len() == int_value(data@.subrange(0, 4), e),
            r is Err ==> crate::error::is_section_error(r->Err_0),
    {
        let dlen = data.len();
        if dlen < 8 {
            return Err(Error::FeatureSectionTooSmall);
        }
        let nr = read_u32(data, 0, e);
        let attr_size = read_u32(data, 4, e) as u64;
        let mut attributes: Vec<AttributeDescription> = Vec::new();
        let mut pos: usize = 8;
        let mut i: u32 = 0;
        while i < nr
            invariant
                attributes@.len() == i as int,
                i <= nr,
                dlen == data@.len(),
                pos <= dlen,
            decreases nr - i,
        {
            let (attr, after_attr) = match Self::parse_single_attr(data, pos, attr_size, e) {
                Ok(pair) => pair,
                Err(err) => {
                    return Err(err);
                }
            };
            pos = after_attr;
            if dlen < 4 || pos > dlen - 4 {
                return Err(Error::FeatureSectionTooSmall);
            }
            let nr_ids = read_u32(data, pos, e);
            pos = pos + 4;
            let name = match HeaderString::parse(data, pos, e) {
                Ok((name, new_pos)) => {
                    pos = new_pos;
                    name
                }
                Err(err) => {
                    return Err(err);
                }
            };
            if nr_ids as usize > (dlen - pos) / 8 {
                return Err(Error::FeatureSectionTooSmall);
            }
            proof {
                assert(pos + 8 * nr_ids <= dlen) by (nonlinear_arith)
                    requires
                        nr_ids <= (dlen - pos) as int / 8,
                        0 <= pos <= dlen,
                ;
            }
            let mut ids: Vec<u64> = Vec::new();
            let mut k: u32 = 0;
            while k < nr_ids
                invariant
                    k <= nr_ids,
                    dlen == data@.len(),
                    pos + 8 * (nr_ids - k) <= dlen,
                decreases nr_ids - k,
            {
                ids.push(read_u64(data, pos, e));
                pos = pos + 8;
                k = k + 1;
            }
            attributes.push(AttributeDescription { attr, name, event_ids: ids });
            i = i + 1;
        }
        Ok(attributes)
    }

    /// Parse the `event_types` section of a perf.data file into a list of
    /// `AttributeDescription` structs. This section was used in the past but
    /// is no longer written.
    pub fn parse_event_types_section(
        data: &[u8],
        section: &PerfFileSection,
        attr_size: u64,
        e: Endianness,
    ) -> (r: Result<Vec<AttributeDescription>, Error>)
        ensures
            r is Ok ==> r->Ok_0@.len() == section.size as int / (attr_size + 16) as int,
            r is Err ==> crate::error::is_section_error(r->Err_0),
    {
        Self::parse_sequence_of_attr_and_id_section(data, section, attr_size, None, e)
    }

    /// Parse the `attr` section of a perf.data file from Simpleperf into a
    /// list of `AttributeDescription` structs. Simpleperf packs an id section
    /// pointer inside each attr slot; names come from the meta info section.
    pub fn parse_simpleperf_attr_section(
        data: &[u8],
        section: &PerfFileSection,
        attr_size: u64,
        event_types: &Vec<SimplePerfEventType>,
        e: Endianness,
    ) -> (r: Result<Vec<AttributeDescription>, Error>)
        ensures
            r is Ok ==> attr_size >= 16 && r->Ok_0@.len() == section.size as int / attr_size as int,
            r is Err ==> crate::error::is_section_error(r->Err_0),
    {
        if attr_size < SECTION_STRUCT_SIZE as u64 {
            return Err(Error::Read(ReadError::PerfEventAttr));
        }
        // Simpleperf reports an attr_size which is 16 bytes larger than the
        // size used for the perf_event_attr data; the extra 16 bytes carry
        // the (offset, size) of the per-event event ID section.
        let attr_size_without_id_section = attr_size - SECTION_STRUCT_SIZE as u64;
        Self::parse_sequence_of_attr_and_id_section(
            data,
            section,
            attr_size_without_id_section,
            Some(event_types),
            e,
        )
    }

    /// Used for the `event_types` section (old Linux perf) and for the `attr`
    /// section of Simpleperf files: a sequence of attr slots, each followed
    /// by a section pointer to that event's id list.
    fn parse_sequence_of_attr_and_id_section(
        data: &[u8],
        section: &PerfFileSection,
        attr_size: u64,
        event_types: Option<&Vec<SimplePerfEventType>>,
        e: Endianness,
    ) -> (r: Result<Vec<AttributeDescription>, Error>)
        ensures
            r is Ok ==> r->Ok_0@.len() == section.size as int / (attr_size + 16) as int,
            r is Err ==> crate::error::is_section_error(r->Err_0),
    {
        let dlen = data.len();
        if attr_size > 0x7FFF_FFFF {
            return Err(Error::Read(ReadError::PerfEventAttr));
        }
        if section.offset > dlen as u64 || section.size > dlen as u64 - section.offset {
            return Err(Error::SectionSizeTooBig);
        }
        let entry_size = attr_size + SECTION_STRUCT_SIZE as u64;
        let entry_count = section.size / entry_size;
        if entry_count > 0x0FFF_FFFF {
            return Err(Error::SectionSizeTooBig);
        }
        let mut pos = section.offset as usize;
        let mut entries: Vec<(PerfEventAttr, PerfFileSection)> = Vec::new();
        let mut i: u64 = 0;
        while i < entry_count
            invariant
                i <= entry_count,
                entries@.len() == i as int,
                dlen == data@.len(),
                pos <= dlen,
            decreases entry_count - i,
        {
            let (attr, after_attr) = match Self::parse_single_attr(data, pos, attr_size, e) {
                Ok(pair) => pair,
                Err(err) => {
                    return Err(err);
                }
            };
            pos = after_attr;
            if dlen < SECTION_STRUCT_SIZE || pos > dlen - SECTION_STRUCT_SIZE {
                return Err(Error::Read(ReadError::AttrsSection));
            }
            let id_section = PerfFileSection::parse(data, pos, e);
            pos = pos + SECTION_STRUCT_SIZE;
            entries.push((attr, id_section));
            i = i + 1;
        }
        // Read the list of event IDs of each entry.
        let mut attributes: Vec<AttributeDescription> = Vec::new();
        let mut idx: usize = 0;
        while idx < entries.len()
            invariant
                attributes@.len() == idx as int,
                idx <= entries@.len(),
                dlen == data@.len(),
            decreases entries@.len() - idx,
        {
            let id_section = entries[idx].1;
            let id_count = id_section.size / 8;
            if id_section.offset > dlen as u64 || id_section.size > dlen as u64
                - id_section.offset {
                return Err(Error::Read(ReadError::AttrsSection));
            }
            proof {
                assert(id_section.offset + 8 * id_count <= dlen) by (nonlinear_arith)
                    requires
                        id_count == id_section.size as int / 8,
                        id_section.offset + id_section.size <= dlen,
                        id_section.size >= 0,
                        id_section.offset >= 0,
                ;
            }
            let mut ids: Vec<u64> = Vec::new();
            let mut ipos = id_section.offset as usize;
            let mut k: u64 = 0;
            while k < id_count
                invariant
                    k <= id_count,
                    dlen == data@.len(),
                    ipos + 8 * (id_count - k) <= dlen,
                decreases id_count - k,
            {
                ids.push(read_u64(data, ipos, e));
                ipos = ipos + 8;
                k = k + 1;
            }
            let name: Option<String> = match event_types {
                Some(types) => {
                    if idx < types.len() {
                        Some(types[idx].name.clone())
                    } else {
                        None
                    }
                }
                None => None,
            };
            let attr = entries[idx].0;
            attributes.push(AttributeDescription { attr, name, event_ids: ids });
            idx = idx + 1;
        }
        Ok(attributes)
    }

    /// Parse the `attr` section of a perf.data file into a list of
    /// `AttributeDescription` structs. This section is used as a last resort
    /// because it has no information about event IDs.
    pub fn parse_attr_section(
        data: &[u8],
        section: &PerfFileSection,
        attr_size: u64,
        e: Endianness,
    ) -> (r: Result<Vec<AttributeDescription>, Error>)
        ensures
            r is Ok ==> attr_size > 0,
            r is Ok ==> r->Ok_0@.len() == section.size as int / attr_size as int,
            r is Ok ==> forall|k: int|
                0 <= k < r->Ok_0@.len() ==> (#[trigger] r->Ok_0@[k]).event_ids@.len() == 0
                    && r->Ok_0@[k].name is None,
            r is Err ==> crate::error::is_section_error(r->Err_0),
    {
        let dlen = data.len();
        if attr_size == 0 {
            return Err(Error::Read(ReadError::AttrsSection));
        }
        if section.offset > dlen as u64 || section.size > dlen as u64 - section.offset {
            return Err(Error::SectionSizeTooBig);
        }
        let attr_count = section.size / attr_size;
        if attr_count > 0x0FFF_FFFF {
            return Err(Error::SectionSizeTooBig);
        }
        let mut pos = section.offset as usize;
        let mut attributes: Vec<AttributeDescription> = Vec::new();
        let mut i: u64 = 0;
        while i < attr_count
            invariant
                i <= attr_count,
                attributes@.len() == i as int,
                dlen == data@.len(),
                pos <= dlen,
                forall|k: int|
                    0 <= k < attributes@.len() ==> (#[trigger] attributes@[k]).event_ids@.len()
                        == 0 && attributes@[k].name is None,
            decreases attr_count - i,
        {
            let (attr, after_attr) = match Self::parse_single_attr(data, pos, attr_size, e) {
                Ok(pair) => pair,
                Err(err) => {
                    return Err(err);
                }
            };
            pos = after_attr;
            attributes.push(AttributeDescription { attr, name: None, event_ids: Vec::new() });
            i = i + 1;
        }
        proof {
            assert(attributes@.len() == section.size as int / attr_size as int);
            assert(forall|k: int|
                0 <= k < attributes@.len() ==> (#[trigger] attributes@[k]).event_ids@.len() == 0
                    && attributes@[k].name is None);
        }
        Ok(attributes)
    }
}

/// The names of the dynamic PMU types, keyed by PMU type index.
///
/// This lets a consumer tell kprobes from uprobes and name the other dynamic
/// PMU events of the machine.
pub struct PmuMappings(pub LinearMap<u32, String>);

impl PmuMappings {
    /// Reads a PMU_MAPPINGS feature section: a count, then pairs of a PMU
    /// type index and its name. Entries whose name is not valid UTF-8 are
    /// dropped, as no consumer could name them.
    pub fn parse(data: &[u8], e: Endianness) -> (r: Result<PmuMappings, Error>)
        ensures
            r is Ok ==> data@.len() >= 4,
            data@.len() >= 4 && int_value(data@.subrange(0, 4), e) == 0 ==> r is Ok,
            r is Err ==> crate::error::is_section_error(r->Err_0),
    {
        let dlen = data.len();
        if dlen < 4 {
            return Err(Error::FeatureSectionTooSmall);
        }
        let nr = read_u32(data, 0, e);
        let mut pos: usize = 4;
        let mut map = linmap::pmu_map_new();
        let mut i: u32 = 0;
        while i < nr
            invariant
                i <= nr,
                nr == int_value(data@.subrange(0, 4), e),
                pos <= data@.len(),
            decreases nr - i,
        {
            let dl = data.len();
            if dl < 4 || pos > dl - 4 {
                return Err(Error::FeatureSectionTooSmall);
            }
            let pmu_type = read_u32(data, pos, e);
            pos = pos + 4;
            match HeaderString::parse(data, pos, e) {
                Ok((Some(name), new_pos)) => {
                    pos = new_pos;
                    linmap::pmu_map_insert(&mut map, pmu_type, name);
                }
                Ok((None, new_pos)) => {
                    pos = new_pos;
                }
                Err(err) => {
                    return Err(err);
                }
            }
            i = i + 1;
        }
        Ok(PmuMappings(map))
    }
}

} // verus!
