use vstd::prelude::*;

use crate::build_id_event::BuildIdEvent;
use crate::dso_key::{CpuMode, DsoKey};
use crate::endian::Endianness;
use crate::error::Error;
use crate::feature_sections::{ClockData, HeaderString, NrCpus, PmuMappings, SampleTimeRange,
    AttributeDescription};
use crate::features::{feature_bit, Feature, FeatureSet};
use crate::linmap;
use crate::simpleperf;
use linear_map::LinearMap;

verus! {

/// The file path and the build ID of a DSO.
#[derive(Debug, Clone, PartialEq, Eq, Hash)]
pub struct DsoInfo {
    /// The file path. Can be an absolute path or a special string
    /// of various forms, e.g. `[vdso]`.
    pub path: Vec<u8>,
    /// The build ID.
    pub build_id: Vec<u8>,
}

/// Contains the information from the perf.data file header and feature
/// sections.
pub struct PerfFile {
    /// The byte order of the file.
    pub endian: Endianness,
    /// The feature bitset of the file header, or the one reconstructed from
    /// the features seen in a pipe-mode stream.
    pub features: FeatureSet,
    /// The feature sections, keyed by feature bit index.
    pub feature_sections: LinearMap<u32, Vec<u8>>,
    /// The event attributes. Guaranteed to have at least one element.
    pub attributes: Vec<AttributeDescription>,
}

impl PerfFile {
    /// The feature sections, keyed by feature bit index.
    pub closed spec fn sections(&self) -> Map<u32, Seq<u8>> {
        linmap::feature_map_view(self.feature_sections)
    }

    /// The attributes which were requested for each perf event, along with
    /// their IDs.
    pub fn event_attributes(&self) -> (r: &Vec<AttributeDescription>)
        ensures
            r@ == self.attributes@,
    {
        &self.attributes
    }

    /// The set of features used in this perf file.
    pub fn features(&self) -> (r: FeatureSet)
        ensures
            r == self.features,
    {
        self.features
    }

    /// The file endian.
    pub fn endian(&self) -> (r: Endianness)
        ensures
            r == self.endian,
    {
        self.endian
    }

    /// The raw data of a feature section.
    pub fn feature_section_data(&self, feature: Feature) -> (r: Option<&Vec<u8>>)
        ensures
            match r {
                Some(v) => self.sections().contains_key(feature_bit(feature)) && v@
                    == self.sections()[feature_bit(feature)],
                None => !self.sections().contains_key(feature_bit(feature)),
            },
    {
        linmap::feature_map_get(&self.feature_sections, feature.to_int())
    }

    /// If true, the data section contains data recorded from `perf stat`.
    pub fn is_stats(&self) -> (r: bool)
        ensures
            r == self.features.spec_has_feature(feature_bit(Feature::Stat)),
    {
        self.features.has_feature(Feature::Stat.to_int())
    }

    /// What a string-valued feature accessor returns: `Ok(None)` when the
    /// section is absent; otherwise success exactly when the section holds
    /// its declared string, which comes back decoded when it is valid UTF-8
    /// and as `None` when it is not.
    pub open spec fn string_feature_result(
        &self,
        feature: Feature,
        r: Result<Option<String>, Error>,
    ) -> bool {
        let f = feature_bit(feature);
        let s = self.sections()[f];
        let text = crate::feature_sections::spec_header_string_bytes(s, 0, self.endian);
        &&& (!self.sections().contains_key(f) ==> r == Ok::<Option<String>, Error>(None))
        &&& (self.sections().contains_key(f) ==> {
            &&& (r is Ok <==> s.len() >= 4 && 4 + crate::feature_sections::spec_header_string_len(
                s,
                0,
                self.endian,
            ) <= s.len())
            &&& (r is Ok ==> (r->Ok_0 is Some <==> crate::strings::utf8_valid(text)))
            &&& (r is Ok && r->Ok_0 is Some ==> r->Ok_0->0@ == crate::strings::utf8_chars(text))
        })
    }

    /// The string of a feature section that holds a single
    /// `perf_header_string`.
    fn feature_string(&self, feature: Feature) -> (r: Result<Option<String>, Error>)
        ensures
            self.string_feature_result(feature, r),
            r is Ok && r->Ok_0 is Some ==> self.sections().contains_key(feature_bit(feature)),
    {
        match self.feature_section_data(feature) {
            Some(section) => {
                match HeaderString::parse(section.as_slice(), 0, self.endian) {
                    Ok((s, _)) => Ok(s),
                    Err(err) => Err(err),
                }
            }
            None => Ok(None),
        }
    }

    /// The hostname where the data was collected (`uname -n`).
    pub fn hostname(&self) -> (r: Result<Option<String>, Error>)
        ensures
            self.string_feature_result(Feature::Hostname, r),
    {
        self.feature_string(Feature::Hostname)
    }

    /// The OS release where the data was collected (`uname -r`).
    pub fn os_release(&self) -> (r: Result<Option<String>, Error>)
        ensures
            self.string_feature_result(Feature::OsRelease, r),
    {
        self.feature_string(Feature::OsRelease)
    }

    /// The perf user tool version where the data was collected. This is the
    /// same as the version of the Linux source tree the perf tool was built
    /// from.
    pub fn perf_version(&self) -> (r: Result<Option<String>, Error>)
        ensures
            self.string_feature_result(Feature::Version, r),
    {
        self.feature_string(Feature::Version)
    }

    /// The CPU architecture (`uname -m`).
    pub fn arch(&self) -> (r: Result<Option<String>, Error>)
        ensures
            self.string_feature_result(Feature::Arch, r),
    {
        self.feature_string(Feature::Arch)
    }

    /// The description of the CPU. On x86 this is the model name from
    /// `/proc/cpuinfo`.
    pub fn cpu_desc(&self) -> (r: Result<Option<String>, Error>)
        ensures
            self.string_feature_result(Feature::CpuDesc, r),
    {
        self.feature_string(Feature::CpuDesc)
    }

    /// The exact CPU type, e.g. `GenuineIntel,6,69,1` on x86.
    pub fn cpu_id(&self) -> (r: Result<Option<String>, Error>)
        ensures
            self.string_feature_result(Feature::CpuId, r),
    {
        self.feature_string(Feature::CpuId)
    }

    /// A structure defining the number of CPUs.
    pub fn nr_cpus(&self) -> (r: Result<Option<NrCpus>, Error>)
        ensures
            !self.sections().contains_key(feature_bit(Feature::NrCpus)) ==> r == Ok::<
                Option<NrCpus>,
                Error,
            >(None),
            self.sections().contains_key(feature_bit(Feature::NrCpus)) ==> (r is Ok
                <==> self.sections()[feature_bit(Feature::NrCpus)].len() >= 8) && (r is Ok
                ==> r->Ok_0 is Some),
            r is Ok && r->Ok_0 is Some ==> {
                let s = self.sections()[feature_bit(Feature::NrCpus)];
                &&& self.sections().contains_key(feature_bit(Feature::NrCpus))
                &&& s.len() >= 8
                &&& r->Ok_0->0 == (NrCpus {
                    nr_cpus_available: crate::endian::int_value(
                        s.subrange(0, 4),
                        self.endian,
                    ) as u32,
                    nr_cpus_online: crate::endian::int_value(s.subrange(4, 8), self.endian) as u32,
                })
            },
    {
        match self.feature_section_data(Feature::NrCpus) {
            Some(section) => {
                match NrCpus::parse(section.as_slice(), self.endian) {
                    Ok(v) => Ok(Some(v)),
                    Err(err) => Err(err),
                }
            }
            None => Ok(None),
        }
    }

    /// The timestamps of the first and the last sample in this file.
    pub fn sample_time_range(&self) -> (r: Result<Option<SampleTimeRange>, Error>)
        ensures
            !self.sections().contains_key(feature_bit(Feature::SampleTime)) ==> r == Ok::<
                Option<SampleTimeRange>,
                Error,
            >(None),
            self.sections().contains_key(feature_bit(Feature::SampleTime)) ==> (r is Ok
                <==> self.sections()[feature_bit(Feature::SampleTime)].len() >= 16) && (r is Ok
                ==> r->Ok_0 is Some),
            r is Ok && r->Ok_0 is Some ==> {
                let s = self.sections()[feature_bit(Feature::SampleTime)];
                &&& self.sections().contains_key(feature_bit(Feature::SampleTime))
                &&& s.len() >= 16
                &&& r->Ok_0->0 == (SampleTimeRange {
                    first_sample_time: crate::endian::int_value(
                        s.subrange(0, 8),
                        self.endian,
                    ) as u64,
                    last_sample_time: crate::endian::int_value(
                        s.subrange(8, 16),
                        self.endian,
                    ) as u64,
                })
            },
    {
        match self.feature_section_data(Feature::SampleTime) {
            Some(section) => {
                match SampleTimeRange::parse(section.as_slice(), self.endian) {
                    Ok(v) => Ok(Some(v)),
                    Err(err) => Err(err),
                }
            }
            None => Ok(None),
        }
    }

    /// The clock used for the file's timestamps, with its anchor readings.
    pub fn clock_data(&self) -> (r: Result<Option<ClockData>, Error>)
        ensures
            !self.sections().contains_key(feature_bit(Feature::ClockData)) ==> r == Ok::<
                Option<ClockData>,
                Error,
            >(None),
            self.sections().contains_key(feature_bit(Feature::ClockData)) ==> {
                let s = self.sections()[feature_bit(Feature::ClockData)];
                &&& (r is Ok <==> s.len() >= 24 && crate::endian::int_value(
                    s.subrange(0, 4),
                    self.endian,
                ) == 1)
                &&& (r is Ok ==> r->Ok_0 == Some(
                    ClockData {
                        clockid: crate::endian::int_value(s.subrange(4, 8), self.endian) as u32,
                        wall_clock_ns: crate::endian::int_value(
                            s.subrange(8, 16),
                            self.endian,
                        ) as u64,
                        clockid_time_ns: crate::endian::int_value(
                            s.subrange(16, 24),
                            self.endian,
                        ) as u64,
                    },
                ))
            },
    {
        match self.feature_section_data(Feature::ClockData) {
            Some(section) => {
                match ClockData::parse(section.as_slice(), self.endian) {
                    Ok(v) => Ok(Some(v)),
                    Err(err) => Err(err),
                }
            }
            None => Ok(None),
        }
    }

    /// The total memory in kilobytes. (MemTotal from /proc/meminfo)
    pub fn total_mem(&self) -> (r: Result<Option<u64>, Error>)
        ensures
            !self.sections().contains_key(feature_bit(Feature::TotalMem)) ==> r == Ok::<
                Option<u64>,
                Error,
            >(None),
            self.sections().contains_key(feature_bit(Feature::TotalMem)) ==> (r is Ok
                <==> self.sections()[feature_bit(Feature::TotalMem)].len() >= 8) && (r is Ok
                ==> r->Ok_0 is Some),
            r is Ok && r->Ok_0 is Some ==> {
                let s = self.sections()[feature_bit(Feature::TotalMem)];
                &&& self.sections().contains_key(feature_bit(Feature::TotalMem))
                &&& s.len() >= 8
                &&& r->Ok_0->0 == crate::endian::int_value(s.subrange(0, 8), self.endian)
            },
    {
        let data = match self.feature_section_data(Feature::TotalMem) {
            Some(data) => data,
            None => {
                return Ok(None);
            }
        };
        if data.len() < 8 {
            return Err(Error::FeatureSectionTooSmall);
        }
        let mem = crate::endian::read_u64(data.as_slice(), 0, self.endian);
        Ok(Some(mem))
    }

    /// The perf arg-vector used to collect the data.
    pub fn cmdline(&self) -> (r: Result<Option<Vec<String>>, Error>)
        ensures
            !self.sections().contains_key(feature_bit(Feature::Cmdline)) ==> r == Ok::<
                Option<Vec<String>>,
                Error,
            >(None),
            self.sections().contains_key(feature_bit(Feature::Cmdline)) && r is Ok ==> r->Ok_0
                is Some,
    {
        match self.feature_section_data(Feature::Cmdline) {
            Some(section) => {
                match Self::read_string_list(section.as_slice(), self.endian) {
                    Ok(v) => Ok(Some(v)),
                    Err(err) => Err(err),
                }
            }
            None => Ok(None),
        }
    }

    /// The meta info map, if this is a Simpleperf profile.
    pub fn simpleperf_meta_info(&self) -> (r: Result<Option<Vec<(String, String)>>, Error>)
        ensures
            !self.sections().contains_key(feature_bit(Feature::SimpleperfMetaInfo)) ==> r
                == Ok::<Option<Vec<(String, String)>>, Error>(None),
            self.sections().contains_key(feature_bit(Feature::SimpleperfMetaInfo)) ==> {
                let s = self.sections()[feature_bit(Feature::SimpleperfMetaInfo)];
                let pieces = simpleperf::split_nul(s);
                &&& (r is Ok <==> forall|i: int|
                    0 <= i < 2 * (pieces.len() / 2) ==> crate::strings::utf8_valid(
                        #[trigger] pieces[i],
                    ))
                &&& (r is Ok ==> r->Ok_0 is Some && r->Ok_0->0@.len() == pieces.len() / 2)
                &&& (r is Ok ==> forall|i: int|
                    0 <= i < r->Ok_0->0@.len() ==> (#[trigger] r->Ok_0->0@[i]).0@
                        == crate::strings::utf8_chars(pieces[2 * i]) && r->Ok_0->0@[i].1@
                        == crate::strings::utf8_chars(pieces[2 * i + 1]))
            },
    {
        match self.feature_section_data(Feature::SimpleperfMetaInfo) {
            Some(section) => {
                match simpleperf::parse_meta_info_map(section.as_slice()) {
                    Ok(v) => Ok(Some(v)),
                    Err(err) => Err(err),
                }
            }
            None => Ok(None),
        }
    }

    /// The names of the dynamic PMU types, keyed by PMU type index.
    ///
    /// This mapping allows a consumer to interpret the perf event type field
    /// of the attributes: for example a kprobe and a uprobe both arrive as
    /// dynamic-PMU events, and only this map tells them apart.
    pub fn pmu_mappings(&self) -> (r: Result<Option<PmuMappings>, Error>)
        ensures
            !self.sections().contains_key(feature_bit(Feature::PmuMappings)) ==> r == Ok::<
                Option<PmuMappings>,
                Error,
            >(None),
            self.sections().contains_key(feature_bit(Feature::PmuMappings)) && r is Ok ==> r->Ok_0
                is Some,
    {
        match self.feature_section_data(Feature::PmuMappings) {
            Some(section) => {
                match PmuMappings::parse(section.as_slice(), self.endian) {
                    Ok(v) => Ok(Some(v)),
                    Err(err) => Err(err),
                }
            }
            None => Ok(None),
        }
    }

    /// The build ID entries of the BUILD_ID feature section, each with the
    /// canonical key that links it to mmap records. Later entries win over
    /// earlier ones with the same key; a truncated tail ends the enumeration
    /// silently.
    pub fn build_ids(&self) -> (r: Vec<(DsoKey, DsoInfo)>)
        ensures
            !self.sections().contains_key(feature_bit(Feature::BuildId)) ==> r@.len() == 0,
            forall|i: int, j: int|
                0 <= i < j < r@.len() ==> !DsoKey::eq_model(
                    (#[trigger] r@[i]).0.model(),
                    (#[trigger] r@[j]).0.model(),
                ),
    {
        let section_data = match self.feature_section_data(Feature::BuildId) {
            Some(section) => section,
            None => {
                return Vec::new();
            }
        };
        let mut build_ids: Vec<(DsoKey, DsoInfo)> = Vec::new();
        let mut pos: usize = 0;
        let n = section_data.len();
        loop
            invariant
                pos <= n,
                n == section_data@.len(),
                forall|i: int, j: int|
                    0 <= i < j < build_ids@.len() ==> !DsoKey::eq_model(
                        (#[trigger] build_ids@[i]).0.model(),
                        (#[trigger] build_ids@[j]).0.model(),
                    ),
            decreases n - pos,
        {
            let (event, new_pos) = match BuildIdEvent::parse(
                section_data.as_slice(),
                pos,
                self.endian,
            ) {
                Ok(pair) => pair,
                Err(_) => {
                    break ;
                }
            };
            pos = new_pos;
            let dso_key = match DsoKey::detect(
                event.file_path.as_slice(),
                CpuMode::from_misc(event.header.misc),
            ) {
                Some(dso_key) => dso_key,
                None => {
                    continue ;
                }
            };
            let info = DsoInfo { path: event.file_path, build_id: event.build_id };
            replace_or_push(&mut build_ids, dso_key, info);
        }
        build_ids
    }

    /// A `perf_header_string` list: a `u32` count, then that many strings.
    fn read_string_list(s: &[u8], e: Endianness) -> (r: Result<Vec<String>, Error>) {
        if s.len() < 4 {
            return Err(Error::NotEnoughSpaceForStringListLen);
        }
        let len = crate::endian::read_u32(s, 0, e);
        let mut vec: Vec<String> = Vec::new();
        let mut pos: usize = 4;
        let mut i: u32 = 0;
        while i < len
            invariant
                i <= len,
                pos <= s@.len(),
            decreases len - i,
        {
            match HeaderString::parse(s, pos, e) {
                Ok((Some(string), new_pos)) => {
                    vec.push(string);
                    pos = new_pos;
                }
                Ok((None, _)) => {
                    return Err(Error::StringUtf8);
                }
                Err(err) => {
                    return Err(err);
                }
            }
            i = i + 1;
        }
        Ok(vec)
    }
}

/// Replaces the entry with the same key, or appends a new one: the update
/// keeps one entry per key, and later entries win.
fn replace_or_push(entries: &mut Vec<(DsoKey, DsoInfo)>, key: DsoKey, info: DsoInfo)
    requires
        forall|i: int, j: int|
            0 <= i < j < old(entries)@.len() ==> !DsoKey::eq_model(
                (#[trigger] old(entries)@[i]).0.model(),
                (#[trigger] old(entries)@[j]).0.model(),
            ),
    ensures
        forall|i: int, j: int|
            0 <= i < j < final(entries)@.len() ==> !DsoKey::eq_model(
                (#[trigger] final(entries)@[i]).0.model(),
                (#[trigger] final(entries)@[j]).0.model(),
            ),
        exists|i: int|
            0 <= i < final(entries)@.len() && (#[trigger] final(entries)@[i]).0.model()
                == key.model() && final(entries)@[i].1 == info,
{
    let mut i: usize = 0;
    let n = entries.len();
    while i < n
        invariant
            i <= n,
            n == entries@.len(),
            entries@ == old(entries)@,
            forall|a: int, b: int|
                0 <= a < b < entries@.len() ==> !DsoKey::eq_model(
                    (#[trigger] entries@[a]).0.model(),
                    (#[trigger] entries@[b]).0.model(),
                ),
            forall|k: int| 0 <= k < i ==> !DsoKey::eq_model(
                (#[trigger] entries@[k]).0.model(),
                key.model(),
            ),
        decreases n - i,
    {
        if entries[i].0.same_key(&key) {
            let ghost before = entries@;
            let ghost ii = i as int;
            entries.set(i, (key, info));
            proof {
                lemma_eq_model_reflexive(key.model());
                assert(entries@[ii].0.model() == key.model());
                assert forall|a: int, b: int|
                    0 <= a < b < entries@.len() implies !DsoKey::eq_model(
                    (#[trigger] entries@[a]).0.model(),
                    (#[trigger] entries@[b]).0.model(),
                ) by {
                    assert(!DsoKey::eq_model(before[a].0.model(), before[b].0.model()));
                    if a == ii {
                        assert(entries@[b] == before[b]);
                        if DsoKey::eq_model(key.model(), before[b].0.model()) {
                            lemma_eq_model_trans(
                                before[a].0.model(),
                                key.model(),
                                before[b].0.model(),
                            );
                        }
                    } else if b == ii {
                        assert(entries@[a] == before[a]);
                        assert(!DsoKey::eq_model(before[a].0.model(), key.model()));
                    } else {
                        assert(entries@[a] == before[a] && entries@[b] == before[b]);
                    }
                }
            }
            return ;
        }
        i = i + 1;
    }
    proof {
        lemma_eq_model_reflexive(key.model());
    }
    entries.push((key, info));
    proof {
        let m = entries@;
        assert(m[m.len() - 1].0.model() == key.model());
        assert forall|a: int, b: int|
            0 <= a < b < m.len() implies !DsoKey::eq_model(
            (#[trigger] m[a]).0.model(),
            (#[trigger] m[b]).0.model(),
        ) by {
            if b == m.len() - 1 {
                assert(m[a] == old(entries)@[a]);
                assert(!DsoKey::eq_model(old(entries)@[a].0.model(), key.model()));
            } else {
                assert(m[a] == old(entries)@[a] && m[b] == old(entries)@[b]);
                assert(!DsoKey::eq_model(old(entries)@[a].0.model(), old(entries)@[b].0.model()));
            }
        }
    }
}

/// Key-model equality holds of every model and itself.
proof fn lemma_eq_model_reflexive(m: crate::dso_key::DsoKeyModel)
    ensures
        DsoKey::eq_model(m, m),
{
}

/// Key-model equality is symmetric.
proof fn lemma_eq_model_sym(a: crate::dso_key::DsoKeyModel, b: crate::dso_key::DsoKeyModel)
    requires
        DsoKey::eq_model(a, b),
    ensures
        DsoKey::eq_model(b, a),
{
}

/// Key-model equality is transitive.
proof fn lemma_eq_model_trans(
    a: crate::dso_key::DsoKeyModel,
    b: crate::dso_key::DsoKeyModel,
    c: crate::dso_key::DsoKeyModel,
)
    requires
        DsoKey::eq_model(a, b),
        DsoKey::eq_model(b, c),
    ensures
        DsoKey::eq_model(a, c),
{
}

} // verus!
