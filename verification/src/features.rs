use vstd::prelude::*;

use crate::bitset256;

verus! {

/// A piece of optional data stored in a perf.data file. Its data is contained
/// in a "feature section" at the end of the file.
///
/// For each used feature, a bit is set in the feature flags in the file
/// header. The feature sections are stored just after the file's data
/// section; there's one section for each enabled feature, ordered from low
/// feature bit to high feature bit.
#[derive(Debug, Clone, Copy, PartialEq, Eq, Structural)]
pub enum Feature {
    TracingData,
    BuildId,
    Hostname,
    OsRelease,
    Version,
    Arch,
    NrCpus,
    CpuDesc,
    CpuId,
    TotalMem,
    Cmdline,
    EventDesc,
    CpuTopology,
    NumaTopology,
    BranchStack,
    PmuMappings,
    GroupDesc,
    Auxtrace,
    Stat,
    Cache,
    SampleTime,
    SampleTopology,
    ClockId,
    DirFormat,
    BpfProgInfo,
    BpfBtf,
    Compressed,
    CpuPmuCaps,
    ClockData,
    HybridTopology,
    HybridCpuPmuCaps,
    SimpleperfMetaInfo,
    SimpleperfDebugUnwind,
    SimpleperfDebugUnwindFile,
    SimpleperfFile2,
}

/// The bit index of a feature in the 256-bit header bitset.
pub open spec fn feature_bit(f: Feature) -> u32 {
    match f {
        Feature::TracingData => 1,
        Feature::BuildId => 2,
        Feature::Hostname => 3,
        Feature::OsRelease => 4,
        Feature::Version => 5,
        Feature::Arch => 6,
        Feature::NrCpus => 7,
        Feature::CpuDesc => 8,
        Feature::CpuId => 9,
        Feature::TotalMem => 10,
        Feature::Cmdline => 11,
        Feature::EventDesc => 12,
        Feature::CpuTopology => 13,
        Feature::NumaTopology => 14,
        Feature::BranchStack => 15,
        Feature::PmuMappings => 16,
        Feature::GroupDesc => 17,
        Feature::Auxtrace => 18,
        Feature::Stat => 19,
        Feature::Cache => 20,
        Feature::SampleTime => 21,
        Feature::SampleTopology => 22,
        Feature::ClockId => 23,
        Feature::DirFormat => 24,
        Feature::BpfProgInfo => 25,
        Feature::BpfBtf => 26,
        Feature::Compressed => 27,
        Feature::CpuPmuCaps => 28,
        Feature::ClockData => 29,
        Feature::HybridTopology => 30,
        Feature::HybridCpuPmuCaps => 31,
        Feature::SimpleperfMetaInfo => 128,
        Feature::SimpleperfDebugUnwind => 129,
        Feature::SimpleperfDebugUnwindFile => 130,
        Feature::SimpleperfFile2 => 131,
    }
}

/// The feature that a bit index denotes, if it is a known one.
pub open spec fn spec_feature_from_int(i: u32) -> Option<Feature> {
    if i == 1 {
        Some(Feature::TracingData)
    } else if i == 2 {
        Some(Feature::BuildId)
    } else if i == 3 {
        Some(Feature::Hostname)
    } else if i == 4 {
        Some(Feature::OsRelease)
    } else if i == 5 {
        Some(Feature::Version)
    } else if i == 6 {
        Some(Feature::Arch)
    } else if i == 7 {
        Some(Feature::NrCpus)
    } else if i == 8 {
        Some(Feature::CpuDesc)
    } else if i == 9 {
        Some(Feature::CpuId)
    } else if i == 10 {
        Some(Feature::TotalMem)
    } else if i == 11 {
        Some(Feature::Cmdline)
    } else if i == 12 {
        Some(Feature::EventDesc)
    } else if i == 13 {
        Some(Feature::CpuTopology)
    } else if i == 14 {
        Some(Feature::NumaTopology)
    } else if i == 15 {
        Some(Feature::BranchStack)
    } else if i == 16 {
        Some(Feature::PmuMappings)
    } else if i == 17 {
        Some(Feature::GroupDesc)
    } else if i == 18 {
        Some(Feature::Auxtrace)
    } else if i == 19 {
        Some(Feature::Stat)
    } else if i == 20 {
        Some(Feature::Cache)
    } else if i == 21 {
        Some(Feature::SampleTime)
    } else if i == 22 {
        Some(Feature::SampleTopology)
    } else if i == 23 {
        Some(Feature::ClockId)
    } else if i == 24 {
        Some(Feature::DirFormat)
    } else if i == 25 {
        Some(Feature::BpfProgInfo)
    } else if i == 26 {
        Some(Feature::BpfBtf)
    } else if i == 27 {
        Some(Feature::Compressed)
    } else if i == 28 {
        Some(Feature::CpuPmuCaps)
    } else if i == 29 {
        Some(Feature::ClockData)
    } else if i == 30 {
        Some(Feature::HybridTopology)
    } else if i == 31 {
        Some(Feature::HybridCpuPmuCaps)
    } else if i == 128 {
        Some(Feature::SimpleperfMetaInfo)
    } else if i == 129 {
        Some(Feature::SimpleperfDebugUnwind)
    } else if i == 130 {
        Some(Feature::SimpleperfDebugUnwindFile)
    } else if i == 131 {
        Some(Feature::SimpleperfFile2)
    } else {
        None
    }
}

impl Feature {
    /// The feature denoted by bit index `i`, if it is a known one.
    pub fn from_int(i: u32) -> (r: Option<Self>)
        ensures
            r == spec_feature_from_int(i),
            r is Some ==> feature_bit(r->0) == i,
    {
        let feature = match i {
            1 => Self::TracingData,
            2 => Self::BuildId,
            3 => Self::Hostname,
            4 => Self::OsRelease,
            5 => Self::Version,
            6 => Self::Arch,
            7 => Self::NrCpus,
            8 => Self::CpuDesc,
            9 => Self::CpuId,
            10 => Self::TotalMem,
            11 => Self::Cmdline,
            12 => Self::EventDesc,
            13 => Self::CpuTopology,
            14 => Self::NumaTopology,
            15 => Self::BranchStack,
            16 => Self::PmuMappings,
            17 => Self::GroupDesc,
            18 => Self::Auxtrace,
            19 => Self::Stat,
            20 => Self::Cache,
            21 => Self::SampleTime,
            22 => Self::SampleTopology,
            23 => Self::ClockId,
            24 => Self::DirFormat,
            25 => Self::BpfProgInfo,
            26 => Self::BpfBtf,
            27 => Self::Compressed,
            28 => Self::CpuPmuCaps,
            29 => Self::ClockData,
            30 => Self::HybridTopology,
            31 => Self::HybridCpuPmuCaps,
            128 => Self::SimpleperfMetaInfo,
            129 => Self::SimpleperfDebugUnwind,
            130 => Self::SimpleperfDebugUnwindFile,
            131 => Self::SimpleperfFile2,
            _ => {
                return None;
            }
        };
        Some(feature)
    }

    /// The bit index of this feature in the 256-bit header bitset.
    pub fn to_int(&self) -> (r: u32)
        ensures
            r == feature_bit(*self),
    {
        match self {
            Feature::TracingData => 1,
            Feature::BuildId => 2,
            Feature::Hostname => 3,
            Feature::OsRelease => 4,
            Feature::Version => 5,
            Feature::Arch => 6,
            Feature::NrCpus => 7,
            Feature::CpuDesc => 8,
            Feature::CpuId => 9,
            Feature::TotalMem => 10,
            Feature::Cmdline => 11,
            Feature::EventDesc => 12,
            Feature::CpuTopology => 13,
            Feature::NumaTopology => 14,
            Feature::BranchStack => 15,
            Feature::PmuMappings => 16,
            Feature::GroupDesc => 17,
            Feature::Auxtrace => 18,
            Feature::Stat => 19,
            Feature::Cache => 20,
            Feature::SampleTime => 21,
            Feature::SampleTopology => 22,
            Feature::ClockId => 23,
            Feature::DirFormat => 24,
            Feature::BpfProgInfo => 25,
            Feature::BpfBtf => 26,
            Feature::Compressed => 27,
            Feature::CpuPmuCaps => 28,
            Feature::ClockData => 29,
            Feature::HybridTopology => 30,
            Feature::HybridCpuPmuCaps => 31,
            Feature::SimpleperfMetaInfo => 128,
            Feature::SimpleperfDebugUnwind => 129,
            Feature::SimpleperfDebugUnwindFile => 130,
            Feature::SimpleperfFile2 => 131,
        }
    }
}

/// The set of features used in the perf file. The perf file contains one
/// feature section for each feature. This set is provided in the perf
/// file header.
///
/// The set has room for 4 * 64 = 256 feature bits.
#[derive(Debug, Clone, Copy, PartialEq, Eq)]
pub struct FeatureSet(pub [u64; 4]);

impl FeatureSet {
    /// Whether the feature with bit index `f` is in the set.
    pub open spec fn spec_has_feature(&self, f: u32) -> bool {
        bitset256::bit_set(self.0, f)
    }

    /// The number of features in this set.
    pub fn len(&self) -> (r: usize)
        ensures
            r == bitset256::count_bits_below(self.0, 256),
    {
        bitset256::count_bits(&self.0)
    }

    /// Whether the set is empty.
    pub fn is_empty(&self) -> (r: bool)
        ensures
            r == (forall|f: u32| !self.spec_has_feature(f)),
    {
        let count = bitset256::count_bits(&self.0);
        proof {
            if count == 0 {
                bitset256::lemma_count_zero(self.0, 256);
            } else {
                if forall|f: u32| !self.spec_has_feature(f) {
                    assert forall|i: u32| (i as nat) < 256 implies !bitset256::bit_set(
                        self.0,
                        i,
                    ) by {
                        assert(!self.spec_has_feature(i));
                    }
                    bitset256::lemma_count_of_none(self.0, 256);
                }
            }
        }
        count == 0
    }

    /// Emits all features in this set, from low to high.
    pub fn iter(&self) -> (r: FeatureSetIterAll)
        ensures
            r.set() == *self,
            r.position() == 0,
    {
        FeatureSetIterAll { current_feature: 0, set: *self }
    }

    /// Checks if the feature with bit index `feature` is in this set.
    pub fn has_feature(&self, feature: u32) -> (r: bool)
        ensures
            r == self.spec_has_feature(feature),
    {
        bitset256::has_bit(&self.0, feature)
    }
}

/// Iterates over the bit indices of the features in a [`FeatureSet`], from
/// low to high.
pub struct FeatureSetIterAll {
    current_feature: u32,
    set: FeatureSet,
}

impl FeatureSetIterAll {
    /// The set being iterated.
    pub closed spec fn set(&self) -> FeatureSet {
        self.set
    }

    /// The bit index at which the iteration will resume.
    pub closed spec fn position(&self) -> u32 {
        self.current_feature
    }

    /// The bit index of the next feature in the set, if one at or above the
    /// current position remains.
    pub fn next(&mut self) -> (r: Option<u32>)
        ensures
            match r {
                Some(f) => {
                    &&& old(self).position() <= f < 256
                    &&& final(self).set().spec_has_feature(f)
                    &&& forall|g: u32|
                        old(self).position() <= g < f ==> !final(self).set().spec_has_feature(g)
                    &&& final(self).position() == f + 1
                },
                None => {
                    &&& forall|g: u32|
                        old(self).position() <= g ==> !final(self).set().spec_has_feature(g)
                },
            },
            final(self).set() == old(self).set(),
    {
        while self.current_feature < 256
            invariant
                self.set == old(self).set,
                old(self).current_feature <= self.current_feature,
                forall|g: u32|
                    old(self).current_feature <= g < self.current_feature
                        ==> !self.set.spec_has_feature(g),
            decreases 256 - self.current_feature,
        {
            let feature = self.current_feature;
            self.current_feature = self.current_feature + 1;

            if self.set.has_feature(feature) {
                return Some(feature);
            }
        }
        None
    }
}

} // verus!
