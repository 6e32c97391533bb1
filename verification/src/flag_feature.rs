use vstd::prelude::*;

use crate::bitset256;

verus! {

/// A well-known header flag of a perf.data file. Each flag marks one
/// feature section at the end of the file.
///
/// For each used flag, a bit is set in the feature flags in the file
/// header. The feature sections are stored just after the file's data
/// section, one section per set flag, ordered from low bit to high bit.
#[derive(Debug, Clone, Copy, PartialEq, Eq, Structural)]
pub enum FlagFeature {
    TracingData,
    BuildId,
    Hostname,
    OsRelease,
    Version,
    Arch,
    NrCpus,
    CpuDesc,
    CpuId,
    TotalMem,
    Cmdline,
    EventDesc,
    CpuTopology,
    NumaTopology,
    BranchStack,
    PmuMappings,
    GroupDesc,
    Auxtrace,
    Stat,
    Cache,
    SampleTime,
    SampleTopology,
    ClockId,
    DirFormat,
    BpfProgInfo,
    BpfBtf,
    Compressed,
    CpuPmuCaps,
    ClockData,
    HybridTopology,
    HybridCpuPmuCaps,
}

/// The bit index of a flag in the 256-bit header bitset.
pub open spec fn flag_feature_bit(f: FlagFeature) -> u32 {
    match f {
        FlagFeature::TracingData => 1,
        FlagFeature::BuildId => 2,
        FlagFeature::Hostname => 3,
        FlagFeature::OsRelease => 4,
        FlagFeature::Version => 5,
        FlagFeature::Arch => 6,
        FlagFeature::NrCpus => 7,
        FlagFeature::CpuDesc => 8,
        FlagFeature::CpuId => 9,
        FlagFeature::TotalMem => 10,
        FlagFeature::Cmdline => 11,
        FlagFeature::EventDesc => 12,
        FlagFeature::CpuTopology => 13,
        FlagFeature::NumaTopology => 14,
        FlagFeature::BranchStack => 15,
        FlagFeature::PmuMappings => 16,
        FlagFeature::GroupDesc => 17,
        FlagFeature::Auxtrace => 18,
        FlagFeature::Stat => 19,
        FlagFeature::Cache => 20,
        FlagFeature::SampleTime => 21,
        FlagFeature::SampleTopology => 22,
        FlagFeature::ClockId => 23,
        FlagFeature::DirFormat => 24,
        FlagFeature::BpfProgInfo => 25,
        FlagFeature::BpfBtf => 26,
        FlagFeature::Compressed => 27,
        FlagFeature::CpuPmuCaps => 28,
        FlagFeature::ClockData => 29,
        FlagFeature::HybridTopology => 30,
        FlagFeature::HybridCpuPmuCaps => 31,
    }
}

/// The flag that a bit index denotes, if it is a known one.
pub open spec fn spec_flag_feature_from_int(i: u32) -> Option<FlagFeature> {
    if i == 1 {
        Some(FlagFeature::TracingData)
    } else if i == 2 {
        Some(FlagFeature::BuildId)
    } else if i == 3 {
        Some(FlagFeature::Hostname)
    } else if i == 4 {
        Some(FlagFeature::OsRelease)
    } else if i == 5 {
        Some(FlagFeature::Version)
    } else if i == 6 {
        Some(FlagFeature::Arch)
    } else if i == 7 {
        Some(FlagFeature::NrCpus)
    } else if i == 8 {
        Some(FlagFeature::CpuDesc)
    } else if i == 9 {
        Some(FlagFeature::CpuId)
    } else if i == 10 {
        Some(FlagFeature::TotalMem)
    } else if i == 11 {
        Some(FlagFeature::Cmdline)
    } else if i == 12 {
        Some(FlagFeature::EventDesc)
    } else if i == 13 {
        Some(FlagFeature::CpuTopology)
    } else if i == 14 {
        Some(FlagFeature::NumaTopology)
    } else if i == 15 {
        Some(FlagFeature::BranchStack)
    } else if i == 16 {
        Some(FlagFeature::PmuMappings)
    } else if i == 17 {
        Some(FlagFeature::GroupDesc)
    } else if i == 18 {
        Some(FlagFeature::Auxtrace)
    } else if i == 19 {
        Some(FlagFeature::Stat)
    } else if i == 20 {
        Some(FlagFeature::Cache)
    } else if i == 21 {
        Some(FlagFeature::SampleTime)
    } else if i == 22 {
        Some(FlagFeature::SampleTopology)
    } else if i == 23 {
        Some(FlagFeature::ClockId)
    } else if i == 24 {
        Some(FlagFeature::DirFormat)
    } else if i == 25 {
        Some(FlagFeature::BpfProgInfo)
    } else if i == 26 {
        Some(FlagFeature::BpfBtf)
    } else if i == 27 {
        Some(FlagFeature::Compressed)
    } else if i == 28 {
        Some(FlagFeature::CpuPmuCaps)
    } else if i == 29 {
        Some(FlagFeature::ClockData)
    } else if i == 30 {
        Some(FlagFeature::HybridTopology)
    } else if i == 31 {
        Some(FlagFeature::HybridCpuPmuCaps)
    } else {
        None
    }
}

impl FlagFeature {
    /// The flag denoted by bit index `i`, if it is a known one.
    pub fn from_int(i: u32) -> (r: Option<Self>)
        ensures
            r == spec_flag_feature_from_int(i),
            r is Some ==> flag_feature_bit(r->0) == i,
    {
        let flag = match i {
            1 => Self::TracingData,
            2 => Self::BuildId,
            3 => Self::Hostname,
            4 => Self::OsRelease,
            5 => Self::Version,
            6 => Self::Arch,
            7 => Self::NrCpus,
            8 => Self::CpuDesc,
            9 => Self::CpuId,
            10 => Self::TotalMem,
            11 => Self::Cmdline,
            12 => Self::EventDesc,
            13 => Self::CpuTopology,
            14 => Self::NumaTopology,
            15 => Self::BranchStack,
            16 => Self::PmuMappings,
            17 => Self::GroupDesc,
            18 => Self::Auxtrace,
            19 => Self::Stat,
            20 => Self::Cache,
            21 => Self::SampleTime,
            22 => Self::SampleTopology,
            23 => Self::ClockId,
            24 => Self::DirFormat,
            25 => Self::BpfProgInfo,
            26 => Self::BpfBtf,
            27 => Self::Compressed,
            28 => Self::CpuPmuCaps,
            29 => Self::ClockData,
            30 => Self::HybridTopology,
            31 => Self::HybridCpuPmuCaps,
            _ => {
                return None;
            }
        };
        Some(flag)
    }

    /// The bit index of this flag in the 256-bit header bitset.
    pub fn to_int(&self) -> (r: u32)
        ensures
            r == flag_feature_bit(*self),
    {
        match self {
            FlagFeature::TracingData => 1,
            FlagFeature::BuildId => 2,
            FlagFeature::Hostname => 3,
            FlagFeature::OsRelease => 4,
            FlagFeature::Version => 5,
            FlagFeature::Arch => 6,
            FlagFeature::NrCpus => 7,
            FlagFeature::CpuDesc => 8,
            FlagFeature::CpuId => 9,
            FlagFeature::TotalMem => 10,
            FlagFeature::Cmdline => 11,
            FlagFeature::EventDesc => 12,
            FlagFeature::CpuTopology => 13,
            FlagFeature::NumaTopology => 14,
            FlagFeature::BranchStack => 15,
            FlagFeature::PmuMappings => 16,
            FlagFeature::GroupDesc => 17,
            FlagFeature::Auxtrace => 18,
            FlagFeature::Stat => 19,
            FlagFeature::Cache => 20,
            FlagFeature::SampleTime => 21,
            FlagFeature::SampleTopology => 22,
            FlagFeature::ClockId => 23,
            FlagFeature::DirFormat => 24,
            FlagFeature::BpfProgInfo => 25,
            FlagFeature::BpfBtf => 26,
            FlagFeature::Compressed => 27,
            FlagFeature::CpuPmuCaps => 28,
            FlagFeature::ClockData => 29,
            FlagFeature::HybridTopology => 30,
            FlagFeature::HybridCpuPmuCaps => 31,
        }
    }
}

/// The set of feature flags used in the perf file. The perf file contains
/// one feature section for each flag. This set is provided in the perf
/// file header.
///
/// The set has room for 4 * 64 = 256 feature bits.
#[derive(Debug, Clone, Copy, PartialEq, Eq)]
pub struct FlagFeatureSet(pub [u64; 4]);

impl FlagFeatureSet {
    /// Whether the flag with bit index `f` is in the set.
    pub open spec fn spec_has_flag(&self, f: u32) -> bool {
        bitset256::bit_set(self.0, f)
    }

    /// The number of flags in this set.
    pub fn len(&self) -> (r: usize)
        ensures
            r == bitset256::count_bits_below(self.0, 256),
    {
        bitset256::count_bits(&self.0)
    }

    /// Whether the set is empty.
    pub fn is_empty(&self) -> (r: bool)
        ensures
            r == (forall|f: u32| !self.spec_has_flag(f)),
    {
        let count = bitset256::count_bits(&self.0);
        proof {
            if count == 0 {
                bitset256::lemma_count_zero(self.0, 256);
            } else {
                if forall|f: u32| !self.spec_has_flag(f) {
                    assert forall|i: u32| (i as nat) < 256 implies !bitset256::bit_set(
                        self.0,
                        i,
                    ) by {
                        assert(!self.spec_has_flag(i));
                    }
                    bitset256::lemma_count_of_none(self.0, 256);
                }
            }
        }
        count == 0
    }

    /// Emits all flags in this set, from low to high.
    pub fn iter(&self) -> (r: FlagFeatureSetIterAll)
        ensures
            r.set() == *self,
            r.position() == 0,
    {
        FlagFeatureSetIterAll { current_flag: 0, set: *self }
    }

    /// Checks if the flag with bit index `flag` is in this set.
    pub fn has_flag(&self, flag: u32) -> (r: bool)
        ensures
            r == self.spec_has_flag(flag),
    {
        bitset256::has_bit(&self.0, flag)
    }
}

/// Iterates over the bit indices of the flags in a [`FlagFeatureSet`], from
/// low to high.
pub struct FlagFeatureSetIterAll {
    current_flag: u32,
    set: FlagFeatureSet,
}

impl FlagFeatureSetIterAll {
    /// The set being iterated.
    pub closed spec fn set(&self) -> FlagFeatureSet {
        self.set
    }

    /// The bit index at which the iteration will resume.
    pub closed spec fn position(&self) -> u32 {
        self.current_flag
    }

    /// The bit index of the next flag in the set, if one at or above the
    /// current position remains.
    pub fn next(&mut self) -> (r: Option<u32>)
        ensures
            match r {
                Some(f) => {
                    &&& old(self).position() <= f < 256
                    &&& final(self).set().spec_has_flag(f)
                    &&& forall|g: u32|
                        old(self).position() <= g < f ==> !final(self).set().spec_has_flag(g)
                    &&& final(self).position() == f + 1
                },
                None => {
                    &&& forall|g: u32|
                        old(self).position() <= g ==> !final(self).set().spec_has_flag(g)
                },
            },
            final(self).set() == old(self).set(),
    {
        while self.current_flag < 256
            invariant
                self.set == old(self).set,
                old(self).current_flag <= self.current_flag,
                forall|g: u32|
                    old(self).current_flag <= g < self.current_flag
                        ==> !self.set.spec_has_flag(g),
            decreases 256 - self.current_flag,
        {
            let flag = self.current_flag;
            self.current_flag = self.current_flag + 1;

            if self.set.has_flag(flag) {
                return Some(flag);
            }
        }
        None
    }
}

} // verus!
