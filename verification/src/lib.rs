//! A parser for the perf.data file format and for jitdump files.
//!
//! A perf.data file consists of a header, an attribute table, a data section
//! holding a stream of records, and optional feature sections. The heart of
//! this crate is the streaming record pipeline: [`PerfFileReader`] turns the
//! bytes of a file (or of a pipe-mode stream) into a sequence of parsed
//! records, resolving each record to its event attribute, transparently
//! unwrapping Zstandard-compressed record chunks, and reordering the records
//! into a single stream with non-decreasing timestamps with the help of the
//! FINISHED_ROUND markers that the producer wrote.
//!
//! The [`JitDumpReader`] reads the jitdump side files that JIT runtimes emit,
//! and keeps working on files that are still being written: a record that is
//! not complete yet is simply not there yet, and the same read succeeds later
//! once the missing bytes have arrived.
//!
//! All parsing works on in-memory byte buffers; reading bytes from a file or
//! a pipe is left to the caller.

use vstd::prelude::*;

mod attr_info;
mod auxtrace;
mod bitset256;
mod buf;
mod buffered_reader;
mod build_id_event;
mod decompression;
mod dso_key;
mod endian;
mod error;
mod feature_sections;
mod features;
mod file_reader;
mod flag_feature;
mod header;
mod jitdump;
mod linmap;
mod perf_file;
mod records;
mod section;
mod simpleperf;
mod sorter;
mod strings;
mod thread_map;

pub use auxtrace::Auxtrace;
pub use buffered_reader::{BufferedReader, ByteSource};
pub use build_id_event::{detect_build_id_len, BuildIdEvent};
pub use decompression::{zstd_plain_of, ZstdDecompressor};
pub use dso_key::{CpuMode, DsoKey, DsoKeyModel};
pub use endian::Endianness;
pub use error::{Error, JitDumpError, ReadError};
pub use feature_sections::{AttributeDescription, ClockData, HeaderString, NrCpus, PmuMappings,
    SampleTimeRange};
pub use features::{Feature, FeatureSet, FeatureSetIterAll};
pub use file_reader::{attr_body_ids, classify_id_parse_infos, id_map_matches, pipe_attr_bodies,
    resolve_attr_index, spec_classify, spec_sort_key, IdParseInfos, IdSchemeShape, PerfFileReader,
    PerfRecordIter, RecordSortKey};
pub use flag_feature::{FlagFeature, FlagFeatureSet, FlagFeatureSetIterAll};
pub use header::{PerfHeader, PerfHeaderModel, PerfPipeHeader};
pub use jitdump::{JitCodeDebugInfoEntry, JitCodeDebugInfoRecord, JitCodeInlineEntry,
    JitCodeInlineRecord, JitCodeLoadRecord,
    JitCodeMoveRecord, JitCodeUnwindingInfoRecord, JitDumpHeader, JitDumpRawRecord, JitDumpReader,
    JitDumpRecord, JitDumpRecordHeader, JitDumpRecordType};
pub use perf_file::{DsoInfo, PerfFile};
pub use records::{HeaderAttr, HeaderFeature, PerfEventHeader, PerfFileRecord, RawEventRecord,
    RawUserRecord, UserRecord, UserRecordType};
pub use records::{complete_records, has_complete_record, lemma_chunked_scan, scan_leftover};
pub use section::PerfFileSection;
pub use simpleperf::{get_event_types, parse_file_section, parse_meta_info_map,
    split_file_section_frames, SimplePerfEventType, SimpleperfDexFileInfo, SimpleperfElfFileInfo,
    SimpleperfFileRecord, SimpleperfKernelModuleInfo, SimpleperfSymbol, SimpleperfTypeSpecificInfo};
pub use sorter::{keys_at_least, keys_at_most, sorted_by_key, Sorter};
pub use strings::{ascii_chars, ascii_seq, lossy_utf8, utf8_chars};
pub use thread_map::{ThreadMap, ThreadMapEntry, ThreadMapIter};

verus! {

} // verus!
