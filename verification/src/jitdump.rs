use vstd::prelude::*;

use crate::buf;
use crate::buffered_reader::{max_buffered, BufferedReader, ByteSource};
use crate::endian::{int_bytes, int_value, lemma_int_bytes_of_int_value, lemma_int_value_bound,
    lemma_int_value_of_int_bytes, lemma_pow256_values, read_u32, read_u64, Endianness};
use crate::error::{Error, JitDumpError};
use crate::thread_map::{take_up_to_nul, up_to_nul};

verus! {

/// The number of bytes of the fixed jitdump file header.
pub const JITDUMP_HEADER_SIZE: usize = 40;

/// The number of bytes of a jitdump record header.
pub const JITDUMP_RECORD_HEADER_SIZE: usize = 16;

pub const JIT_CODE_LOAD: u32 = 0;

pub const JIT_CODE_MOVE: u32 = 1;

pub const JIT_CODE_DEBUG_INFO: u32 = 2;

pub const JIT_CODE_CLOSE: u32 = 3;

pub const JIT_CODE_UNWINDING_INFO: u32 = 4;

/// The bytes of the magic in a big-endian file: `"JiTD"`.
pub open spec fn jit_magic_be() -> Seq<u8> {
    seq![74u8, 105u8, 84u8, 68u8]
}

/// The bytes of the magic in a little-endian file: `"DTiJ"`.
pub open spec fn jit_magic_le() -> Seq<u8> {
    seq![68u8, 84u8, 105u8, 74u8]
}

fn jit_magic_be_vec() -> (r: Vec<u8>)
    ensures
        r@ == jit_magic_be(),
{
    let v: Vec<u8> = vec![74u8, 105u8, 84u8, 68u8];
    proof {
        assert(v@ =~= jit_magic_be());
    }
    v
}

fn jit_magic_le_vec() -> (r: Vec<u8>)
    ensures
        r@ == jit_magic_le(),
{
    let v: Vec<u8> = vec![68u8, 84u8, 105u8, 74u8];
    proof {
        assert(v@ =~= jit_magic_le());
    }
    v
}

/// Whether the first four bytes are one of the two jitdump magics.
pub open spec fn jit_magic_ok(data: Seq<u8>) -> bool {
    data.subrange(0, 4) == jit_magic_le() || data.subrange(0, 4) == jit_magic_be()
}

/// The byte order a jitdump magic declares.
pub open spec fn jit_endian_of(data: Seq<u8>) -> Endianness {
    if data.subrange(0, 4) == jit_magic_le() {
        Endianness::LittleEndian
    } else {
        Endianness::BigEndian
    }
}

/// Whether the bytes begin with a well-formed jitdump file header: enough
/// bytes, a known magic, version 1, and a declared header size that covers
/// the fixed layout and is present in full.
pub open spec fn jit_header_ok(data: Seq<u8>) -> bool {
    let e = jit_endian_of(data);
    &&& data.len() >= JITDUMP_HEADER_SIZE
    &&& jit_magic_ok(data)
    &&& int_value(data.subrange(4, 8), e) == 1
    &&& JITDUMP_HEADER_SIZE <= int_value(data.subrange(8, 12), e) <= data.len()
}

/// The jitdump file header.
#[derive(Debug, Clone, PartialEq, Eq)]
pub struct JitDumpHeader {
    /// Four bytes tagging the file type and declaring the endianness.
    pub magic: [u8; 4],
    /// The format version; this crate reads version 1.
    pub version: u32,
    /// The size in bytes of the file header.
    pub total_size: u32,
    /// ELF architecture encoding (the ELF e_machine value).
    pub elf_machine_arch: u32,
    /// The process ID of the JIT runtime process.
    pub pid: u32,
    /// The timestamp of when the file was created.
    pub timestamp: u64,
    /// A bitmask of flags.
    pub flags: u64,
}

impl JitDumpHeader {
    /// Reads the file header from the start of `data`: the magic decides the
    /// byte order; the version must be 1; the declared header size must cover
    /// the fixed layout and be present in full.
    pub fn parse(data: &[u8]) -> (r: Result<JitDumpHeader, JitDumpError>)
        ensures
            r is Ok <==> jit_header_ok(data@),
            ({
                let e = jit_endian_of(data@);
                let version = int_value(data@.subrange(4, 8), e);
                let size = int_value(data@.subrange(8, 12), e);
                let magic_bad = data@.len() >= 40 && !jit_magic_ok(data@);
                let version_bad = data@.len() >= 40 && jit_magic_ok(data@) && version != 1;
                let size_bad = data@.len() >= 40 && jit_magic_ok(data@) && version == 1 && size
                    < 40;
                let short = data@.len() < 40 || (data@.len() >= 40 && jit_magic_ok(data@)
                    && version == 1 && size >= 40 && size > data@.len());
                &&& ((r is Err && r->Err_0 is InvalidMagicBytes) <==> magic_bad)
                &&& (r is Err && r->Err_0 is InvalidMagicBytes
                    ==> r->Err_0->InvalidMagicBytes_0@ == data@.subrange(0, 4))
                &&& ((r is Err && r->Err_0 is UnrecognizedVersion) <==> version_bad)
                &&& (r is Err && r->Err_0 is UnrecognizedVersion
                    ==> r->Err_0->UnrecognizedVersion_0 == version)
                &&& ((r is Err && r->Err_0 is InvalidHeaderSize) <==> size_bad)
                &&& (r is Err && r->Err_0 is InvalidHeaderSize
                    ==> r->Err_0->InvalidHeaderSize_0 == size)
                &&& ((r is Err && r->Err_0 is NotEnoughBytesForHeader) <==> short)
            }),
            r is Ok ==> {
                let h = r->Ok_0;
                let e = if h.magic@ == jit_magic_le() {
                    Endianness::LittleEndian
                } else {
                    Endianness::BigEndian
                };
                &&& data@.len() >= JITDUMP_HEADER_SIZE
                &&& (h.magic@ == jit_magic_le() || h.magic@ == jit_magic_be())
                &&& h.magic@ == data@.subrange(0, 4)
                &&& h.version == int_value(data@.subrange(4, 8), e) && h.version == 1
                &&& h.total_size == int_value(data@.subrange(8, 12), e)
                &&& JITDUMP_HEADER_SIZE <= h.total_size <= data@.len()
                &&& h.elf_machine_arch == int_value(data@.subrange(12, 16), e)
                &&& h.pid == int_value(data@.subrange(20, 24), e)
                &&& h.timestamp == int_value(data@.subrange(24, 32), e)
                &&& h.flags == int_value(data@.subrange(32, 40), e)
            },
    {
        if data.len() < JITDUMP_HEADER_SIZE {
            return Err(JitDumpError::NotEnoughBytesForHeader);
        }
        let magic: [u8; 4] = [data[0], data[1], data[2], data[3]];
        proof {
            assert(magic@ =~= data@.subrange(0, 4));
        }
        let e: Endianness;
        if buf::bytes_equal(&magic, jit_magic_le_vec().as_slice()) {
            e = Endianness::LittleEndian;
        } else if buf::bytes_equal(&magic, jit_magic_be_vec().as_slice()) {
            e = Endianness::BigEndian;
        } else {
            return Err(JitDumpError::InvalidMagicBytes(magic));
        }
        let version = read_u32(data, 4, e);
        if version != 1 {
            return Err(JitDumpError::UnrecognizedVersion(version));
        }
        let total_size = read_u32(data, 8, e);
        if total_size < JITDUMP_HEADER_SIZE as u32 {
            return Err(JitDumpError::InvalidHeaderSize(total_size));
        }
        if total_size as usize > data.len() {
            return Err(JitDumpError::NotEnoughBytesForHeader);
        }
        let elf_machine_arch = read_u32(data, 12, e);
        // The four bytes at 16 are padding.
        let pid = read_u32(data, 20, e);
        let timestamp = read_u64(data, 24, e);
        let flags = read_u64(data, 32, e);
        proof {
            if e == Endianness::LittleEndian {
                assert(magic@ == jit_magic_le());
            } else {
                assert(magic@ != jit_magic_le());
            }
        }
        Ok(JitDumpHeader { magic, version, total_size, elf_machine_arch, pid, timestamp, flags })
    }

    /// The byte order the magic declares.
    pub fn endian(&self) -> (r: Endianness)
        ensures
            r == (if self.magic@ == jit_magic_le() {
                Endianness::LittleEndian
            } else {
                Endianness::BigEndian
            }),
    {
        if buf::bytes_equal(&self.magic, jit_magic_le_vec().as_slice()) {
            Endianness::LittleEndian
        } else {
            Endianness::BigEndian
        }
    }
}

/// The record type of a jitdump record.
#[derive(Debug, Clone, Copy, PartialEq, Eq, Structural)]
pub struct JitDumpRecordType(pub u32);

/// The header at the start of every jitdump record.
#[derive(Debug, Clone, Copy, PartialEq, Eq, Structural)]
pub struct JitDumpRecordHeader {
    /// The record type.
    pub record_type: JitDumpRecordType,
    /// The size in bytes of the record including the header.
    pub total_size: u32,
    /// A timestamp of when the record was created.
    pub timestamp: u64,
}

/// The record header whose bytes start at the beginning of `data`.
pub open spec fn spec_parse_record_header(data: Seq<u8>, e: Endianness) -> JitDumpRecordHeader {
    JitDumpRecordHeader {
        record_type: JitDumpRecordType(int_value(data.subrange(0, 4), e) as u32),
        total_size: int_value(data.subrange(4, 8), e) as u32,
        timestamp: int_value(data.subrange(8, 16), e) as u64,
    }
}

impl JitDumpRecordHeader {
    /// Reads a record header from the start of `data`.
    pub fn parse(data: &[u8], e: Endianness) -> (r: Result<JitDumpRecordHeader, Error>)
        ensures
            r is Ok <==> data@.len() >= JITDUMP_RECORD_HEADER_SIZE,
            r is Ok ==> r->Ok_0 == spec_parse_record_header(data@, e),
            r is Err ==> r->Err_0 == Error::Truncated,
    {
        if data.len() < JITDUMP_RECORD_HEADER_SIZE {
            return Err(Error::Truncated);
        }
        let record_type = JitDumpRecordType(read_u32(data, 0, e));
        let total_size = read_u32(data, 4, e);
        let timestamp = read_u64(data, 8, e);
        Ok(JitDumpRecordHeader { record_type, total_size, timestamp })
    }
}

/// The sixteen bytes that encode a record header in the given byte order.
pub open spec fn record_header_bytes(h: JitDumpRecordHeader, e: Endianness) -> Seq<u8> {
    int_bytes(h.record_type.0 as nat, 4, e) + int_bytes(h.total_size as nat, 4, e) + int_bytes(
        h.timestamp as nat,
        8,
        e,
    )
}

/// Parsing an encoded record header gives the header back.
pub proof fn lemma_record_header_bytes(h: JitDumpRecordHeader, e: Endianness)
    ensures
        record_header_bytes(h, e).len() == 16,
        spec_parse_record_header(record_header_bytes(h, e), e) == h,
{
    lemma_pow256_values();
    lemma_int_value_of_int_bytes(h.record_type.0 as nat, 4, e);
    lemma_int_value_of_int_bytes(h.total_size as nat, 4, e);
    lemma_int_value_of_int_bytes(h.timestamp as nat, 8, e);
    let b = record_header_bytes(h, e);
    assert(b.subrange(0, 4) =~= int_bytes(h.record_type.0 as nat, 4, e));
    assert(b.subrange(4, 8) =~= int_bytes(h.total_size as nat, 4, e));
    assert(b.subrange(8, 16) =~= int_bytes(h.timestamp as nat, 8, e));
}

/// Re-encoding a parsed record header gives its sixteen bytes back.
proof fn lemma_header_bytes_of_parse(b: Seq<u8>, e: Endianness)
    requires
        b.len() == 16,
    ensures
        record_header_bytes(spec_parse_record_header(b, e), e) == b,
{
    lemma_pow256_values();
    lemma_int_value_bound(b.subrange(0, 4), e);
    lemma_int_value_bound(b.subrange(4, 8), e);
    lemma_int_value_bound(b.subrange(8, 16), e);
    lemma_int_bytes_of_int_value(b.subrange(0, 4), e);
    lemma_int_bytes_of_int_value(b.subrange(4, 8), e);
    lemma_int_bytes_of_int_value(b.subrange(8, 16), e);
    let h = spec_parse_record_header(b, e);
    assert(h.record_type.0 as nat == int_value(b.subrange(0, 4), e));
    assert(h.total_size as nat == int_value(b.subrange(4, 8), e));
    assert(h.timestamp as nat == int_value(b.subrange(8, 16), e));
    assert(record_header_bytes(h, e) =~= b);
}

/// The record header of a stream is decided by its first sixteen bytes.
proof fn lemma_parse_header_prefix(prefix: Seq<u8>, rest: Seq<u8>, e: Endianness)
    requires
        prefix.len() >= 16,
    ensures
        spec_parse_record_header(prefix + rest, e) == spec_parse_record_header(prefix, e),
{
    assert((prefix + rest).subrange(0, 4) =~= prefix.subrange(0, 4));
    assert((prefix + rest).subrange(4, 8) =~= prefix.subrange(4, 8));
    assert((prefix + rest).subrange(8, 16) =~= prefix.subrange(8, 16));
}

/// A raw jitdump record whose body has not been parsed yet.
#[derive(Debug, Clone, PartialEq, Eq)]
pub struct JitDumpRawRecord {
    /// The file endian, needed to parse the body.
    pub endian: Endianness,
    /// The record type.
    pub record_type: JitDumpRecordType,
    /// The timestamp.
    pub timestamp: u64,
    /// The offset in the jitdump file at which this record starts, header
    /// included.
    pub start_offset: u64,
    /// The size of this record in bytes, including the record header.
    pub record_size: u32,
    /// The raw bytes of the record body.
    pub body: Vec<u8>,
}

/// A parsed `JIT_CODE_LOAD` record, for a single jitted function: the
/// function name and the code bytes.
#[derive(Debug, Clone, PartialEq, Eq)]
pub struct JitCodeLoadRecord {
    /// The process ID of the runtime generating the jitted code.
    pub pid: u32,
    /// The thread ID of the runtime thread generating the jitted code.
    pub tid: u32,
    /// The virtual address where the code starts in the process.
    pub vma: u64,
    /// The code start address for the jitted code.
    pub code_addr: u64,
    /// A unique identifier for this piece of jitted code, which later
    /// `JIT_CODE_MOVE` records refer back to.
    pub code_index: u64,
    /// The function name, in ASCII.
    pub function_name: Vec<u8>,
    /// The jitted code bytes.
    pub code_bytes: Vec<u8>,
}

impl JitCodeLoadRecord {
    /// Reads a `JIT_CODE_LOAD` record body: the fixed fields, the
    /// NUL-terminated name, and exactly `code_size` code bytes.
    pub fn parse(data: &[u8], e: Endianness) -> (r: Result<JitCodeLoadRecord, Error>)
        ensures
            r is Ok <==> ({
                let name = up_to_nul(data@.skip(40));
                &&& data@.len() >= 40
                &&& name.len() < data@.len() - 40
                &&& int_value(data@.subrange(24, 32), e) <= data@.len() - 41 - name.len()
            }),
            r is Ok ==> {
                let v = r->Ok_0;
                let name = up_to_nul(data@.skip(40));
                let code_size = int_value(data@.subrange(24, 32), e);
                &&& data@.len() >= 40
                &&& v.pid == int_value(data@.subrange(0, 4), e)
                &&& v.tid == int_value(data@.subrange(4, 8), e)
                &&& v.vma == int_value(data@.subrange(8, 16), e)
                &&& v.code_addr == int_value(data@.subrange(16, 24), e)
                &&& v.code_index == int_value(data@.subrange(32, 40), e)
                &&& v.function_name@ == name
                &&& v.code_bytes@ == data@.subrange(
                    41 + name.len() as int,
                    41 + name.len() as int + code_size as int,
                )
            },
            r is Err ==> r->Err_0 == Error::Truncated,
    {
        let dlen = data.len();
        if dlen < 40 {
            return Err(Error::Truncated);
        }
        let pid = read_u32(data, 0, e);
        let tid = read_u32(data, 4, e);
        let vma = read_u64(data, 8, e);
        let code_addr = read_u64(data, 16, e);
        let code_size = read_u64(data, 24, e);
        let code_index = read_u64(data, 32, e);
        let rest = &data[40..dlen];
        let name_len: usize = match crate::strings::find_byte(0, rest) {
            Some(i) => i,
            None => {
                proof {
                    crate::thread_map::lemma_up_to_nul_split(rest@, rest@.len() as int);
                }
                return Err(Error::Truncated);
            }
        };
        proof {
            crate::thread_map::lemma_up_to_nul_split(rest@, name_len as int);
        }
        let function_name = buf::copy_range(rest, 0, name_len);
        let code_start = 41 + name_len;
        if code_size > (dlen - code_start) as u64 {
            return Err(Error::Truncated);
        }
        let code_bytes = buf::copy_range(data, code_start, code_start + code_size as usize);
        proof {
            assert(function_name@ =~= up_to_nul(data@.skip(40)));
        }
        Ok(JitCodeLoadRecord { pid, tid, vma, code_addr, code_index, function_name, code_bytes })
    }

    /// The offset, in bytes, between the start of the record header and the
    /// start of the code bytes. It depends on the length of the function
    /// name, which the code bytes follow.
    pub fn code_bytes_offset_from_record_header_start(&self) -> (r: Option<usize>)
        ensures
            r is Some ==> r->0 == JITDUMP_RECORD_HEADER_SIZE + 40 + self.function_name@.len() + 1,
    {
        let name_len = self.function_name.len();
        if name_len > usize::MAX - (JITDUMP_RECORD_HEADER_SIZE + 41) {
            return None;
        }
        Some(JITDUMP_RECORD_HEADER_SIZE + 40 + name_len + 1)
    }
}

/// A parsed `JIT_CODE_MOVE` record: a jitted function moved in memory.
#[derive(Debug, Clone, Copy, PartialEq, Eq, Structural)]
pub struct JitCodeMoveRecord {
    pub pid: u32,
    pub tid: u32,
    /// The new virtual address where the code starts.
    pub vma: u64,
    /// The old address of the code bytes.
    pub old_code_addr: u64,
    /// The new address of the code bytes.
    pub new_code_addr: u64,
    /// The size in bytes of the jitted code.
    pub code_size: u64,
    /// The index of the `JIT_CODE_LOAD` record of this function.
    pub code_index: u64,
}

impl JitCodeMoveRecord {
    /// Reads a `JIT_CODE_MOVE` record body.
    pub fn parse(data: &[u8], e: Endianness) -> (r: Result<JitCodeMoveRecord, Error>)
        ensures
            r is Ok <==> data@.len() >= 48,
            r is Ok ==> r->Ok_0 == (JitCodeMoveRecord {
                pid: int_value(data@.subrange(0, 4), e) as u32,
                tid: int_value(data@.subrange(4, 8), e) as u32,
                vma: int_value(data@.subrange(8, 16), e) as u64,
                old_code_addr: int_value(data@.subrange(16, 24), e) as u64,
                new_code_addr: int_value(data@.subrange(24, 32), e) as u64,
                code_size: int_value(data@.subrange(32, 40), e) as u64,
                code_index: int_value(data@.subrange(40, 48), e) as u64,
            }),
            r is Err ==> r->Err_0 == Error::Truncated,
    {
        if data.len() < 48 {
            return Err(Error::Truncated);
        }
        let pid = read_u32(data, 0, e);
        let tid = read_u32(data, 4, e);
        let vma = read_u64(data, 8, e);
        let old_code_addr = read_u64(data, 16, e);
        let new_code_addr = read_u64(data, 24, e);
        let code_size = read_u64(data, 32, e);
        let code_index = read_u64(data, 40, e);
        Ok(JitCodeMoveRecord { pid, tid, vma, old_code_addr, new_code_addr, code_size, code_index })
    }
}

/// An entry of a `JIT_CODE_DEBUG_INFO` record: one code location. Each entry
/// describes the code bytes from its address up to the next entry's address.
#[derive(Debug, Clone, PartialEq, Eq)]
pub struct JitCodeDebugInfoEntry {
    /// The start address of the range of code bytes of this entry.
    pub code_addr: u64,
    /// The line number in the source file, 1-based.
    pub line: u32,
    /// The column number; zero means no column information.
    pub column: u32,
    /// The path of the source code file.
    pub file_path: Vec<u8>,
}

/// A parsed `JIT_CODE_DEBUG_INFO` record, mapping addresses to source lines.
#[derive(Debug, Clone, PartialEq, Eq)]
pub struct JitCodeDebugInfoRecord {
    /// The address of the code bytes of the function this debug info is for.
    pub code_addr: u64,
    /// The line entries, sorted by address.
    pub entries: Vec<JitCodeDebugInfoEntry>,
}

/// The entries are sorted by their code address.
pub open spec fn entries_sorted(entries: Seq<JitCodeDebugInfoEntry>) -> bool {
    forall|i: int, j: int|
        0 <= i < j < entries.len() ==> #[trigger] entries[i].code_addr
            <= #[trigger] entries[j].code_addr
}

impl JitCodeDebugInfoRecord {
    /// Reads a `JIT_CODE_DEBUG_INFO` record body: the function address, an
    /// entry count, and that many entries of address, line, column and a
    /// NUL-terminated path.
    pub fn parse(data: &[u8], e: Endianness) -> (r: Result<JitCodeDebugInfoRecord, Error>)
        ensures
            r is Ok ==> data@.len() >= 16 && r->Ok_0.code_addr == int_value(
                data@.subrange(0, 8),
                e,
            ) && r->Ok_0.entries@.len() == int_value(data@.subrange(8, 16), e),
            data@.len() >= 16 && int_value(data@.subrange(8, 16), e) == 0 ==> r is Ok,
            r is Err ==> r->Err_0 == Error::Truncated,
    {
        let dlen = data.len();
        if dlen < 16 {
            return Err(Error::Truncated);
        }
        let code_addr = read_u64(data, 0, e);
        let nr_entry = read_u64(data, 8, e);
        if nr_entry > 0x0FFF_FFFF {
            return Err(Error::Truncated);
        }
        let mut entries: Vec<JitCodeDebugInfoEntry> = Vec::new();
        let mut pos: usize = 16;
        let mut k: u64 = 0;
        while k < nr_entry
            invariant
                k <= nr_entry,
                nr_entry == int_value(data@.subrange(8, 16), e),
                entries@.len() == k as int,
                dlen == data@.len(),
                pos <= dlen,
            decreases nr_entry - k,
        {
            if dlen - pos < 16 {
                return Err(Error::Truncated);
            }
            let entry_addr = read_u64(data, pos, e);
            let line = read_u32(data, pos + 8, e);
            let column = read_u32(data, pos + 12, e);
            let rest = &data[pos + 16..dlen];
            let name_len: usize = match crate::strings::find_byte(0, rest) {
                Some(i) => i,
                None => {
                    return Err(Error::Truncated);
                }
            };
            let file_path = buf::copy_range(rest, 0, name_len);
            pos = pos + 16 + name_len + 1;
            entries.push(
                JitCodeDebugInfoEntry { code_addr: entry_addr, line, column, file_path },
            );
            k = k + 1;
        }
        Ok(JitCodeDebugInfoRecord { code_addr, entries })
    }

    /// The entry covering `addr`: the greatest entry whose address is at most
    /// `addr`, or `None` when `addr` lies below the first entry. The answer
    /// is meaningful when the entries are sorted by address, which the format
    /// promises.
    pub fn lookup(&self, addr: u64) -> (r: Option<usize>)
        ensures
            entries_sorted(self.entries@) ==> match r {
                Some(i) => i < self.entries@.len() && self.entries@[i as int].code_addr <= addr
                    && forall|j: int|
                    i < j < self.entries@.len() ==> #[trigger] self.entries@[j].code_addr > addr,
                None => forall|j: int|
                    0 <= j < self.entries@.len() ==> #[trigger] self.entries@[j].code_addr > addr,
            },
    {
        let n = self.entries.len();
        let mut lo: usize = 0;
        let mut hi: usize = n;
        // After the search, everything below `lo` is at most `addr` and
        // everything from `hi` on is above it.
        while lo < hi
            invariant
                lo <= hi <= n,
                n == self.entries@.len(),
                entries_sorted(self.entries@) ==> forall|j: int|
                    0 <= j < lo ==> #[trigger] self.entries@[j].code_addr <= addr,
                entries_sorted(self.entries@) ==> forall|j: int|
                    hi <= j < n ==> #[trigger] self.entries@[j].code_addr > addr,
            decreases hi - lo,
        {
            let mid = lo + (hi - lo) / 2;
            if self.entries[mid].code_addr <= addr {
                proof {
                    if entries_sorted(self.entries@) {
                        assert forall|j: int|
                            0 <= j < mid + 1 implies #[trigger] self.entries@[j].code_addr
                            <= addr by {
                            if j < mid {
                                assert(self.entries@[j].code_addr <= self.entries@[
                                    mid as int].code_addr);
                            }
                        }
                    }
                }
                lo = mid + 1;
            } else {
                proof {
                    if entries_sorted(self.entries@) {
                        assert forall|j: int|
                            mid <= j < n implies #[trigger] self.entries@[j].code_addr > addr by {
                            if j > mid {
                                assert(self.entries@[mid as int].code_addr
                                    <= self.entries@[j].code_addr);
                            }
                        }
                    }
                }
                hi = mid;
            }
        }
        if lo == 0 {
            None
        } else {
            Some(lo - 1)
        }
    }
}


/// An entry of a `JIT_CODE_INLINE` record: one inlined call.
#[derive(Debug, Clone, PartialEq, Eq)]
pub struct JitCodeInlineEntry {
    /// The start address of the inlined function's code bytes.
    pub start_addr: u64,
    /// The end address of the inlined function's code bytes.
    pub end_addr: u64,
    /// The line number in the source file (1-based) of the call.
    pub call_line: u32,
    /// The column number; zero means no column information.
    pub call_column: u32,
    /// The depth of inlining: zero for a direct call.
    pub inline_depth: u32,
    /// The name of the inlined function.
    pub func_name: Vec<u8>,
    /// The path of the file where the inlined function is called.
    pub call_file_name: Vec<u8>,
}

/// A parsed `JIT_CODE_INLINE` record, describing the calls that were inlined
/// into one jitted function.
#[derive(Debug, Clone, PartialEq, Eq)]
pub struct JitCodeInlineRecord {
    /// The address of the code bytes of the function this inline info is for.
    pub code_addr: u64,
    /// The inline entries.
    pub entries: Vec<JitCodeInlineEntry>,
}

impl JitCodeInlineRecord {
    /// Reads a `JIT_CODE_INLINE` record body: the function address, an entry
    /// count, and that many entries, each with two NUL-terminated names.
    pub fn parse(data: &[u8], e: Endianness) -> (r: Result<JitCodeInlineRecord, Error>)
        ensures
            r is Ok ==> data@.len() >= 16 && r->Ok_0.code_addr == int_value(
                data@.subrange(0, 8),
                e,
            ) && r->Ok_0.entries@.len() == int_value(data@.subrange(8, 16), e),
            data@.len() >= 16 && int_value(data@.subrange(8, 16), e) == 0 ==> r is Ok,
            r is Err ==> r->Err_0 == Error::Truncated,
    {
        let dlen = data.len();
        if dlen < 16 {
            return Err(Error::Truncated);
        }
        let code_addr = read_u64(data, 0, e);
        let nr_entry = read_u64(data, 8, e);
        if nr_entry > 0x0FFF_FFFF {
            return Err(Error::Truncated);
        }
        let mut entries: Vec<JitCodeInlineEntry> = Vec::new();
        let mut pos: usize = 16;
        let mut k: u64 = 0;
        while k < nr_entry
            invariant
                k <= nr_entry,
                nr_entry == int_value(data@.subrange(8, 16), e),
                entries@.len() == k as int,
                dlen == data@.len(),
                pos <= dlen,
            decreases nr_entry - k,
        {
            if dlen - pos < 28 {
                return Err(Error::Truncated);
            }
            let start_addr = read_u64(data, pos, e);
            let end_addr = read_u64(data, pos + 8, e);
            // The four bytes at 16 hold an index into the call file names,
            // which this layout repeats inline below.
            let call_line = read_u32(data, pos + 20, e);
            let call_column = read_u32(data, pos + 24, e);
            if dlen - pos < 32 {
                return Err(Error::Truncated);
            }
            let inline_depth = read_u32(data, pos + 28, e);
            pos = pos + 32;
            let rest = &data[pos..dlen];
            let func_end: usize = match crate::strings::find_byte(0, rest) {
                Some(i) => i,
                None => {
                    return Err(Error::Truncated);
                }
            };
            let func_name = buf::copy_range(rest, 0, func_end);
            pos = pos + func_end + 1;
            let rest2 = &data[pos..dlen];
            let file_end: usize = match crate::strings::find_byte(0, rest2) {
                Some(i) => i,
                None => {
                    return Err(Error::Truncated);
                }
            };
            let call_file_name = buf::copy_range(rest2, 0, file_end);
            pos = pos + file_end + 1;
            entries.push(
                JitCodeInlineEntry {
                    start_addr,
                    end_addr,
                    call_line,
                    call_column,
                    inline_depth,
                    func_name,
                    call_file_name,
                },
            );
            k = k + 1;
        }
        Ok(JitCodeInlineRecord { code_addr, entries })
    }
}

/// A parsed `JIT_CODE_UNWINDING_INFO` record, with the unwind tables of a
/// jitted function.
#[derive(Debug, Clone, PartialEq, Eq)]
pub struct JitCodeUnwindingInfoRecord {
    /// The size of the unwinding data mapped in memory: zero, or the two
    /// tables' sizes together.
    pub mapped_size: u64,
    /// The eh_frame_hdr data: an index into the eh_frame data.
    pub eh_frame_hdr: Vec<u8>,
    /// The eh_frame data.
    pub eh_frame: Vec<u8>,
}

impl JitCodeUnwindingInfoRecord {
    /// Reads a `JIT_CODE_UNWINDING_INFO` record body: the three sizes, then
    /// the unwind bytes, of which the first `eh_frame_hdr_size` are the
    /// header table and the rest the frame table.
    pub fn parse(data: &[u8], e: Endianness) -> (r: Result<JitCodeUnwindingInfoRecord, Error>)
        ensures
            r is Ok <==> ({
                let unwind_size = int_value(data@.subrange(0, 8), e);
                let hdr_size = int_value(data@.subrange(8, 16), e);
                data@.len() >= 24 && hdr_size <= unwind_size <= data@.len() - 24
            }),
            r is Ok ==> {
                let v = r->Ok_0;
                let unwind_size = int_value(data@.subrange(0, 8), e);
                let hdr_size = int_value(data@.subrange(8, 16), e);
                &&& data@.len() >= 24
                &&& hdr_size <= unwind_size <= data@.len() - 24
                &&& v.mapped_size == int_value(data@.subrange(16, 24), e)
                &&& v.eh_frame_hdr@ == data@.subrange(24, 24 + hdr_size as int)
                &&& v.eh_frame@ == data@.subrange(24 + hdr_size as int, 24 + unwind_size as int)
            },
            r is Err ==> r->Err_0 == Error::Truncated,
    {
        let dlen = data.len();
        if dlen < 24 {
            return Err(Error::Truncated);
        }
        let unwind_data_size = read_u64(data, 0, e);
        let eh_frame_hdr_size = read_u64(data, 8, e);
        let mapped_size = read_u64(data, 16, e);
        if unwind_data_size > (dlen - 24) as u64 || eh_frame_hdr_size > unwind_data_size {
            return Err(Error::Truncated);
        }
        let unwind_size = unwind_data_size as usize;
        let hdr_size = eh_frame_hdr_size as usize;
        let eh_frame_hdr = buf::copy_range(data, 24, 24 + hdr_size);
        let eh_frame = buf::copy_range(data, 24 + hdr_size, 24 + unwind_size);
        Ok(JitCodeUnwindingInfoRecord { mapped_size, eh_frame_hdr, eh_frame })
    }
}

/// An enum carrying a parsed jitdump record.
#[derive(Debug, Clone, PartialEq, Eq)]
pub enum JitDumpRecord {
    CodeLoad(JitCodeLoadRecord),
    CodeMove(JitCodeMoveRecord),
    CodeDebugInfo(JitCodeDebugInfoRecord),
    CodeClose,
    CodeUnwindingInfo(JitCodeUnwindingInfoRecord),
    /// Any record type this crate does not parse further.
    Other(JitDumpRawRecord),
}

impl JitDumpRawRecord {
    /// Parses the record body according to the record type. Types without a
    /// parser are handed back raw.
    pub fn parse(self) -> (r: Result<JitDumpRecord, Error>)
        ensures
            self.record_type.0 == JIT_CODE_LOAD && r is Ok ==> r->Ok_0 is CodeLoad,
            self.record_type.0 == JIT_CODE_MOVE && r is Ok ==> r->Ok_0 is CodeMove,
            self.record_type.0 == JIT_CODE_DEBUG_INFO && r is Ok ==> r->Ok_0 is CodeDebugInfo,
            self.record_type.0 == JIT_CODE_CLOSE ==> r == Ok::<JitDumpRecord, Error>(
                JitDumpRecord::CodeClose,
            ),
            self.record_type.0 == JIT_CODE_UNWINDING_INFO && r is Ok ==> r->Ok_0
                is CodeUnwindingInfo,
            self.record_type.0 > JIT_CODE_UNWINDING_INFO ==> r == Ok::<JitDumpRecord, Error>(
                JitDumpRecord::Other(self),
            ),
            self.record_type.0 == JIT_CODE_MOVE ==> (r is Ok <==> self.body@.len() >= 48),
    {
        let t = self.record_type.0;
        if t == JIT_CODE_LOAD {
            match JitCodeLoadRecord::parse(self.body.as_slice(), self.endian) {
                Ok(v) => Ok(JitDumpRecord::CodeLoad(v)),
                Err(err) => Err(err),
            }
        } else if t == JIT_CODE_MOVE {
            match JitCodeMoveRecord::parse(self.body.as_slice(), self.endian) {
                Ok(v) => Ok(JitDumpRecord::CodeMove(v)),
                Err(err) => Err(err),
            }
        } else if t == JIT_CODE_DEBUG_INFO {
            match JitCodeDebugInfoRecord::parse(self.body.as_slice(), self.endian) {
                Ok(v) => Ok(JitDumpRecord::CodeDebugInfo(v)),
                Err(err) => Err(err),
            }
        } else if t == JIT_CODE_CLOSE {
            Ok(JitDumpRecord::CodeClose)
        } else if t == JIT_CODE_UNWINDING_INFO {
            match JitCodeUnwindingInfoRecord::parse(self.body.as_slice(), self.endian) {
                Ok(v) => Ok(JitDumpRecord::CodeUnwindingInfo(v)),
                Err(err) => Err(err),
            }
        } else {
            Ok(JitDumpRecord::Other(self))
        }
    }
}

/// Parses a jitdump file and allows iterating over its records.
///
/// The reader works with complete files as well as with partial files that
/// are still being written: when a record is not fully present yet, the
/// reader reports that it has no record, and a later call retries after
/// [`JitDumpReader::append_data`] has handed it the newly written bytes.
pub struct JitDumpReader {
    reader: BufferedReader,
    header: JitDumpHeader,
    endian: Endianness,
    pending_record_header: Option<JitDumpRecordHeader>,
    current_record_start_offset: u64,
}

impl JitDumpReader {
    /// The reader's invariant: the unread stream stays within machine
    /// bounds, and the source position stays inside the file, so appended
    /// bytes always extend the stream.
    pub closed spec fn wf(&self) -> bool {
        &&& self.reader.wf()
        &&& self.reader.unread().len() <= max_buffered()
        &&& self.reader.source_within()
    }

    /// The bytes of the file that were not consumed yet.
    pub closed spec fn stream(&self) -> Seq<u8> {
        self.reader.unread()
    }

    /// The record header already taken off the stream, waiting for its body.
    pub closed spec fn pending_header(&self) -> Option<JitDumpRecordHeader> {
        self.pending_record_header
    }

    /// The file offset at which the next record starts.
    pub closed spec fn next_offset_spec(&self) -> u64 {
        self.current_record_start_offset
    }

    /// The file endian.
    pub closed spec fn spec_endian(&self) -> Endianness {
        self.endian
    }

    /// The stream the record reads observe: when a record header was already
    /// taken off, its sixteen bytes stand in front again.
    pub open spec fn effective_stream(&self) -> Seq<u8> {
        match self.pending_header() {
            Some(h) => record_header_bytes(h, self.spec_endian()) + self.stream(),
            None => self.stream(),
        }
    }

    /// What a freshly opened reader promises of its state: it stands at the
    /// first record, right after the declared header, with nothing pending.
    pub open spec fn fresh_reader_ok(r: JitDumpReader, data: Seq<u8>) -> bool {
        let e = jit_endian_of(data);
        let total = int_value(data.subrange(8, 12), e);
        &&& r.wf()
        &&& r.spec_endian() == e
        &&& r.pending_header() is None
        &&& r.next_offset_spec() == total
        &&& r.effective_stream() == data.skip(total as int)
        &&& r.spec_header().magic@ == data.subrange(0, 4)
        &&& r.spec_header().version == 1
        &&& r.spec_header().total_size == total
        &&& r.spec_header().elf_machine_arch == int_value(data.subrange(12, 16), e)
        &&& r.spec_header().pid == int_value(data.subrange(20, 24), e)
        &&& r.spec_header().timestamp == int_value(data.subrange(24, 32), e)
        &&& r.spec_header().flags == int_value(data.subrange(32, 40), e)
    }

    /// Create a new `JitDumpReader` over the bytes of a jitdump file, with
    /// the default buffer chunk size.
    pub fn new(data: Vec<u8>) -> (r: Result<JitDumpReader, JitDumpError>)
        ensures
            r is Ok <==> data@.len() <= usize::MAX / 2 && jit_header_ok(data@),
            r is Ok ==> Self::fresh_reader_ok(r->Ok_0, data@),
    {
        Self::new_with_buffer_size(data, 4 * 1024)
    }

    /// Create a new `JitDumpReader`, with a chosen buffer chunk size.
    pub fn new_with_buffer_size(data: Vec<u8>, buffer_size: usize) -> (r: Result<
        JitDumpReader,
        JitDumpError,
    >)
        ensures
            r is Ok <==> JITDUMP_HEADER_SIZE <= buffer_size <= 0x1000_0000 && data@.len()
                <= usize::MAX / 2 && jit_header_ok(data@),
            r is Ok ==> Self::fresh_reader_ok(r->Ok_0, data@),
    {
        if buffer_size < JITDUMP_HEADER_SIZE || buffer_size > 0x1000_0000 {
            return Err(JitDumpError::NotEnoughBytesForHeader);
        }
        if data.len() > usize::MAX / 2 {
            return Err(JitDumpError::NotEnoughBytesForHeader);
        }
        let header = match JitDumpHeader::parse(data.as_slice()) {
            Ok(h) => h,
            Err(err) => {
                return Err(err);
            }
        };
        let endian = header.endian();
        let total_header_size = header.total_size as usize;
        let ghost data_view = data@;
        let source = ByteSource::new(data);
        let buffer: Vec<u8> = vec![0u8; buffer_size];
        let mut reader = BufferedReader::new_with_partially_read_buffer(source, buffer, 0, 0);
        proof {
            assert(reader.unread() =~= data_view);
        }
        // Move past the file header, padding included.
        reader.skip_bytes(total_header_size);
        Ok(
            JitDumpReader {
                reader,
                header,
                endian,
                pending_record_header: None,
                current_record_start_offset: total_header_size as u64,
            },
        )
    }

    /// Hands the reader bytes that were appended to the file since it was
    /// opened.
    pub fn append_data(&mut self, more: &[u8])
        requires
            old(self).wf(),
            old(self).stream().len() + more@.len() <= max_buffered(),
        ensures
            final(self).wf(),
            final(self).stream() == old(self).stream() + more@,
            final(self).pending_header() == old(self).pending_header(),
            final(self).next_offset_spec() == old(self).next_offset_spec(),
            final(self).spec_endian() == old(self).spec_endian(),
    {
        self.reader.append_source(more);
    }

    /// The file header.
    pub fn header(&self) -> (r: &JitDumpHeader)
        ensures
            r == self.spec_header(),
    {
        &self.header
    }

    /// The file header.
    pub closed spec fn spec_header(&self) -> &JitDumpHeader {
        &self.header
    }

    /// The file endian.
    pub fn endian(&self) -> (r: Endianness)
        ensures
            r == self.spec_endian(),
    {
        self.endian
    }

    /// The header of the next record, or `None` when its 16 bytes are not
    /// available yet.
    pub fn next_record_header(&mut self) -> (r: Option<JitDumpRecordHeader>)
        requires
            old(self).wf(),
        ensures
            final(self).wf(),
            final(self).spec_endian() == old(self).spec_endian(),
            final(self).effective_stream() == old(self).effective_stream(),
            final(self).next_offset_spec() == old(self).next_offset_spec(),
            r == final(self).pending_header(),
            match r {
                Some(h) => old(self).effective_stream().len() >= 16 && h
                    == spec_parse_record_header(
                    old(self).effective_stream(),
                    old(self).spec_endian(),
                ),
                None => old(self).effective_stream().len() < 16,
            },
    {
        if self.pending_record_header.is_none() {
            match self.reader.consume_data(JITDUMP_RECORD_HEADER_SIZE) {
                Some(header_bytes) => {
                    match JitDumpRecordHeader::parse(header_bytes.as_slice(), self.endian) {
                        Ok(h) => {
                            self.pending_record_header = Some(h);
                            proof {
                                let es = old(self).effective_stream();
                                lemma_header_bytes_of_parse(header_bytes@, self.endian);
                                assert(header_bytes@ =~= es.subrange(0, 16));
                                assert(spec_parse_record_header(header_bytes@, self.endian)
                                    == spec_parse_record_header(es, self.endian)) by {
                                    assert(header_bytes@.subrange(0, 4) =~= es.subrange(0, 4));
                                    assert(header_bytes@.subrange(4, 8) =~= es.subrange(4, 8));
                                    assert(header_bytes@.subrange(8, 16) =~= es.subrange(8, 16));
                                }
                                assert(self.effective_stream() =~= es);
                            }
                        }
                        Err(_) => {
                            // Sixteen bytes always parse as a record header.
                            proof {
                                assert(false);
                            }
                            return None;
                        }
                    }
                }
                None => {
                    return None;
                }
            }
        } else {
            proof {
                let h = old(self).pending_record_header->0;
                let es = old(self).effective_stream();
                lemma_record_header_bytes(h, self.endian);
                lemma_parse_header_prefix(
                    record_header_bytes(h, self.endian),
                    old(self).stream(),
                    self.endian,
                );
            }
        }
        self.pending_record_header
    }

    /// The timestamp of the next record, when its header is available. Even
    /// then, the next call to `next_record` can still come up empty: the
    /// record body may not be available yet.
    pub fn next_record_timestamp(&mut self) -> (r: Option<u64>)
        requires
            old(self).wf(),
        ensures
            final(self).wf(),
            final(self).spec_endian() == old(self).spec_endian(),
            final(self).effective_stream() == old(self).effective_stream(),
            final(self).next_offset_spec() == old(self).next_offset_spec(),
            r is Some <==> old(self).effective_stream().len() >= 16,
            r is Some ==> r->0 == spec_parse_record_header(
                old(self).effective_stream(),
                old(self).spec_endian(),
            ).timestamp,
    {
        match self.next_record_header() {
            Some(h) => Some(h.timestamp),
            None => None,
        }
    }

    /// The record type of the next record, when its header is available.
    pub fn next_record_type(&mut self) -> (r: Option<JitDumpRecordType>)
        requires
            old(self).wf(),
        ensures
            final(self).wf(),
            final(self).spec_endian() == old(self).spec_endian(),
            final(self).effective_stream() == old(self).effective_stream(),
            final(self).next_offset_spec() == old(self).next_offset_spec(),
            r is Some <==> old(self).effective_stream().len() >= 16,
            r is Some ==> r->0 == spec_parse_record_header(
                old(self).effective_stream(),
                old(self).spec_endian(),
            ).record_type,
    {
        match self.next_record_header() {
            Some(h) => Some(h.record_type),
            None => None,
        }
    }

    /// The file offset at which the next record starts.
    pub fn next_record_offset(&self) -> (r: u64)
        ensures
            r == self.next_offset_spec(),
    {
        self.current_record_start_offset
    }

    /// The next record, or `None` when the whole record is not available
    /// yet. A later call can succeed, after `append_data` has handed the
    /// reader the bytes that a writer appended in the meantime.
    pub fn next_record(&mut self) -> (r: Result<Option<JitDumpRawRecord>, JitDumpError>)
        requires
            old(self).wf(),
        ensures
            final(self).wf(),
            final(self).spec_endian() == old(self).spec_endian(),
            ({
                let es = old(self).effective_stream();
                let e = old(self).spec_endian();
                let h = spec_parse_record_header(es, e);
                &&& ((r is Ok && r->Ok_0 is Some) <==> (es.len() >= 16 && h.total_size >= 16
                    && h.total_size <= es.len()))
                &&& (r is Err <==> (es.len() >= 16 && h.total_size < 16))
                &&& (r is Err ==> r->Err_0 == JitDumpError::InvalidHeaderSize(h.total_size))
                &&& ((r is Ok && r->Ok_0 is Some) ==> {
                    let rec = r->Ok_0->0;
                    &&& rec.endian == e
                    &&& rec.record_type == h.record_type
                    &&& rec.timestamp == h.timestamp
                    &&& rec.record_size == h.total_size
                    &&& rec.start_offset == old(self).next_offset_spec()
                    &&& rec.body@ == es.subrange(16, h.total_size as int)
                    &&& final(self).effective_stream() == es.skip(h.total_size as int)
                    &&& final(self).pending_header() is None
                })
                &&& ((r is Ok && r->Ok_0 is None) ==> final(self).effective_stream() == es
                    && final(self).next_offset_spec() == old(self).next_offset_spec())
            }),
    {
        let ghost es = old(self).effective_stream();
        let record_header = match self.next_record_header() {
            Some(h) => h,
            None => {
                return Ok(None);
            }
        };
        if record_header.total_size < JITDUMP_RECORD_HEADER_SIZE as u32 {
            return Err(JitDumpError::InvalidHeaderSize(record_header.total_size));
        }
        let body_size = record_header.total_size as usize - JITDUMP_RECORD_HEADER_SIZE;
        proof {
            // The pending header accounts for the first sixteen bytes of the
            // effective stream; the body follows in the buffered stream.
            lemma_record_header_bytes(record_header, self.endian);
            assert(self.stream().len() == es.len() - 16);
        }
        match self.reader.consume_data(body_size) {
            Some(body) => {
                proof {
                    assert(body@ =~= es.subrange(16, record_header.total_size as int));
                }
                self.pending_record_header = None;
                proof {
                    assert(self.effective_stream() =~= es.skip(
                        record_header.total_size as int,
                    ));
                }
                let start_offset = self.current_record_start_offset;
                if self.current_record_start_offset <= u64::MAX - record_header.total_size as u64 {
                    self.current_record_start_offset = self.current_record_start_offset
                        + record_header.total_size as u64;
                }
                Ok(
                    Some(
                        JitDumpRawRecord {
                            endian: self.endian,
                            record_type: record_header.record_type,
                            timestamp: record_header.timestamp,
                            start_offset,
                            record_size: record_header.total_size,
                            body,
                        },
                    ),
                )
            }
            None => {
                proof {
                    assert(self.effective_stream() =~= es);
                }
                Ok(None)
            }
        }
    }

    /// Skip the upcoming record without materializing its body. Returns
    /// whether a record was skipped; when the whole record is not available
    /// yet, nothing is skipped and a later call can retry.
    pub fn skip_next_record(&mut self) -> (r: Result<bool, JitDumpError>)
        requires
            old(self).wf(),
        ensures
            final(self).wf(),
            final(self).spec_endian() == old(self).spec_endian(),
            ({
                let es = old(self).effective_stream();
                let e = old(self).spec_endian();
                let h = spec_parse_record_header(es, e);
                &&& ((r is Ok && r->Ok_0 == true) <==> (es.len() >= 16 && h.total_size >= 16
                    && h.total_size <= es.len()))
                &&& (r is Err <==> (es.len() >= 16 && h.total_size < 16))
                &&& ((r is Ok && r->Ok_0 == true) ==> final(self).effective_stream() == es.skip(
                    h.total_size as int,
                ) && final(self).pending_header() is None)
                &&& ((r is Ok && r->Ok_0 == false) ==> final(self).effective_stream() == es)
            }),
    {
        let record_header = match self.next_record_header() {
            Some(h) => h,
            None => {
                return Ok(false);
            }
        };
        if record_header.total_size < JITDUMP_RECORD_HEADER_SIZE as u32 {
            return Err(JitDumpError::InvalidHeaderSize(record_header.total_size));
        }
        let body_size = record_header.total_size as usize - JITDUMP_RECORD_HEADER_SIZE;
        proof {
            lemma_record_header_bytes(record_header, self.endian);
            assert(self.stream().len() == old(self).effective_stream().len() - 16);
        }
        // Make sure the record's bytes are there: a partial file cannot be
        // seeked past its end, so an incomplete record is not skipped and a
        // later call can retry.
        let available = self.reader.available_data_len();
        if available < body_size {
            if !self.reader.read_n_more_bytes(body_size - available) {
                proof {
                    assert(self.effective_stream() =~= old(self).effective_stream());
                }
                return Ok(false);
            }
        }
        self.reader.skip_bytes(body_size);
        self.pending_record_header = None;
        proof {
            assert(self.effective_stream() =~= old(self).effective_stream().skip(
                record_header.total_size as int,
            ));
        }
        if self.current_record_start_offset <= u64::MAX - record_header.total_size as u64 {
            self.current_record_start_offset = self.current_record_start_offset
                + record_header.total_size as u64;
        }
        Ok(true)
    }
}

} // verus!
