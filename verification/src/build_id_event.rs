use vstd::prelude::*;

use crate::buf;
use crate::endian::{as_signed_32, int_value, read_i32, Endianness};
use crate::error::Error;
use crate::records::{spec_parse_event_header, PerfEventHeader, PERF_EVENT_HEADER_SIZE};
use crate::thread_map::{take_up_to_nul, up_to_nul};

verus! {

/// The bit of the `misc` field which, when set, says that byte 20 of the
/// build ID field holds the build ID's true length.
pub const PERF_RECORD_MISC_BUILD_ID_SIZE: u16 = 0x8000;

/// The fixed bytes of a `build_id_event` before the file path: the event
/// header, a pid, and 24 build ID bytes.
pub const BUILD_ID_FIXED_SIZE: usize = 36;

/// The length that remains after stripping trailing four-byte groups of
/// zeros. The last group may be shorter when the length is not a multiple of
/// four.
pub open spec fn spec_stripped_len(s: Seq<u8>) -> nat
    decreases s.len(),
{
    if s.len() == 0 {
        0
    } else {
        let tail = if s.len() % 4 == 0 {
            4nat
        } else {
            s.len() % 4
        };
        if forall|j: int| s.len() - tail <= j < s.len() ==> s[j] == 0u8 {
            spec_stripped_len(s.take(s.len() - tail))
        } else {
            s.len()
        }
    }
}

/// Old versions of perf did not write down the length of the build ID.
/// Detect the true length by removing 4-byte chunks of zeros from the end.
pub fn detect_build_id_len(build_id_bytes: &[u8]) -> (r: u8)
    requires
        build_id_bytes@.len() <= 255,
    ensures
        r == spec_stripped_len(build_id_bytes@),
        r <= build_id_bytes@.len(),
{
    let mut len: usize = build_id_bytes.len();
    proof {
        assert(build_id_bytes@.take(len as int) =~= build_id_bytes@);
    }
    loop
        invariant
            len <= build_id_bytes@.len() <= 255,
            spec_stripped_len(build_id_bytes@) == spec_stripped_len(
                build_id_bytes@.take(len as int),
            ),
        ensures
            len <= 255,
            spec_stripped_len(build_id_bytes@) == len,
        decreases len,
    {
        if len == 0 {
            break ;
        }
        let tail: usize = if len % 4 == 0 {
            4
        } else {
            len % 4
        };
        let mut j: usize = len - tail;
        let mut all_zero = true;
        while j < len
            invariant
                len - tail <= j <= len <= build_id_bytes@.len(),
                all_zero == forall|k: int|
                    len - tail <= k < j ==> build_id_bytes@[k] == 0u8,
            decreases len - j,
        {
            if build_id_bytes[j] != 0 {
                all_zero = false;
            }
            j = j + 1;
        }
        let ghost cur = build_id_bytes@.take(len as int);
        if all_zero {
            proof {
                assert forall|k: int| cur.len() - tail <= k < cur.len() implies cur[k]
                    == 0u8 by {
                    assert(cur[k] == build_id_bytes@[k]);
                }
                assert(cur.take(cur.len() - tail as int) =~= build_id_bytes@.take(
                    (len - tail) as int,
                ));
            }
            len = len - tail;
        } else {
            proof {
                let k = choose|k: int|
                    len - tail <= k < len && build_id_bytes@[k] != 0u8;
                assert(cur[k] != 0u8);
            }
            break ;
        }
    }
    proof {
        if len == build_id_bytes@.len() {
            assert(build_id_bytes@.take(len as int) =~= build_id_bytes@);
        }
    }
    len as u8
}

/// `build_id_event`
///
/// One entry of the BUILD_ID feature section. If the kernel CPU mode is set
/// in `header.misc`, this is the build ID for the vmlinux image or a kernel
/// module.
#[derive(Debug, Clone, PartialEq, Eq)]
pub struct BuildIdEvent {
    pub header: PerfEventHeader,
    pub pid: i32,
    pub build_id: Vec<u8>,
    pub file_path: Vec<u8>,
}

/// The number of build ID bytes that an entry declares: when the `misc` bit
/// says so, byte 20 holds the length (at most 20); otherwise the length is
/// found by stripping trailing zero groups from the first 20 bytes.
pub open spec fn spec_build_id_len(misc: u16, id_bytes: Seq<u8>) -> nat {
    if misc & PERF_RECORD_MISC_BUILD_ID_SIZE != 0 {
        if id_bytes[20] <= 20 {
            id_bytes[20] as nat
        } else {
            20
        }
    } else {
        spec_stripped_len(id_bytes.take(20))
    }
}

impl BuildIdEvent {
    /// Reads one `build_id_event` from `data` at `pos`. The total size of the
    /// entry is given by its own header; the file path fills the space after
    /// the fixed fields, cut at the first NUL.
    pub fn parse(data: &[u8], pos: usize, e: Endianness) -> (r: Result<
        (BuildIdEvent, usize),
        Error,
    >)
        ensures
            r is Ok ==> {
                let (ev, new_pos) = r->Ok_0;
                let h = spec_parse_event_header(data@, pos as int, e);
                &&& pos + BUILD_ID_FIXED_SIZE <= data@.len()
                &&& ev.header == h
                &&& h.size >= BUILD_ID_FIXED_SIZE
                &&& pos + h.size <= data@.len()
                &&& new_pos == pos + h.size
                &&& ev.pid == as_signed_32(
                    int_value(data@.subrange(pos + 8, pos + 12), e),
                )
                &&& ev.build_id@ == data@.subrange(pos + 12, pos + 36).take(
                    spec_build_id_len(h.misc, data@.subrange(pos + 12, pos + 36)) as int,
                )
                &&& ev.file_path@ == up_to_nul(data@.subrange(pos + 36, pos + h.size))
            },
            r is Err ==> r->Err_0 == Error::Truncated,
            r is Ok <==> (pos + BUILD_ID_FIXED_SIZE <= data@.len() && spec_parse_event_header(
                data@,
                pos as int,
                e,
            ).size >= BUILD_ID_FIXED_SIZE && pos + spec_parse_event_header(
                data@,
                pos as int,
                e,
            ).size <= data@.len()),
    {
        let dlen = data.len();
        if dlen < BUILD_ID_FIXED_SIZE || pos > dlen - BUILD_ID_FIXED_SIZE {
            return Err(Error::Truncated);
        }
        let header = PerfEventHeader::parse(data, pos, e);
        let size = header.size as usize;
        if size < BUILD_ID_FIXED_SIZE || size > dlen - pos {
            return Err(Error::Truncated);
        }
        let pid = read_i32(data, pos + 8, e);
        let id_bytes = buf::copy_range(data, pos + 12, pos + 36);
        let id_len: usize = if header.misc & PERF_RECORD_MISC_BUILD_ID_SIZE != 0 {
            let declared = id_bytes[20];
            if declared <= 20 {
                declared as usize
            } else {
                20
            }
        } else {
            detect_build_id_len(&id_bytes.as_slice()[0..20]) as usize
        };
        proof {
            assert(id_bytes@.take(20) =~= data@.subrange(pos + 12, pos + 36).take(20));
        }
        let build_id = buf::copy_range(id_bytes.as_slice(), 0, id_len);
        proof {
            assert(id_bytes@.subrange(0, id_len as int) =~= id_bytes@.take(id_len as int));
        }
        let file_path = take_up_to_nul(&data[pos + 36..pos + size]);
        Ok((BuildIdEvent { header, pid, build_id, file_path }, pos + size))
    }
}

} // verus!
