use vstd::prelude::*;

use crate::buf;
use crate::endian::{int_value, read_u64, Endianness};
use crate::error::Error;
use crate::strings;

verus! {

/// The number of bytes of one thread map entry: a `u64` tid and 16 name bytes.
pub const THREAD_ENTRY_SIZE: usize = 24;

/// The prefix of `s` before its first NUL byte, or all of `s` when it holds
/// none.
pub open spec fn up_to_nul(s: Seq<u8>) -> Seq<u8>
    decreases s.len(),
{
    if s.len() == 0 {
        s
    } else if s[0] == 0u8 {
        Seq::empty()
    } else {
        seq![s[0]] + up_to_nul(s.drop_first())
    }
}

/// Extracts the prefix of `s` before its first NUL byte.
pub fn take_up_to_nul(s: &[u8]) -> (r: Vec<u8>)
    ensures
        r@ == up_to_nul(s@),
{
    let end: usize = match strings::find_byte(0, s) {
        Some(i) => i,
        None => s.len(),
    };
    proof {
        lemma_up_to_nul_split(s@, end as int);
    }
    buf::copy_range(s, 0, end)
}

pub proof fn lemma_up_to_nul_split(s: Seq<u8>, end: int)
    requires
        0 <= end <= s.len(),
        forall|j: int| 0 <= j < end ==> s[j] != 0u8,
        end < s.len() ==> s[end] == 0u8,
    ensures
        up_to_nul(s) == s.subrange(0, end),
    decreases s.len(),
{
    if s.len() == 0 {
        assert(up_to_nul(s) =~= s.subrange(0, end));
    } else if s[0] == 0u8 {
        assert(up_to_nul(s) =~= s.subrange(0, end));
    } else {
        lemma_up_to_nul_split(s.drop_first(), end - 1);
        assert(seq![s[0]] + up_to_nul(s.drop_first()) =~= s.subrange(0, end));
    }
}

/// A list of threads, usually without names.
///
/// The names are only filled in by `perf stat`; files from `perf record`
/// carry the thread names in their COMM records instead.
#[derive(Debug, Clone, PartialEq, Eq)]
pub struct ThreadMap {
    endian: Endianness,
    /// The packed entries: 24 bytes each.
    data: Vec<u8>,
}

/// A single thread of a [`ThreadMap`].
#[derive(Debug, Clone, PartialEq, Eq)]
pub struct ThreadMapEntry {
    /// The tid of this thread.
    pub tid: u64,
    /// The name of this thread. Usually empty.
    pub name: Vec<u8>,
}

/// The tid of entry `i` of a packed thread map.
pub open spec fn spec_entry_tid(data: Seq<u8>, e: Endianness, i: int) -> nat {
    int_value(data.subrange(i * 24, i * 24 + 8), e)
}

/// The name bytes of entry `i` of a packed thread map: the 16 name bytes cut
/// at the first NUL.
pub open spec fn spec_entry_name(data: Seq<u8>, i: int) -> Seq<u8> {
    up_to_nul(data.subrange(i * 24 + 8, i * 24 + 24))
}

impl ThreadMap {
    /// The packed entry bytes.
    pub closed spec fn view_data(&self) -> Seq<u8> {
        self.data@
    }

    /// The byte order of the packed entries.
    pub closed spec fn view_endian(&self) -> Endianness {
        self.endian
    }

    /// The number of entries.
    pub open spec fn spec_len(&self) -> int {
        self.view_data().len() as int / 24
    }

    /// Reads a thread map from a THREAD_MAP record body: a `u64` count
    /// followed by that many 24-byte entries.
    pub fn parse(data: &[u8], e: Endianness) -> (r: Result<ThreadMap, Error>)
        ensures
            r is Ok <==> (data@.len() >= 8 && 8 + int_value(data@.subrange(0, 8), e) * 24
                <= data@.len()),
            r is Ok ==> {
                let n = int_value(data@.subrange(0, 8), e);
                &&& r->Ok_0.view_data() == data@.subrange(8, 8 + (n * 24) as int)
                &&& r->Ok_0.view_endian() == e
            },
            r is Err ==> r->Err_0 == Error::Truncated,
    {
        if data.len() < 8 {
            return Err(Error::Truncated);
        }
        let len = read_u64(data, 0, e);
        let avail = data.len() - 8;
        if len > (avail / THREAD_ENTRY_SIZE) as u64 {
            proof {
                assert(len * 24 > avail) by (nonlinear_arith)
                    requires
                        len > avail as int / 24,
                        avail >= 0,
                ;
            }
            return Err(Error::Truncated);
        }
        let datalen = (len as usize) * THREAD_ENTRY_SIZE;
        proof {
            assert(len * 24 <= avail) by (nonlinear_arith)
                requires
                    len <= avail as int / 24,
                    avail >= 0,
            ;
        }
        let entries = buf::copy_range(data, 8, 8 + datalen);
        Ok(ThreadMap { endian: e, data: entries })
    }

    /// The number of threads in the map.
    pub fn len(&self) -> (r: usize)
        ensures
            r == self.spec_len(),
    {
        self.data.len() / THREAD_ENTRY_SIZE
    }

    /// Whether the map holds no threads.
    pub fn is_empty(&self) -> (r: bool)
        ensures
            r == (self.spec_len() == 0),
    {
        self.len() == 0
    }

    /// The entry at `i`: its tid and its name bytes.
    pub fn entry(&self, i: usize) -> (r: ThreadMapEntry)
        requires
            i < self.spec_len(),
        ensures
            r.tid == spec_entry_tid(self.view_data(), self.view_endian(), i as int),
            r.name@ == spec_entry_name(self.view_data(), i as int),
    {
        let dl = self.data.len();
        proof {
            assert(i * 24 + 24 <= dl) by (nonlinear_arith)
                requires
                    i < dl as int / 24,
            ;
        }
        let base = i * THREAD_ENTRY_SIZE;
        let tid = read_u64(self.data.as_slice(), base, self.endian);
        let name = take_up_to_nul(&self.data.as_slice()[base + 8..base + 24]);
        ThreadMapEntry { tid, name }
    }

    /// Iterates over the entries in file order.
    pub fn iter(&self) -> (r: ThreadMapIter<'_>)
        ensures
            r.map() == self,
            r.position() == 0,
    {
        ThreadMapIter { map: self, index: 0 }
    }
}

/// Iterates over the entries of a [`ThreadMap`], in file order.
pub struct ThreadMapIter<'a> {
    map: &'a ThreadMap,
    index: usize,
}

impl<'a> ThreadMapIter<'a> {
    /// The map being iterated.
    pub closed spec fn map(&self) -> &'a ThreadMap {
        self.map
    }

    /// The index of the next entry to emit.
    pub closed spec fn position(&self) -> int {
        self.index as int
    }

    /// The next entry, or `None` past the last one.
    pub fn next(&mut self) -> (r: Option<ThreadMapEntry>)
        requires
            old(self).position() <= old(self).map().spec_len(),
        ensures
            final(self).map() == old(self).map(),
            old(self).position() == old(self).map().spec_len() ==> r is None
                && final(self).position() == old(self).position(),
            old(self).position() < old(self).map().spec_len() ==> {
                let m = old(self).map();
                let i = old(self).position();
                &&& r is Some
                &&& r->0.tid == spec_entry_tid(m.view_data(), m.view_endian(), i)
                &&& r->0.name@ == spec_entry_name(m.view_data(), i)
                &&& final(self).position() == i + 1
            },
    {
        if self.index >= self.map.len() {
            return None;
        }
        let entry = self.map.entry(self.index);
        self.index = self.index + 1;
        Some(entry)
    }
}

} // verus!
