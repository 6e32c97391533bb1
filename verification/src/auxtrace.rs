use vstd::prelude::*;

use crate::buf;
use crate::endian::{int_value, read_u32, read_u64, Endianness};
use crate::error::Error;

verus! {

/// The number of fixed bytes of an AUXTRACE record body before the trace
/// data: three `u64` fields and four `u32` fields.
pub const AUXTRACE_FIXED_SIZE: usize = 40;

/// Auxtrace data record.
///
/// This is usually used with Intel PT, which records the pure Intel PT data.
#[derive(Debug, Clone, PartialEq, Eq)]
pub struct Auxtrace {
    /// Size of `aux_data`
    pub size: u64,
    /// Offset of this trace in the total trace
    pub offset: u64,
    /// Reference ID
    pub reference: u64,
    /// Index of this trace in the total trace
    pub index: u32,
    /// ID of thread that contributes to this trace
    pub tid: u32,
    /// ID of CPU that contributes to this trace
    pub cpu: u32,
    /// Pure data: everything that follows the fixed fields.
    pub aux_data: Vec<u8>,
}

impl Auxtrace {
    /// Reads an AUXTRACE record body: the fixed fields, a reserved word, and
    /// the trace bytes.
    pub fn parse(data: &[u8], e: Endianness) -> (r: Result<Auxtrace, Error>)
        ensures
            r is Ok <==> data@.len() >= AUXTRACE_FIXED_SIZE,
            r is Ok ==> {
                let a = r->Ok_0;
                &&& a.size == int_value(data@.subrange(0, 8), e)
                &&& a.offset == int_value(data@.subrange(8, 16), e)
                &&& a.reference == int_value(data@.subrange(16, 24), e)
                &&& a.index == int_value(data@.subrange(24, 28), e)
                &&& a.tid == int_value(data@.subrange(28, 32), e)
                &&& a.cpu == int_value(data@.subrange(32, 36), e)
                &&& a.aux_data@ == data@.subrange(40, data@.len() as int)
            },
            r is Err ==> r->Err_0 == Error::Truncated,
    {
        if data.len() < AUXTRACE_FIXED_SIZE {
            return Err(Error::Truncated);
        }
        let size = read_u64(data, 0, e);
        let offset = read_u64(data, 8, e);
        let reference = read_u64(data, 16, e);
        let index = read_u32(data, 24, e);
        let tid = read_u32(data, 28, e);
        let cpu = read_u32(data, 32, e);
        // The four bytes at 36 are reserved.
        let aux_data = buf::copy_range(data, AUXTRACE_FIXED_SIZE, data.len());
        Ok(Auxtrace { size, offset, reference, index, tid, cpu, aux_data })
    }
}

} // verus!
