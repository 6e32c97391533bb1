use vstd::prelude::*;

verus! {

/// The endianness of the numbers stored in a perf.data or jitdump file.
///
/// The endianness is detected from the file magic and then applies to every
/// multi-byte number in the file.
#[derive(Debug, Clone, Copy, PartialEq, Eq, Structural)]
pub enum Endianness {
    LittleEndian,
    BigEndian,
}

/// 256 to the power of `n`: the number of values that `n` bytes can encode.
pub open spec fn pow256(n: nat) -> nat
    decreases n,
{
    if n == 0 {
        1
    } else {
        256 * pow256((n - 1) as nat)
    }
}

/// The unsigned value of `bytes` in little-endian order.
pub open spec fn le_value(bytes: Seq<u8>) -> nat
    decreases bytes.len(),
{
    if bytes.len() == 0 {
        0
    } else {
        (bytes[0] + 256 * le_value(bytes.drop_first())) as nat
    }
}

/// The unsigned value of `bytes` in big-endian order.
pub open spec fn be_value(bytes: Seq<u8>) -> nat
    decreases bytes.len(),
{
    if bytes.len() == 0 {
        0
    } else {
        (bytes.last() + 256 * be_value(bytes.drop_last())) as nat
    }
}

/// The unsigned value of `bytes` in the given byte order.
pub open spec fn int_value(bytes: Seq<u8>, e: Endianness) -> nat {
    match e {
        Endianness::LittleEndian => le_value(bytes),
        Endianness::BigEndian => be_value(bytes),
    }
}

/// The `n`-byte little-endian encoding of `v`.
pub open spec fn le_bytes(v: nat, n: nat) -> Seq<u8>
    decreases n,
{
    if n == 0 {
        Seq::empty()
    } else {
        seq![(v % 256) as u8] + le_bytes(v / 256, (n - 1) as nat)
    }
}

/// The `n`-byte big-endian encoding of `v`.
pub open spec fn be_bytes(v: nat, n: nat) -> Seq<u8>
    decreases n,
{
    if n == 0 {
        Seq::empty()
    } else {
        be_bytes(v / 256, (n - 1) as nat) + seq![(v % 256) as u8]
    }
}

/// The `n`-byte encoding of `v` in the given byte order.
pub open spec fn int_bytes(v: nat, n: nat, e: Endianness) -> Seq<u8> {
    match e {
        Endianness::LittleEndian => le_bytes(v, n),
        Endianness::BigEndian => be_bytes(v, n),
    }
}

pub proof fn lemma_le_value_bound(bytes: Seq<u8>)
    ensures
        le_value(bytes) < pow256(bytes.len()),
    decreases bytes.len(),
{
    if bytes.len() > 0 {
        lemma_le_value_bound(bytes.drop_first());
    }
}

pub proof fn lemma_be_value_bound(bytes: Seq<u8>)
    ensures
        be_value(bytes) < pow256(bytes.len()),
    decreases bytes.len(),
{
    if bytes.len() > 0 {
        lemma_be_value_bound(bytes.drop_last());
    }
}

pub proof fn lemma_int_value_bound(bytes: Seq<u8>, e: Endianness)
    ensures
        int_value(bytes, e) < pow256(bytes.len()),
{
    match e {
        Endianness::LittleEndian => lemma_le_value_bound(bytes),
        Endianness::BigEndian => lemma_be_value_bound(bytes),
    }
}

/// Decoding inverts encoding: `n` bytes hold any value below `pow256(n)`.
pub proof fn lemma_int_value_of_int_bytes(v: nat, n: nat, e: Endianness)
    requires
        v < pow256(n),
    ensures
        int_bytes(v, n, e).len() == n,
        int_value(int_bytes(v, n, e), e) == v,
    decreases n,
{
    if n > 0 {
        lemma_int_value_of_int_bytes(v / 256, (n - 1) as nat, e);
        match e {
            Endianness::LittleEndian => {
                let b = le_bytes(v, n);
                assert(b.drop_first() =~= le_bytes(v / 256, (n - 1) as nat));
            }
            Endianness::BigEndian => {
                let b = be_bytes(v, n);
                assert(b.drop_last() =~= be_bytes(v / 256, (n - 1) as nat));
                assert(b.last() == (v % 256) as u8);
            }
        }
    }
}

/// Encoding inverts decoding: the bytes of a value of `n` bytes are those
/// same bytes.
pub proof fn lemma_int_bytes_of_int_value(b: Seq<u8>, e: Endianness)
    ensures
        int_bytes(int_value(b, e), b.len(), e) == b,
    decreases b.len(),
{
    if b.len() > 0 {
        match e {
            Endianness::LittleEndian => {
                let v = le_value(b);
                assert(v == (b[0] + 256 * le_value(b.drop_first())) as nat);
                assert(v % 256 == b[0] && v / 256 == le_value(b.drop_first()))
                    by (nonlinear_arith)
                    requires
                        v == b[0] + 256 * le_value(b.drop_first()),
                        0 <= b[0] < 256,
                        le_value(b.drop_first()) >= 0,
                ;
                lemma_int_bytes_of_int_value(b.drop_first(), e);
                assert(le_bytes(v, b.len()) =~= b);
            }
            Endianness::BigEndian => {
                let v = be_value(b);
                assert(v == (b.last() + 256 * be_value(b.drop_last())) as nat);
                assert(v % 256 == b.last() && v / 256 == be_value(b.drop_last()))
                    by (nonlinear_arith)
                    requires
                        v == b.last() + 256 * be_value(b.drop_last()),
                        0 <= b.last() < 256,
                        be_value(b.drop_last()) >= 0,
                ;
                lemma_int_bytes_of_int_value(b.drop_last(), e);
                assert(be_bytes(v, b.len()) =~= b);
            }
        }
    } else {
        assert(int_bytes(int_value(b, e), 0, e) =~= b);
    }
}

/// Reads an unsigned integer of `n` bytes from `data` at `pos`.
pub fn read_unsigned(data: &[u8], pos: usize, n: usize, e: Endianness) -> (r: u64)
    requires
        n <= 8,
        pos + n <= data@.len(),
    ensures
        r == int_value(data@.subrange(pos as int, pos + n), e),
{
    proof {
        lemma_int_value_bound(data@.subrange(pos as int, pos + n), e);
    }
    let dlen: usize = data.len();
    match e {
        Endianness::LittleEndian => {
            let mut r: u64 = 0;
            let mut i: usize = n;
            while i > 0
                invariant
                    i <= n,
                    n <= 8,
                    pos + n <= dlen,
                    dlen == data@.len(),
                    r == le_value(data@.subrange(pos + i, pos + n)),
                    r < pow256((n - i) as nat),
                decreases i,
            {
                i = i - 1;
                proof {
                    let s = data@.subrange(pos + i, pos + n);
                    assert(s.drop_first() =~= data@.subrange(pos + i + 1, pos + n));
                    lemma_pow256_monotonic((n - i - 1) as nat, 7);
                    lemma_pow256_values();
                }
                r = r * 256 + data[pos + i] as u64;
            }
            proof {
                assert(data@.subrange(pos + 0, pos + n) =~= data@.subrange(
                    pos as int,
                    pos + n,
                ));
            }
            r
        }
        Endianness::BigEndian => {
            let mut r: u64 = 0;
            let mut i: usize = 0;
            while i < n
                invariant
                    i <= n,
                    n <= 8,
                    pos + n <= dlen,
                    dlen == data@.len(),
                    r == be_value(data@.subrange(pos as int, pos + i)),
                    r < pow256(i as nat),
                decreases n - i,
            {
                proof {
                    let s = data@.subrange(pos as int, pos + i + 1);
                    assert(s.drop_last() =~= data@.subrange(pos as int, pos + i));
                    assert(s.last() == data@[pos + i]);
                    lemma_pow256_monotonic(i as nat, 7);
                    lemma_pow256_values();
                }
                r = r * 256 + data[pos + i] as u64;
                i = i + 1;
            }
            r
        }
    }
}

proof fn lemma_pow256_monotonic(a: nat, b: nat)
    requires
        a <= b,
    ensures
        pow256(a) <= pow256(b),
    decreases b,
{
    if a < b && b > 0 {
        lemma_pow256_monotonic(a, (b - 1) as nat);
    }
}

/// The value of `pow256` at the sizes used by the exec readers.
pub proof fn lemma_pow256_values()
    ensures
        pow256(1) == 0x100,
        pow256(2) == 0x1_0000,
        pow256(4) == 0x1_0000_0000,
        pow256(8) == 0x1_0000_0000_0000_0000,
{
    reveal_with_fuel(pow256, 9);
    assert(pow256(8) == 0x1_0000_0000_0000_0000);
    assert(pow256(4) == 0x1_0000_0000);
    assert(pow256(2) == 0x1_0000);
    assert(pow256(1) == 0x100);
}

/// Reads a `u16` from `data` at `pos` in the given byte order.
pub fn read_u16(data: &[u8], pos: usize, e: Endianness) -> (r: u16)
    requires
        pos + 2 <= data@.len(),
    ensures
        r == int_value(data@.subrange(pos as int, pos + 2), e),
{
    proof {
        lemma_int_value_bound(data@.subrange(pos as int, pos + 2), e);
        lemma_pow256_values();
    }
    read_unsigned(data, pos, 2, e) as u16
}

/// Reads a `u32` from `data` at `pos` in the given byte order.
pub fn read_u32(data: &[u8], pos: usize, e: Endianness) -> (r: u32)
    requires
        pos + 4 <= data@.len(),
    ensures
        r == int_value(data@.subrange(pos as int, pos + 4), e),
{
    proof {
        lemma_int_value_bound(data@.subrange(pos as int, pos + 4), e);
        lemma_pow256_values();
    }
    read_unsigned(data, pos, 4, e) as u32
}

/// Reads a `u64` from `data` at `pos` in the given byte order.
pub fn read_u64(data: &[u8], pos: usize, e: Endianness) -> (r: u64)
    requires
        pos + 8 <= data@.len(),
    ensures
        r == int_value(data@.subrange(pos as int, pos + 8), e),
{
    read_unsigned(data, pos, 8, e)
}

/// The signed 32-bit value with two's-complement representation `v`.
pub open spec fn as_signed_32(v: nat) -> int {
    if v < 0x8000_0000 {
        v as int
    } else {
        v - 0x1_0000_0000
    }
}

/// Reads an `i32` from `data` at `pos` in the given byte order.
pub fn read_i32(data: &[u8], pos: usize, e: Endianness) -> (r: i32)
    requires
        pos + 4 <= data@.len(),
    ensures
        r == as_signed_32(int_value(data@.subrange(pos as int, pos + 4), e) as nat),
{
    proof {
        lemma_int_value_bound(data@.subrange(pos as int, pos + 4), e);
        lemma_pow256_values();
    }
    let v = read_unsigned(data, pos, 4, e);
    if v < 0x8000_0000 {
        v as i32
    } else {
        let m = (0xFFFF_FFFFu64 - v) as u32;
        -(m as i32) - 1
    }
}

} // verus!
