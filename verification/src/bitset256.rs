use vstd::prelude::*;

verus! {

/// Whether bit `i` is set in the 256-bit set stored as four 64-bit chunks.
pub open spec fn bit_set(chunks: [u64; 4], i: u32) -> bool {
    i < 256 && (chunks@[i as int / 64] >> (i as u64 % 64)) & 1 == 1
}

/// The number of set bits below `n`.
pub open spec fn count_bits_below(chunks: [u64; 4], n: nat) -> nat
    decreases n,
{
    if n == 0 {
        0
    } else {
        count_bits_below(chunks, (n - 1) as nat) + if bit_set(chunks, (n - 1) as u32) {
            1nat
        } else {
            0nat
        }
    }
}

/// Tests bit `i` of the 256-bit set.
pub fn has_bit(chunks: &[u64; 4], i: u32) -> (r: bool)
    ensures
        r == bit_set(*chunks, i),
{
    if i >= 256 {
        return false;
    }
    let chunk = chunks[(i / 64) as usize];
    let bit = (i % 64) as u64;
    let r = (chunk >> bit) & 1 != 0;
    proof {
        assert((chunk >> bit) & 1 == 0 || (chunk >> bit) & 1 == 1) by (bit_vector);
    }
    r
}

/// Counts the set bits of the 256-bit set.
pub fn count_bits(chunks: &[u64; 4]) -> (r: usize)
    ensures
        r == count_bits_below(*chunks, 256),
{
    let mut count: usize = 0;
    let mut i: u32 = 0;
    while i < 256
        invariant
            i <= 256,
            count == count_bits_below(*chunks, i as nat),
            count <= i,
        decreases 256 - i,
    {
        if has_bit(chunks, i) {
            count = count + 1;
        }
        i = i + 1;
    }
    count
}

/// Sets bit `i` of a 256-bit set stored as four chunks in a vector.
pub fn set_bit_vec(chunks: &mut Vec<u64>, i: u32)
    requires
        old(chunks)@.len() == 4,
        i < 256,
    ensures
        final(chunks)@.len() == 4,
        forall|j: u32| bit_set(chunks_of(final(chunks)@), j) == (bit_set(
            chunks_of(old(chunks)@),
            j,
        ) || j == i),
{
    let idx = (i / 64) as usize;
    let bit = (i % 64) as u64;
    let updated = chunks[idx] | (1u64 << bit);
    chunks.set(idx, updated);
    proof {
        let oldc = chunks_of(old(chunks)@);
        let newc = chunks_of(final(chunks)@);
        assert forall|j: u32| bit_set(newc, j) == (bit_set(oldc, j) || j == i) by {
            if j < 256 {
                let jc = j / 64;
                let jb = j as u64 % 64;
                let ic = i / 64;
                let ib = i as u64 % 64;
                if jc == ic {
                    let c = oldc@[jc as int];
                    assert(((c | (1u64 << ib)) >> jb) & 1 == if jb == ib {
                        1u64
                    } else {
                        (c >> jb) & 1
                    }) by (bit_vector)
                        requires
                            jb < 64,
                            ib < 64,
                    ;
                    assert((c >> jb) & 1 == 0 || (c >> jb) & 1 == 1) by (bit_vector);
                    assert(j == i <==> (jc == ic && jb == ib)) by {
                        if jb == ib && jc == ic {
                            assert(j == jc * 64 + jb);
                            assert(i == ic * 64 + ib);
                        }
                    }
                }
            }
        }
    }
}

/// The four chunks of a length-four vector, as an array value.
pub open spec fn chunks_of(s: Seq<u64>) -> [u64; 4]
    recommends
        s.len() == 4,
{
    [s[0], s[1], s[2], s[3]]
}

/// A set bit makes the count positive, anywhere below the cutoff.
pub proof fn lemma_count_positive(chunks: [u64; 4], i: u32, n: nat)
    requires
        bit_set(chunks, i),
        (i as nat) < n,
    ensures
        count_bits_below(chunks, n) > 0,
    decreases n,
{
    if i as nat != (n - 1) as nat {
        lemma_count_positive(chunks, i, (n - 1) as nat);
    }
}

/// When no bit below the cutoff is set, the count is zero.
pub proof fn lemma_count_of_none(chunks: [u64; 4], n: nat)
    requires
        forall|i: u32| (i as nat) < n ==> !bit_set(chunks, i),
    ensures
        count_bits_below(chunks, n) == 0,
    decreases n,
{
    if n > 0 {
        lemma_count_of_none(chunks, (n - 1) as nat);
        assert(!bit_set(chunks, (n - 1) as u32));
    }
}

/// A zero count means no bit below the cutoff is set.
pub proof fn lemma_count_zero(chunks: [u64; 4], n: nat)
    requires
        count_bits_below(chunks, n) == 0,
    ensures
        forall|i: u32| (i as nat) < n ==> !bit_set(chunks, i),
{
    assert forall|i: u32| (i as nat) < n implies !bit_set(chunks, i) by {
        if bit_set(chunks, i) {
            lemma_count_positive(chunks, i, n);
        }
    }
}

} // verus!
