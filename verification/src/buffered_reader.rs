use vstd::prelude::*;

use crate::buf;

verus! {

/// An in-memory byte stream that can grow at its end, standing in for a file
/// that is still being written. Reading consumes from the front; appending
/// extends the back.
pub struct ByteSource {
    data: Vec<u8>,
    pos: usize,
}

impl ByteSource {
    /// All bytes the source ever held.
    pub closed spec fn all_bytes(&self) -> Seq<u8> {
        self.data@
    }

    /// The read position.
    pub closed spec fn position(&self) -> int {
        self.pos as int
    }

    /// The bytes not yet read. Empty when the position was skipped past the
    /// current end.
    pub open spec fn remaining(&self) -> Seq<u8> {
        if self.position() <= self.all_bytes().len() {
            self.all_bytes().skip(self.position())
        } else {
            Seq::empty()
        }
    }

    /// Whether the read position is still within the bytes: an append then
    /// extends the remaining bytes.
    pub open spec fn within(&self) -> bool {
        self.position() <= self.all_bytes().len()
    }

    /// A source holding the given bytes.
    pub fn new(data: Vec<u8>) -> (r: ByteSource)
        ensures
            r.remaining() == data@,
            r.within(),
    {
        let r = ByteSource { data, pos: 0 };
        proof {
            assert(r.remaining() =~= r.data@);
        }
        r
    }

    /// Appends bytes at the end, as a growing file would.
    pub fn append(&mut self, more: &[u8])
        ensures
            final(self).all_bytes() == old(self).all_bytes() + more@,
            final(self).position() == old(self).position(),
            old(self).within() ==> final(self).remaining() == old(self).remaining() + more@
                && final(self).within(),
    {
        let mut i: usize = 0;
        let n = more.len();
        while i < n
            invariant
                i <= n,
                n == more@.len(),
                self.data@ == old(self).data@ + more@.take(i as int),
                self.pos == old(self).pos,
            decreases n - i,
        {
            self.data.push(more[i]);
            i = i + 1;
            proof {
                assert(self.data@ =~= old(self).data@ + more@.take(i as int));
            }
        }
        proof {
            assert(more@.take(n as int) =~= more@);
            if old(self).pos <= old(self).data@.len() {
                assert(self.remaining() =~= old(self).remaining() + more@);
            }
        }
    }

    /// Reads up to `n` bytes from the front of the remaining bytes.
    pub fn read_at_most(&mut self, n: usize) -> (r: Vec<u8>)
        ensures
            r@.len() == if n <= old(self).remaining().len() {
                n as int
            } else {
                old(self).remaining().len() as int
            },
            r@ == old(self).remaining().take(r@.len() as int),
            final(self).remaining() == old(self).remaining().skip(r@.len() as int),
            final(self).all_bytes() == old(self).all_bytes(),
            old(self).within() ==> final(self).within(),
    {
        let dlen = self.data.len();
        if self.pos >= dlen {
            proof {
                assert(old(self).remaining() =~= Seq::<u8>::empty());
                assert(Seq::<u8>::empty().take(0) =~= Seq::<u8>::empty());
                assert(Seq::<u8>::empty().skip(0) =~= Seq::<u8>::empty());
            }
            return Vec::new();
        }
        let take = if n <= dlen - self.pos {
            n
        } else {
            dlen - self.pos
        };
        let r = buf::copy_range(self.data.as_slice(), self.pos, self.pos + take);
        self.pos = self.pos + take;
        proof {
            assert(r@ =~= old(self).remaining().take(take as int));
            assert(self.remaining() =~= old(self).remaining().skip(take as int));
        }
        r
    }

    /// Skips `n` bytes, moving past the current end when `n` exceeds the
    /// remaining bytes — as seeking a file beyond its end would.
    pub fn advance(&mut self, n: usize)
        ensures
            final(self).all_bytes() == old(self).all_bytes(),
            n <= old(self).remaining().len() && old(self).within() ==> final(self).remaining()
                == old(self).remaining().skip(n as int) && final(self).within(),
            n > old(self).remaining().len() || !old(self).within() ==> final(self).remaining()
                == Seq::<u8>::empty(),
    {
        let dlen = self.data.len();
        proof {
            assert(self.data@.len() == dlen);
        }
        if n > usize::MAX - self.pos {
            self.pos = usize::MAX;
        } else {
            self.pos = self.pos + n;
        }
        proof {
            if old(self).within() && n <= old(self).remaining().len() {
                assert(self.remaining() =~= old(self).remaining().skip(n as int));
            } else {
                assert(self.remaining() =~= Seq::<u8>::empty());
            }
        }
    }
}

/// Where the next unread byte sits: in the fixed buffer, or in the dynamic
/// buffer that an oversized record spilled into.
enum ReadPos {
    AtPosInFixedBuf(usize),
    AtPosInDynamicBuf(usize),
}

/// The most bytes a [`BufferedReader`] handles at once; a machine limit far
/// above any real input, which keeps every byte count away from overflow.
pub open spec fn max_buffered() -> int {
    usize::MAX as int / 2
}

/// A buffered reader over a [`ByteSource`], for reading a file in record-size
/// chunks while the file may still be growing.
///
/// A fixed buffer of configurable size is the only read destination; a
/// dynamic buffer is grown only when a record exceeds the fixed buffer. A
/// read that cannot be satisfied yet is not an error: the same read can
/// succeed later, after the source has grown.
pub struct BufferedReader {
    source: ByteSource,
    /// Always stays the same size, and is always the destination of reads.
    fixed_buf: Vec<u8>,
    /// Used when records straddle fixed_buf chunks, grown to fit the record.
    dynamic_buf: Vec<u8>,
    read_pos: ReadPos,
    write_pos: usize,
}

impl BufferedReader {
    /// The reader's invariant: the positions lie inside their buffers, and
    /// the buffers stay small enough that byte counts cannot wrap.
    pub closed spec fn wf(&self) -> bool {
        &&& 1 <= self.fixed_buf@.len() <= max_buffered()
        &&& self.write_pos <= self.fixed_buf@.len()
        &&& match self.read_pos {
            ReadPos::AtPosInFixedBuf(p) => p <= self.write_pos,
            ReadPos::AtPosInDynamicBuf(p) => p <= self.dynamic_buf@.len() && self.dynamic_buf@.len()
                + self.fixed_buf@.len() <= usize::MAX,
        }
    }

    /// The bytes that were read from the source but not yet consumed.
    pub closed spec fn buffered(&self) -> Seq<u8> {
        match self.read_pos {
            ReadPos::AtPosInFixedBuf(p) => self.fixed_buf@.subrange(
                p as int,
                self.write_pos as int,
            ),
            ReadPos::AtPosInDynamicBuf(p) => self.dynamic_buf@.skip(p as int)
                + self.fixed_buf@.take(self.write_pos as int),
        }
    }

    /// The bytes the underlying source still holds.
    pub closed spec fn source_remaining(&self) -> Seq<u8> {
        self.source.remaining()
    }

    /// Whether the source's read position is within its bytes, so that
    /// appended bytes extend the unread stream.
    pub closed spec fn source_within(&self) -> bool {
        self.source.within()
    }

    /// Everything not yet consumed: the buffered bytes followed by what the
    /// source still holds.
    pub open spec fn unread(&self) -> Seq<u8> {
        self.buffered() + self.source_remaining()
    }

    /// Creates a reader whose fixed buffer is `buf`, of which the bytes up to
    /// `write_pos` were already filled from the source and the bytes up to
    /// `consumed_len` are already consumed.
    pub fn new_with_partially_read_buffer(
        source: ByteSource,
        buf: Vec<u8>,
        consumed_len: usize,
        write_pos: usize,
    ) -> (r: BufferedReader)
        requires
            consumed_len < buf@.len(),
            consumed_len <= write_pos <= buf@.len(),
            buf@.len() <= max_buffered(),
        ensures
            r.wf(),
            r.unread() == buf@.subrange(consumed_len as int, write_pos as int)
                + source.remaining(),
            r.source_within() == source.within(),
    {
        BufferedReader {
            source,
            fixed_buf: buf,
            dynamic_buf: Vec::new(),
            read_pos: ReadPos::AtPosInFixedBuf(consumed_len),
            write_pos,
        }
    }

    /// Appends bytes to the underlying source, as a growing file would.
    pub fn append_source(&mut self, more: &[u8])
        requires
            old(self).wf(),
        ensures
            final(self).wf(),
            final(self).buffered() == old(self).buffered(),
            old(self).source_within() ==> final(self).unread() == old(self).unread() + more@
                && final(self).source_within(),
    {
        let ghost pre_buffered = self.buffered();
        self.source.append(more);
        proof {
            assert(self.buffered() == pre_buffered);
            if old(self).source.within() {
                assert(self.unread() =~= old(self).unread() + more@);
            }
        }
    }

    /// The number of buffered, not yet consumed bytes.
    pub fn available_data_len(&self) -> (r: usize)
        requires
            self.wf(),
        ensures
            r == self.buffered().len(),
    {
        match self.read_pos {
            ReadPos::AtPosInFixedBuf(fixed_buf_read_pos) => self.write_pos - fixed_buf_read_pos,
            ReadPos::AtPosInDynamicBuf(dynamic_buf_read_pos) => {
                let unread_dynamic = self.dynamic_buf.len() - dynamic_buf_read_pos;
                unread_dynamic + self.write_pos
            }
        }
    }

    /// Pulls bytes from the source until `n` more than before are buffered.
    /// Returns whether that many became available; a shortfall is not final,
    /// because the source may grow.
    #[verifier::rlimit(100)]
    pub fn read_n_more_bytes(&mut self, n: usize) -> (r: bool)
        requires
            old(self).wf(),
            old(self).unread().len() <= max_buffered(),
        ensures
            final(self).wf(),
            final(self).unread() == old(self).unread(),
            r == (final(self).buffered().len() >= old(self).buffered().len() + n),
            r == (old(self).unread().len() >= old(self).buffered().len() + n),
            !r ==> final(self).buffered() == final(self).unread(),
            old(self).source_within() ==> final(self).source_within(),
    {
        let mut achieved: usize = 0;
        loop
            invariant
                self.wf(),
                self.unread() == old(self).unread(),
                self.unread().len() <= max_buffered(),
                self.buffered().len() == old(self).buffered().len() + achieved,
                old(self).source_within() ==> self.source_within(),
            ensures
                self.wf(),
                self.unread() == old(self).unread(),
                self.buffered().len() == old(self).buffered().len() + achieved,
                achieved >= n || self.buffered() == self.unread(),
                old(self).source_within() ==> self.source_within(),
            decreases
                    (if achieved <= n {
                        n - achieved
                    } else {
                        0int
                    }),
                    (if self.write_pos < self.fixed_buf@.len() {
                        0int
                    } else {
                        1int
                    }),
        {
            if achieved >= n {
                break ;
            }
            let fixed_len = self.fixed_buf.len();
            if self.write_pos < fixed_len {
                // There is space in the fixed buffer: read into its tail.
                let space = fixed_len - self.write_pos;
                let ghost pre = *self;
                let pulled = self.source.read_at_most(space);
                let pulled_len = pulled.len();
                let wp = self.write_pos;
                let ghost before_fixed = self.fixed_buf@;
                let ghost src_after = self.source;
                let ghost dyn_before = self.dynamic_buf@;
                let ghost rp_before = self.read_pos;
                let fl = self.fixed_buf.len();
                let mut j: usize = 0;
                while j < pulled_len
                    invariant
                        j <= pulled_len,
                        pulled_len == pulled@.len(),
                        wp + pulled_len <= fl,
                        fl == self.fixed_buf@.len(),
                        self.fixed_buf@.len() == before_fixed.len(),
                        self.fixed_buf@.take(wp as int) == before_fixed.take(wp as int),
                        self.fixed_buf@.subrange(wp as int, wp + j) == pulled@.take(j as int),
                        self.source == src_after,
                        self.dynamic_buf@ == dyn_before,
                        self.read_pos == rp_before,
                        self.write_pos == wp,
                    decreases pulled_len - j,
                {
                    self.fixed_buf.set(wp + j, pulled[j]);
                    j = j + 1;
                    proof {
                        assert(self.fixed_buf@.take(wp as int) =~= before_fixed.take(wp as int));
                        assert(self.fixed_buf@.subrange(wp as int, wp + j) =~= pulled@.take(
                            j as int,
                        ));
                    }
                }
                self.write_pos = wp + pulled_len;
                proof {
                    // The buffered view grew by exactly the pulled bytes.
                    assert(pre.wf());
                    assert(pre.fixed_buf@ == before_fixed);
                    assert(pre.write_pos == wp);
                    assert(self.read_pos == pre.read_pos);
                    assert(self.fixed_buf@.take(wp as int) == before_fixed.take(wp as int));
                    assert(self.fixed_buf@.subrange(wp as int, wp + pulled_len) == pulled@.take(
                        pulled_len as int,
                    ));
                    assert(pulled@.take(pulled_len as int) =~= pulled@);
                    assert forall|k: int| 0 <= k < wp implies self.fixed_buf@[k]
                        == before_fixed[k] by {
                        assert(self.fixed_buf@.take(wp as int)[k] == before_fixed.take(
                            wp as int,
                        )[k]);
                    }
                    assert forall|k: int| wp <= k < wp + pulled_len implies self.fixed_buf@[k]
                        == pulled@[k - wp] by {
                        assert(self.fixed_buf@.subrange(wp as int, wp + pulled_len)[k - wp]
                            == pulled@.take(pulled_len as int)[k - wp]);
                    }
                    match self.read_pos {
                        ReadPos::AtPosInFixedBuf(p) => {
                            assert(p <= wp);
                            assert(self.fixed_buf@.subrange(p as int, wp as int)
                                =~= before_fixed.subrange(p as int, wp as int));
                            assert(self.buffered() =~= pre.buffered() + pulled@);
                        }
                        ReadPos::AtPosInDynamicBuf(p) => {
                            assert(self.fixed_buf@.take(self.write_pos as int)
                                =~= before_fixed.take(wp as int) + pulled@);
                            assert(self.buffered() =~= pre.buffered() + pulled@);
                        }
                    }
                    assert(self.unread() =~= pre.unread());
                }
                achieved = achieved + pulled_len;
                if pulled_len < space {
                    // The source is exhausted for now.
                    if achieved < n {
                        proof {
                            assert(self.source_remaining() =~= Seq::<u8>::empty());
                            assert(self.buffered() =~= self.unread());
                        }
                        break ;
                    }
                }
            } else {
                // No space in the fixed buffer: move the unconsumed bytes to
                // the dynamic buffer and reset the fixed buffer for writing.
                self.spill_to_dynamic();
            }
        }
        let r = achieved >= n;
        proof {
            if r {
                assert(old(self).unread().len() >= old(self).buffered().len() + n);
            } else {
                assert(self.buffered() == self.unread());
                assert(self.unread().len() == old(self).unread().len());
            }
        }
        r
    }

    /// Moves the unconsumed bytes into the dynamic buffer and frees the whole
    /// fixed buffer for writing.
    fn spill_to_dynamic(&mut self)
        requires
            old(self).wf(),
            old(self).unread().len() <= max_buffered(),
        ensures
            final(self).wf(),
            final(self).unread() == old(self).unread(),
            final(self).buffered() == old(self).buffered(),
            final(self).write_pos_spec() == 0,
            final(self).fixed_len_spec() == old(self).fixed_len_spec(),
            final(self).source_within() == old(self).source_within(),
    {
        let mut moved: Vec<u8>;
        match self.read_pos {
            ReadPos::AtPosInFixedBuf(p) => {
                moved = buf::copy_range(self.fixed_buf.as_slice(), p, self.write_pos);
            }
            ReadPos::AtPosInDynamicBuf(p) => {
                moved = buf::copy_range(self.dynamic_buf.as_slice(), p, self.dynamic_buf.len());
                let mut tail = buf::copy_range(self.fixed_buf.as_slice(), 0, self.write_pos);
                moved.append(&mut tail);
            }
        }
        proof {
            assert(moved@ =~= old(self).buffered());
        }
        self.dynamic_buf = moved;
        self.read_pos = ReadPos::AtPosInDynamicBuf(0);
        self.write_pos = 0;
        proof {
            assert(self.dynamic_buf@.len() <= old(self).unread().len());
            assert(self.buffered() =~= self.dynamic_buf@);
            assert(self.unread() =~= old(self).unread());
        }
    }

    /// The write position, for the contracts of the helpers.
    pub closed spec fn write_pos_spec(&self) -> int {
        self.write_pos as int
    }

    /// The fixed buffer's size.
    pub closed spec fn fixed_len_spec(&self) -> int {
        self.fixed_buf@.len() as int
    }

    /// Consumes `len` bytes and returns them. Returns `None`, consuming
    /// nothing, when fewer than `len` bytes can be had yet; a later call can
    /// succeed once the source has grown.
    pub fn consume_data(&mut self, len: usize) -> (r: Option<Vec<u8>>)
        requires
            old(self).wf(),
            old(self).unread().len() <= max_buffered(),
        ensures
            final(self).wf(),
            match r {
                Some(b) => old(self).unread().len() >= len && b@ == old(self).unread().take(
                    len as int,
                ) && final(self).unread() == old(self).unread().skip(len as int),
                None => old(self).unread().len() < len && final(self).unread() == old(
                    self,
                ).unread(),
            },
            old(self).source_within() ==> final(self).source_within(),
    {
        let available = self.available_data_len();
        if available < len {
            let extra = len - available;
            if !self.read_n_more_bytes(extra) {
                return None;
            }
        }
        // At least `len` bytes are buffered now; hand them out and advance.
        let ghost mid_buffered = self.buffered();
        let ghost mid_remaining = self.source_remaining();
        proof {
            assert(mid_buffered.len() >= len);
            assert(mid_buffered + mid_remaining == old(self).unread());
        }
        let taken: Vec<u8>;
        match self.read_pos {
            ReadPos::AtPosInFixedBuf(p) => {
                taken = buf::copy_range(self.fixed_buf.as_slice(), p, p + len);
                self.read_pos = ReadPos::AtPosInFixedBuf(p + len);
            }
            ReadPos::AtPosInDynamicBuf(p) => {
                let remaining_dynamic = self.dynamic_buf.len() - p;
                if len < remaining_dynamic {
                    taken = buf::copy_range(self.dynamic_buf.as_slice(), p, p + len);
                    self.read_pos = ReadPos::AtPosInDynamicBuf(p + len);
                } else {
                    let mut head = buf::copy_range(
                        self.dynamic_buf.as_slice(),
                        p,
                        self.dynamic_buf.len(),
                    );
                    let mut tail = buf::copy_range(
                        self.fixed_buf.as_slice(),
                        0,
                        len - remaining_dynamic,
                    );
                    head.append(&mut tail);
                    taken = head;
                    self.read_pos = ReadPos::AtPosInFixedBuf(len - remaining_dynamic);
                }
            }
        }
        proof {
            assert(taken@ =~= mid_buffered.take(len as int));
            assert(self.buffered() =~= mid_buffered.skip(len as int));
            assert(taken@ =~= old(self).unread().take(len as int));
            assert(self.unread() =~= old(self).unread().skip(len as int));
        }
        Some(taken)
    }

    /// Skips `len` bytes, seeking the source when the skip goes beyond the
    /// buffered bytes. A skip past the end of the source leaves nothing to
    /// read until the source grows past the skipped range.
    pub fn skip_bytes(&mut self, len: usize)
        requires
            old(self).wf(),
        ensures
            final(self).wf(),
            len <= old(self).unread().len() ==> final(self).unread() == old(self).unread().skip(
                len as int,
            ),
            len > old(self).unread().len() ==> final(self).unread().len() == 0,
            old(self).source_within() && len <= old(self).unread().len()
                ==> final(self).source_within(),
    {
        let available = self.available_data_len();
        if available < len {
            let extra = len - available;
            self.source.advance(extra);
            self.read_pos = ReadPos::AtPosInFixedBuf(0);
            self.write_pos = 0;
            proof {
                assert(self.buffered() =~= Seq::<u8>::empty());
                if len <= old(self).unread().len() {
                    // The skip stayed inside the stream, so the source was
                    // within bounds and the seek lands exactly.
                    assert(old(self).source.within());
                    assert(self.unread() =~= old(self).unread().skip(len as int));
                } else {
                    assert(self.unread() =~= Seq::<u8>::empty());
                }
            }
            return ;
        }
        match self.read_pos {
            ReadPos::AtPosInFixedBuf(p) => {
                self.read_pos = ReadPos::AtPosInFixedBuf(p + len);
            }
            ReadPos::AtPosInDynamicBuf(p) => {
                let remaining_dynamic = self.dynamic_buf.len() - p;
                if len < remaining_dynamic {
                    self.read_pos = ReadPos::AtPosInDynamicBuf(p + len);
                } else {
                    self.read_pos = ReadPos::AtPosInFixedBuf(len - remaining_dynamic);
                }
            }
        }
        proof {
            assert(self.buffered() =~= old(self).buffered().skip(len as int));
            assert(self.unread() =~= old(self).unread().skip(len as int));
        }
    }
}

} // verus!
