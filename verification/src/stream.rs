use vstd::prelude::*;
use crate::error::InternalError;

verus! {

/// Big-endian value of a byte sequence.
pub open spec fn be_val(s: Seq<u8>) -> int
    decreases s.len(),
{
    if s.len() == 0 {
        0
    } else {
        be_val(s.drop_last()) * 256 + s.last()
    }
}

/// 256 to the power `n`: the number of byte sequences of length `n`.
pub open spec fn pow256(n: nat) -> int
    decreases n,
{
    if n == 0 {
        1
    } else {
        256 * pow256((n - 1) as nat)
    }
}

pub proof fn lemma_be_val_bound(s: Seq<u8>)
    ensures
        0 <= be_val(s) < pow256(s.len()),
    decreases s.len(),
{
    if s.len() == 0 {
    } else {
        lemma_be_val_bound(s.drop_last());
    }
}

/// A single byte read big-endian is the byte itself.
pub proof fn lemma_be_val_single(w: Seq<u8>, o: int)
    requires
        0 <= o < w.len(),
    ensures
        be_val(w.subrange(o, o + 1)) == w[o],
{
    reveal_with_fuel(be_val, 3);
    assert(w.subrange(o, o + 1).drop_last() =~= Seq::<u8>::empty());
    assert(w.subrange(o, o + 1).last() == w[o]);
}

pub proof fn lemma_pow256_pos(n: nat)
    ensures
        pow256(n) >= 1,
    decreases n,
{
    if n > 0 {
        lemma_pow256_pos((n - 1) as nat);
    }
}

pub proof fn lemma_pow256_mono(a: nat, b: nat)
    requires
        a <= b,
    ensures
        pow256(a) <= pow256(b),
    decreases b,
{
    if a < b && b > 0 {
        lemma_pow256_mono(a, (b - 1) as nat);
        lemma_pow256_pos((b - 1) as nat);
        assert(pow256(b) == 256 * pow256((b - 1) as nat));
    }
}

/// The mathematical state of a stream: the bytes of its window, the declared
/// parent-box content size if any, and the cursor.
pub ghost struct SModel {
    pub win: Seq<u8>,
    pub size: Option<int>,
    pub offset: int,
}

impl SModel {
    /// A stream freshly opened over a whole buffer.
    pub open spec fn fresh(data: Seq<u8>) -> Self {
        SModel { win: data, size: None, offset: 0 }
    }

    /// The same stream with the cursor moved forward by `k` bytes.
    pub open spec fn advance(self, k: int) -> Self {
        SModel { offset: self.offset + k, ..self }
    }

    /// The same stream with the cursor placed at `o`.
    pub open spec fn with_offset(self, o: int) -> Self {
        SModel { offset: o, ..self }
    }

    /// Advancing by `n` stays within the declared parent size, if one is known.
    pub open spec fn within_size(self, n: int) -> bool {
        match self.size {
            Some(s) => self.offset + n <= s,
            None => true,
        }
    }

    /// Exactly when `read` hands out `n` more bytes.
    pub open spec fn can_read(self, n: int) -> bool {
        n == 0 || {
            &&& self.offset + n <= usize::MAX
            &&& self.within_size(n)
            &&& self.offset + n <= self.win.len()
        }
    }

    /// The error `read` reports when it cannot hand out `n > 0` bytes.
    pub open spec fn read_err(self, n: int) -> InternalError {
        if self.offset + n > usize::MAX {
            InternalError::Aborted
        } else if !self.within_size(n) {
            InternalError::Invalid
        } else {
            InternalError::Truncated
        }
    }

    /// The `n` bytes right after the cursor.
    pub open spec fn bytes_at(self, n: int) -> Seq<u8> {
        self.win.subrange(self.offset, self.offset + n)
    }

    /// How many bytes `substream` transfers for the given request.
    pub open spec fn transferred_i(self, num_bytes: Option<int>) -> int {
        match num_bytes {
            Some(n) => n,
            None => if self.offset <= self.win.len() {
                self.win.len() - self.offset
            } else {
                0
            },
        }
    }

    /// How many bytes of the window a substream carved here would see.
    pub open spec fn sub_win_len_i(self, num_bytes: Option<int>) -> int {
        let avail = if self.offset <= self.win.len() {
            self.win.len() - self.offset
        } else {
            0
        };
        if avail < self.transferred_i(num_bytes) {
            avail
        } else {
            self.transferred_i(num_bytes)
        }
    }

    /// The model of the substream carved here.
    pub open spec fn sub_i(self, num_bytes: Option<int>) -> Self {
        SModel {
            win: if 0 <= self.offset <= self.win.len() {
                self.win.subrange(self.offset, self.offset + self.sub_win_len_i(num_bytes))
            } else {
                Seq::empty()
            },
            size: num_bytes,
            offset: 0,
        }
    }

    /// The usize-typed request, as the mathematical one.
    pub open spec fn opt_int(num_bytes: Option<usize>) -> Option<int> {
        match num_bytes {
            Some(n) => Some(n as int),
            None => None,
        }
    }

    /// How many bytes `substream` transfers for the given request.
    pub open spec fn transferred(self, num_bytes: Option<usize>) -> int {
        self.transferred_i(Self::opt_int(num_bytes))
    }

    /// How many bytes of the window a substream carved here would see.
    pub open spec fn sub_win_len(self, num_bytes: Option<usize>) -> int {
        self.sub_win_len_i(Self::opt_int(num_bytes))
    }

    /// The model of the substream carved here.
    pub open spec fn sub(self, num_bytes: Option<usize>) -> Self {
        self.sub_i(Self::opt_int(num_bytes))
    }

    /// How far a box-content walk here still has to go: once the cursor is
    /// more than eight bytes past the window, the next header read fails.
    pub open spec fn progress_left(self) -> int {
        if self.offset <= self.win.len() + 8 {
            self.win.len() + 8 - self.offset
        } else {
            0
        }
    }
}

/// A cursor over an optional byte window carved out of one original buffer,
/// with an optional declared parent-box size.
pub struct Stream<'a> {
    /// The available bytes, if any.
    pub data: Option<&'a [u8]>,
    /// The known content size of the parent box, if any.
    pub size: Option<usize>,
    /// How many bytes were read or skipped.
    pub offset: usize,
    /// The whole buffer that the public entry point was given.
    pub orig: Ghost<Seq<u8>>,
    /// Where this stream's window starts inside that buffer.
    pub pos: Ghost<int>,
}

impl<'a> Stream<'a> {
    /// The bytes this stream can actually hand out.
    pub open spec fn win(self) -> Seq<u8> {
        match self.data {
            Some(d) => d@,
            None => Seq::empty(),
        }
    }

    /// The mathematical state of this stream.
    pub open spec fn model(self) -> SModel {
        SModel {
            win: self.win(),
            size: match self.size {
                Some(s) => Some(s as int),
                None => None,
            },
            offset: self.offset as int,
        }
    }

    /// The window is a slice of the original buffer, starting at `pos`.
    pub open spec fn wf(self) -> bool {
        &&& 0 <= self.pos@
        &&& self.pos@ + self.win().len() <= self.orig@.len()
        &&& self.win() == self.orig@.subrange(self.pos@, self.pos@ + self.win().len())
    }

    /// Everything but the cursor is kept by every operation.
    pub open spec fn same_window(self, o: Self) -> bool {
        &&& self.data == o.data
        &&& self.size == o.size
        &&& self.orig == o.orig
        &&& self.pos == o.pos
    }

    /// Advances the cursor without looking at the bytes. Only the declared
    /// parent size is enforced, not the available data.
    pub fn skip(&mut self, num_bytes: usize) -> (r: Result<(), InternalError>)
        ensures
            final(self).same_window(*old(self)),
            r is Ok <==> (old(self).model().offset + num_bytes <= usize::MAX && old(
                self).model().within_size(num_bytes as int)),
            r is Ok ==> final(self).model() == old(self).model().advance(num_bytes as int),
            r matches Err(e) ==> e == (if old(self).model().offset + num_bytes > usize::MAX {
                InternalError::Aborted
            } else {
                InternalError::Invalid
            }),
            r matches Err(e) ==> final(self).offset == (if e == InternalError::Aborted {
                old(self).offset as int
            } else {
                old(self).offset + num_bytes
            }),
    {
        if num_bytes > usize::MAX - self.offset {
            return Err(InternalError::Aborted);
        }
        self.offset = self.offset + num_bytes;
        if let Some(size) = self.size {
            if self.offset > size {
                return Err(InternalError::Invalid);
            }
        }
        Ok(())
    }

    /// Hands out the next `num_bytes` bytes of the window.
    #[verifier::loop_isolation(false)]
    pub fn read(&mut self, num_bytes: usize) -> (r: Result<Vec<u8>, InternalError>)
        ensures
            final(self).same_window(*old(self)),
            r is Ok <==> old(self).model().can_read(num_bytes as int),
            r matches Ok(v) ==> v@.len() == num_bytes && (num_bytes > 0 ==> v@ == old(
                self).model().bytes_at(num_bytes as int)) && final(self).model() == old(
                self).model().advance(num_bytes as int),
            r matches Err(e) ==> e == old(self).model().read_err(num_bytes as int),
            r matches Err(e) ==> final(self).offset == (if e == InternalError::Aborted {
                old(self).offset as int
            } else {
                old(self).offset + num_bytes
            }),
    {
        if num_bytes == 0 {
            return Ok(Vec::new());
        }
        let offset = self.offset;
        match self.skip(num_bytes) {
            Ok(()) => {},
            Err(e) => {
                return Err(e);
            },
        }
        match self.data {
            Some(d) => {
                if self.offset <= d.len() {
                    let mut v: Vec<u8> = Vec::new();
                    let mut i: usize = offset;
                    while i < offset + num_bytes
                        invariant
                            offset <= i <= offset + num_bytes,
                            v@ == d@.subrange(offset as int, i as int),
                        decreases offset + num_bytes - i,
                    {
                        v.push(*vstd::slice::slice_index_get(d, i));
                        assert(v@ =~= d@.subrange(offset as int, i + 1));
                        i = i + 1;
                    }
                    Ok(v)
                } else {
                    Err(InternalError::Truncated)
                }
            },
            None => Err(InternalError::Truncated),
        }
    }

    /// Folds up to eight bytes just read into their big-endian value.
    #[verifier::loop_isolation(false)]
    fn be_fold(v: &Vec<u8>) -> (r: u64)
        requires
            v@.len() <= 8,
        ensures
            r as int == be_val(v@),
    {
        let mut x: u64 = 0;
        let mut i: usize = 0;
        while i < v.len()
            invariant
                i <= v@.len(),
                x as int == be_val(v@.subrange(0, i as int)),
            decreases v@.len() - i,
        {
            proof {
                lemma_be_val_bound(v@.subrange(0, i as int));
                lemma_pow256_mono(i as nat, 7);
                reveal_with_fuel(pow256, 9);
                assert(v@.subrange(0, i + 1).drop_last() =~= v@.subrange(0, i as int));
                assert(v@.subrange(0, i + 1).last() == v@[i as int]);
            }
            x = x * 256 + (v[i] as u64);
            i = i + 1;
        }
        proof {
            assert(v@.subrange(0, v@.len() as int) =~= v@);
        }
        x
    }

    /// Reads `num_bytes <= 8` bytes as one big-endian unsigned value.
    fn read_be(&mut self, num_bytes: usize) -> (r: Result<u64, InternalError>)
        requires
            1 <= num_bytes <= 8,
        ensures
            final(self).same_window(*old(self)),
            r is Ok <==> old(self).model().can_read(num_bytes as int),
            r matches Ok(v) ==> final(self).model() == old(self).model().advance(num_bytes as int)
                && v as int == be_val(old(self).model().bytes_at(num_bytes as int)),
            r matches Err(e) ==> e == old(self).model().read_err(num_bytes as int),
    {
        let v = match self.read(num_bytes) {
            Ok(v) => v,
            Err(e) => {
                return Err(e);
            },
        };
        Ok(Self::be_fold(&v))
    }

    pub fn read_u8(&mut self) -> (r: Result<u8, InternalError>)
        ensures
            final(self).same_window(*old(self)),
            r is Ok <==> old(self).model().can_read(1),
            r matches Ok(v) ==> final(self).model() == old(self).model().advance(1) && v as int
                == be_val(old(self).model().bytes_at(1)),
            r matches Err(e) ==> e == old(self).model().read_err(1),
    {
        let ghost s0 = *self;
        let v = match self.read_be(1) {
            Ok(v) => v,
            Err(e) => {
                return Err(e);
            },
        };
        proof {
            lemma_be_val_bound(s0.model().bytes_at(1));
            reveal_with_fuel(pow256, 2);
        }
        Ok(v as u8)
    }

    pub fn read_u16(&mut self) -> (r: Result<u16, InternalError>)
        ensures
            final(self).same_window(*old(self)),
            r is Ok <==> old(self).model().can_read(2),
            r matches Ok(v) ==> final(self).model() == old(self).model().advance(2) && v as int
                == be_val(old(self).model().bytes_at(2)),
            r matches Err(e) ==> e == old(self).model().read_err(2),
    {
        let ghost s0 = *self;
        let v = match self.read_be(2) {
            Ok(v) => v,
            Err(e) => {
                return Err(e);
            },
        };
        proof {
            lemma_be_val_bound(s0.model().bytes_at(2));
            reveal_with_fuel(pow256, 3);
        }
        Ok(v as u16)
    }

    /// Reads a big-endian 24-bit integer into a 32-bit result.
    pub fn read_u24(&mut self) -> (r: Result<u32, InternalError>)
        ensures
            final(self).same_window(*old(self)),
            r is Ok <==> old(self).model().can_read(3),
            r matches Ok(v) ==> final(self).model() == old(self).model().advance(3) && v as int
                == be_val(old(self).model().bytes_at(3)),
            r matches Err(e) ==> e == old(self).model().read_err(3),
    {
        let ghost s0 = *self;
        let v = match self.read_be(3) {
            Ok(v) => v,
            Err(e) => {
                return Err(e);
            },
        };
        proof {
            lemma_be_val_bound(s0.model().bytes_at(3));
            reveal_with_fuel(pow256, 4);
        }
        Ok(v as u32)
    }

    pub fn read_u32(&mut self) -> (r: Result<u32, InternalError>)
        ensures
            final(self).same_window(*old(self)),
            r is Ok <==> old(self).model().can_read(4),
            r matches Ok(v) ==> final(self).model() == old(self).model().advance(4) && v as int
                == be_val(old(self).model().bytes_at(4)),
            r matches Err(e) ==> e == old(self).model().read_err(4),
    {
        let ghost s0 = *self;
        let v = match self.read_be(4) {
            Ok(v) => v,
            Err(e) => {
                return Err(e);
            },
        };
        proof {
            lemma_be_val_bound(s0.model().bytes_at(4));
            reveal_with_fuel(pow256, 5);
        }
        Ok(v as u32)
    }

    pub fn read_u64(&mut self) -> (r: Result<u64, InternalError>)
        ensures
            final(self).same_window(*old(self)),
            r is Ok <==> old(self).model().can_read(8),
            r matches Ok(v) ==> final(self).model() == old(self).model().advance(8) && v as int
                == be_val(old(self).model().bytes_at(8)),
            r matches Err(e) ==> e == old(self).model().read_err(8),
    {
        self.read_be(8)
    }

    /// Reads a big-endian unsigned value of 1, 2 or 4 bytes; any other width
    /// is refused.
    pub fn read_uint(&mut self, num_bytes: u8) -> (r: Result<u32, InternalError>)
        ensures
            final(self).same_window(*old(self)),
            (num_bytes == 1 || num_bytes == 2 || num_bytes == 4) ==> {
                &&& r is Ok <==> old(self).model().can_read(num_bytes as int)
                &&& (r matches Ok(v) ==> final(self).model() == old(self).model().advance(
                    num_bytes as int,
                ) && v as int == be_val(old(self).model().bytes_at(num_bytes as int)))
                &&& (r matches Err(e) ==> e == old(self).model().read_err(num_bytes as int))
            },
            !(num_bytes == 1 || num_bytes == 2 || num_bytes == 4) ==> r == Result::<
                u32,
                InternalError,
            >::Err(InternalError::Aborted) && *final(self) == *old(self),
    {
        match num_bytes {
            1 => match self.read_u8() {
                Ok(v) => Ok(v as u32),
                Err(e) => Err(e),
            },
            2 => match self.read_u16() {
                Ok(v) => Ok(v as u32),
                Err(e) => Err(e),
            },
            4 => self.read_u32(),
            _ => Err(InternalError::Aborted),
        }
    }

    /// Reads a four-character code, packed big-endian into a `u32`.
    pub fn read_4cc(&mut self) -> (r: Result<u32, InternalError>)
        ensures
            final(self).same_window(*old(self)),
            r is Ok <==> old(self).model().can_read(4),
            r matches Ok(v) ==> final(self).model() == old(self).model().advance(4) && v as int
                == be_val(old(self).model().bytes_at(4)),
            r matches Err(e) ==> e == old(self).model().read_err(4),
    {
        self.read_u32()
    }

    /// Cumulative bytes consumed or skipped.
    pub fn num_read_bytes(&self) -> (r: usize)
        ensures
            r == self.offset,
    {
        self.offset
    }

    /// False only once a known parent size has been entirely consumed.
    pub fn has_more_bytes(&self) -> (r: bool)
        ensures
            r == (match self.model().size {
                Some(s) => self.model().offset < s,
                None => true,
            }),
    {
        match self.size {
            Some(size) => self.offset < size,
            None => true,
        }
    }

    /// Carves out a child window of `num_bytes` bytes, or of all remaining
    /// bytes when no length is given, and advances this cursor past it.
    pub fn substream(&mut self, num_bytes: Option<usize>) -> (r: Result<
        Stream<'a>,
        InternalError,
    >)
        requires
            old(self).wf(),
        ensures
            final(self).same_window(*old(self)),
            r is Ok <==> (old(self).model().offset + old(self).model().transferred(num_bytes)
                <= usize::MAX && old(self).model().within_size(
                old(self).model().transferred(num_bytes),
            )),
            r matches Err(e) ==> e == (if old(self).model().offset + old(
                self).model().transferred(num_bytes) > usize::MAX {
                InternalError::Aborted
            } else {
                InternalError::Invalid
            }),
            r matches Ok(sub) ==> {
                &&& final(self).model() == old(self).model().advance(
                    old(self).model().transferred(num_bytes),
                )
                &&& sub.model() == old(self).model().sub(num_bytes)
                &&& sub.orig == old(self).orig
                &&& sub.wf()
                &&& (sub.win().len() > 0 ==> sub.pos@ == old(self).pos@ + old(self).offset)
            },
    {
        let offset = self.offset;
        let num_transferred_bytes: usize = match num_bytes {
            Some(n) => n,
            None => match self.data {
                Some(d) => if offset <= d.len() {
                    d.len() - offset
                } else {
                    0
                },
                None => 0,
            },
        };
        match self.skip(num_transferred_bytes) {
            Ok(()) => {},
            Err(e) => {
                return Err(e);
            },
        }
        let child_data: Option<&'a [u8]> = match self.data {
            Some(d) => {
                let available_size = if offset <= d.len() {
                    d.len() - offset
                } else {
                    0
                };
                let size = if available_size < num_transferred_bytes {
                    available_size
                } else {
                    num_transferred_bytes
                };
                if size != 0 {
                    Some(vstd::slice::slice_subrange(d, offset, offset + size))
                } else {
                    None
                }
            },
            None => None,
        };
        let ghost child_pos = if self.pos@ + offset as int <= self.orig@.len() {
            self.pos@ + offset as int
        } else {
            self.orig@.len() as int
        };
        let sub = Stream {
            data: child_data,
            size: num_bytes,
            offset: 0,
            orig: Ghost(self.orig@),
            pos: Ghost(child_pos),
        };
        proof {
            assert(sub.win() =~= old(self).model().sub(num_bytes).win);
            assert(sub.win() =~= sub.orig@.subrange(sub.pos@, sub.pos@ + sub.win().len()));
        }
        Ok(sub)
    }
}

} // verus!
