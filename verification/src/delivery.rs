//! Delivery of bytes to a descriptor that may take them in pieces.

use vstd::prelude::*;
use vstd::slice::{slice_subrange, slice_to_vec};

verus! {

use vstd::utf8::{decode_utf8, encode_scalar, encode_utf8, encode_utf8_decode_utf8};

/// What MATLAB is given to read for a piece of code: its UTF-8 bytes and a
/// line feed.
pub open spec fn input_line(code: Seq<char>) -> Seq<u8> {
    encode_utf8(code).push(0x0a)
}

/// Bytes of which a part has been written and the rest is still to be written.
pub struct PendingWrite {
    bytes: Vec<u8>,
    done: usize,
}

impl PendingWrite {
    #[verifier::type_invariant]
    closed spec fn wf(self) -> bool {
        self.done <= self.bytes.len()
    }

    /// The bytes that have been taken so far.
    pub closed spec fn written(self) -> Seq<u8> {
        self.bytes@.take(self.done as int)
    }

    /// The bytes that are still to be written.
    pub closed spec fn remaining(self) -> Seq<u8> {
        self.bytes@.skip(self.done as int)
    }

    /// Starts the delivery of `bytes`.
    pub fn new(bytes: Vec<u8>) -> (res: Self)
        ensures
            res.written() == Seq::<u8>::empty(),
            res.remaining() == bytes@,
    {
        PendingWrite { bytes, done: 0 }
    }

    /// Starts the delivery of a piece of code, as a line of interactive input.
    pub fn of_code(code: &str) -> (res: Self)
        ensures
            res.written() == Seq::<u8>::empty(),
            res.remaining() == input_line(code@),
            res.remaining() == encode_utf8(code@.push('\n')),
    {
        proof {
            line_feed_is_one_byte(code@);
        }
        let mut bytes = slice_to_vec(code.as_bytes());
        bytes.push(0x0a);
        Self::new(bytes)
    }

    /// The bytes to hand to the next write, or `None` when all are written.
    pub fn chunk(&self) -> (res: Option<&[u8]>)
        ensures
            res is None <==> self.remaining().len() == 0,
            res matches Some(chunk) ==> chunk@ == self.remaining(),
    {
        proof {
            use_type_invariant(self);
        }
        if self.done == self.bytes.len() {
            None
        } else {
            Some(slice_subrange(self.bytes.as_slice(), self.done, self.bytes.len()))
        }
    }

    /// Records that a write took the first `n` of the remaining bytes.
    pub fn accept(&mut self, n: usize)
        requires
            n <= old(self).remaining().len(),
        ensures
            final(self).written() == old(self).written() + old(self).remaining().take(n as int),
            final(self).remaining() == old(self).remaining().skip(n as int),
            final(self).written() + final(self).remaining() == old(self).written() + old(
                self,
            ).remaining(),
    {
        proof {
            use_type_invariant(&*self);
        }
        self.done = self.done + n;
    }
}

/// Reads the return value of a `write` call: the number of bytes that were
/// taken, or `None` where the call failed.
pub fn write_count(n: isize) -> (res: Option<usize>)
    ensures
        n < 0 ==> res is None,
        n >= 0 ==> res == Some(n as usize),
{
    if n < 0 {
        None
    } else {
        Some(n as usize)
    }
}

/// Whether `counts` can be what successive writes of `bytes` report.
pub open spec fn plausible(bytes: Seq<u8>, counts: Seq<nat>) -> bool
    decreases counts.len(),
{
    counts.len() == 0 || (counts[0] <= bytes.len() && plausible(
        bytes.skip(counts[0] as int),
        counts.drop_first(),
    ))
}

/// What has been written of `bytes` once successive writes have taken `counts`.
pub open spec fn taken(bytes: Seq<u8>, counts: Seq<nat>) -> Seq<u8>
    decreases counts.len(),
{
    if counts.len() == 0 {
        Seq::empty()
    } else {
        bytes.take(counts[0] as int) + taken(bytes.skip(counts[0] as int), counts.drop_first())
    }
}

/// What is left of `bytes` once successive writes have taken `counts`.
pub open spec fn left_over(bytes: Seq<u8>, counts: Seq<nat>) -> Seq<u8>
    decreases counts.len(),
{
    if counts.len() == 0 {
        bytes
    } else {
        left_over(bytes.skip(counts[0] as int), counts.drop_first())
    }
}

/// However the writes cut the bytes into pieces, what was written and what is
/// left make up the bytes: nothing is lost, repeated or reordered.
pub proof fn partial_writes_lose_nothing(bytes: Seq<u8>, counts: Seq<nat>)
    requires
        plausible(bytes, counts),
    ensures
        taken(bytes, counts) + left_over(bytes, counts) == bytes,
    decreases counts.len(),
{
    if counts.len() == 0 {
        assert(Seq::<u8>::empty() + bytes == bytes);
    } else {
        let rest = bytes.skip(counts[0] as int);
        partial_writes_lose_nothing(rest, counts.drop_first());
        assert(bytes == bytes.take(counts[0] as int) + rest);
        assert(taken(bytes, counts) + left_over(bytes, counts) == bytes.take(counts[0] as int) + (
        taken(rest, counts.drop_first()) + left_over(rest, counts.drop_first())));
    }
}

/// When a delivery of code is over, MATLAB has been given exactly the code's
/// characters and a line feed, however the writes cut the bytes into pieces.
pub proof fn delivered_code_is_whole(code: Seq<char>, counts: Seq<nat>)
    requires
        plausible(input_line(code), counts),
        left_over(input_line(code), counts).len() == 0,
    ensures
        taken(input_line(code), counts) == input_line(code),
        decode_utf8(taken(input_line(code), counts)) == code.push('\n'),
{
    partial_writes_lose_nothing(input_line(code), counts);
    assert(taken(input_line(code), counts) + left_over(input_line(code), counts) == taken(
        input_line(code),
        counts,
    ));
    line_feed_is_one_byte(code);
    encode_utf8_decode_utf8(code.push('\n'));
}

/// What MATLAB is given for a piece of code is the encoding of the code with one
/// line feed at its end.
pub proof fn line_feed_is_one_byte(code: Seq<char>)
    ensures
        encode_utf8(code.push('\n')) == input_line(code),
        encode_utf8(code) == input_line(code).drop_last(),
        input_line(code).last() == 0x0a,
    decreases code.len(),
{
    let line = code.push('\n');
    if code.len() == 0 {
        assert('\n' as u32 == 0x0au32);
        assert((0x0au32 & 0x7f) as u8 == 0x0au8) by (bit_vector);
        assert(encode_scalar(0x0a) == seq![0x0au8]);
        assert(line.drop_first() == code);
        assert(encode_utf8(code) == Seq::<u8>::empty());
        assert(line[0] == '\n');
        assert(encode_utf8(line) == seq![0x0au8] + Seq::<u8>::empty());
        assert(seq![0x0au8] + Seq::<u8>::empty() == Seq::<u8>::empty().push(0x0a));
    } else {
        line_feed_is_one_byte(code.drop_first());
        assert(line.drop_first() == code.drop_first().push('\n'));
        assert(line[0] == code[0]);
        assert(encode_utf8(line) == encode_scalar(code[0] as u32) + encode_utf8(
            code.drop_first(),
        ).push(0x0a));
    }
}

} // verus!
