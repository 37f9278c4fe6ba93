//! Line-buffered serial echo.
//!
//! The service collects the bytes of one input line in a bounded buffer of
//! capacity `LINE_CAPACITY`. A carriage return completes the line, which is
//! then emitted reversed and terminated by CRLF; a byte that arrives when
//! the buffer is full is an overflow, answered by a fixed diagnostic line
//! instead of an echo. The buffer is cleared at the start of every cycle,
//! so an overflowed line never corrupts the next one.

use vstd::prelude::*;

verus! {

/// Carriage return: terminates an input line.
pub const CR: u8 = 13;

/// Line feed: follows the carriage return in every output line.
pub const LF: u8 = 10;

/// Capacity of the line buffer, in bytes.
pub const LINE_CAPACITY: usize = 32;

#[verifier::external_type_specification]
#[verifier::external_body]
#[verifier::reject_recursive_types(T)]
pub struct ExHeaplessVec<T, const N: usize>(heapless::Vec<T, N>);

/// The bytes currently held by the bounded buffer, oldest first.
pub uninterp spec fn buffer_bytes(v: heapless::Vec<u8, 32>) -> Seq<u8>;

/// Relies on heapless::Vec::new: a new vector is empty.
#[verifier::external_body]
fn buffer_new() -> (v: heapless::Vec<u8, 32>)
    ensures
        buffer_bytes(v) == Seq::<u8>::empty(),
{
    heapless::Vec::new()
}

/// Relies on heapless::Vec::clear: removes all values.
#[verifier::external_body]
fn buffer_clear(v: &mut heapless::Vec<u8, 32>)
    ensures
        buffer_bytes(*final(v)) == Seq::<u8>::empty(),
{
    v.clear()
}

/// Relies on heapless::Vec::push: appends the item while the vector holds
/// fewer than its capacity of 32 items, and returns the item back, leaving
/// the contents unchanged, when it is full.
#[verifier::external_body]
fn buffer_push(v: &mut heapless::Vec<u8, 32>, byte: u8) -> (r: Result<(), u8>)
    ensures
        r == (if buffer_bytes(*old(v)).len() < 32 {
            Ok::<(), u8>(())
        } else {
            Err::<(), u8>(byte)
        }),
        buffer_bytes(*final(v)) == (if buffer_bytes(*old(v)).len() < 32 {
            buffer_bytes(*old(v)).push(byte)
        } else {
            buffer_bytes(*old(v))
        }),
{
    v.push(byte)
}

/// Relies on heapless::Vec's deref to a slice and on slice::reverse:
/// reverses the order of the stored bytes in place.
#[verifier::external_body]
fn buffer_reverse(v: &mut heapless::Vec<u8, 32>)
    ensures
        buffer_bytes(*final(v)) == buffer_bytes(*old(v)).reverse(),
{
    v.reverse()
}

/// Relies on heapless::Vec's deref to a slice and on slice::len.
#[verifier::external_body]
fn buffer_len(v: &heapless::Vec<u8, 32>) -> (n: usize)
    ensures
        n == buffer_bytes(*v).len(),
{
    v.len()
}

/// Relies on heapless::Vec's deref to a slice and on slice indexing.
#[verifier::external_body]
fn buffer_get(v: &heapless::Vec<u8, 32>, i: usize) -> (b: u8)
    requires
        i < buffer_bytes(*v).len(),
    ensures
        b == buffer_bytes(*v)[i as int],
{
    v[i]
}

/// What one incoming byte did to the current line.
#[derive(Clone, Copy, Debug, PartialEq, Eq, Structural)]
pub enum ByteOutcome {
    /// The byte was appended to the buffer; the line goes on.
    Stored,
    /// The byte was a carriage return; the line is complete.
    LineComplete,
    /// The buffer was already full; the line is discarded.
    Overflow,
}

/// The line echo service: a bounded buffer holding the bytes of the line
/// being read.
pub struct LineEcho {
    buffer: heapless::Vec<u8, 32>,
}

impl View for LineEcho {
    type V = Seq<u8>;

    closed spec fn view(&self) -> Seq<u8> {
        buffer_bytes(self.buffer)
    }
}

impl LineEcho {
    /// The buffer never holds more than `LINE_CAPACITY` bytes.
    pub open spec fn wf(&self) -> bool {
        self@.len() <= LINE_CAPACITY
    }

    /// A service with an empty buffer.
    pub fn new() -> (s: LineEcho)
        ensures
            s.wf(),
            s@ == Seq::<u8>::empty(),
    {
        LineEcho { buffer: buffer_new() }
    }

    /// Begins a new cycle: the buffer is emptied, whatever the previous
    /// line left in it.
    pub fn start_line(&mut self)
        ensures
            final(self).wf(),
            final(self)@ == Seq::<u8>::empty(),
    {
        buffer_clear(&mut self.buffer);
    }

    /// Feeds one incoming byte to the current line. A carriage return
    /// completes the line and is not stored; any other byte is appended
    /// while the buffer has room, and overflows the line once it is full.
    pub fn accept_byte(&mut self, byte: u8) -> (outcome: ByteOutcome)
        requires
            old(self).wf(),
        ensures
            final(self).wf(),
            byte == CR ==> outcome == ByteOutcome::LineComplete && final(self)@ == old(self)@,
            byte != CR && old(self)@.len() < LINE_CAPACITY ==> outcome == ByteOutcome::Stored
                && final(self)@ == old(self)@.push(byte),
            byte != CR && old(self)@.len() == LINE_CAPACITY ==> outcome == ByteOutcome::Overflow
                && final(self)@ == old(self)@,
    {
        if byte == CR {
            ByteOutcome::LineComplete
        } else {
            match buffer_push(&mut self.buffer, byte) {
                Ok(_) => ByteOutcome::Stored,
                Err(_) => ByteOutcome::Overflow,
            }
        }
    }

    /// Ends a completed line: reverses the buffered bytes in place and
    /// returns them followed by CRLF, ready to be written back.
    pub fn finish_line(&mut self) -> (out: Vec<u8>)
        requires
            old(self).wf(),
        ensures
            final(self).wf(),
            final(self)@ == old(self)@.reverse(),
            out@ == old(self)@.reverse().push(CR).push(LF),
    {
        buffer_reverse(&mut self.buffer);
        let n = buffer_len(&self.buffer);
        let mut out: Vec<u8> = Vec::new();
        let mut i: usize = 0;
        while i < n
            invariant
                i <= n,
                n == buffer_bytes(self.buffer).len(),
                out@ == buffer_bytes(self.buffer).subrange(0, i as int),
            decreases n - i,
        {
            let b = buffer_get(&self.buffer, i);
            out.push(b);
            i = i + 1;
        }
        proof {
            assert(out@ =~= buffer_bytes(self.buffer));
        }
        out.push(CR);
        out.push(LF);
        out
    }
}

/// The fixed diagnostic line written when an input line overflows the
/// buffer.
pub open spec fn overflow_message() -> Seq<u8> {
    seq![
        69u8, 114u8, 114u8, 111u8, 114u8, 58u8, 32u8, 105u8, 110u8, 112u8, 117u8, 116u8, 32u8,
        98u8, 117u8, 102u8, 102u8, 101u8, 114u8, 32u8, 105u8, 115u8, 32u8, 102u8, 117u8, 108u8,
        108u8, 33u8, CR, LF,
    ]
}

/// The overflow diagnostic as bytes, ready to be written back.
pub fn overflow_message_bytes() -> (m: Vec<u8>)
    ensures
        m@ == overflow_message(),
{
    let mut m: Vec<u8> = Vec::new();
    m.push(69);
    m.push(114);
    m.push(114);
    m.push(111);
    m.push(114);
    m.push(58);
    m.push(32);
    m.push(105);
    m.push(110);
    m.push(112);
    m.push(117);
    m.push(116);
    m.push(32);
    m.push(98);
    m.push(117);
    m.push(102);
    m.push(102);
    m.push(101);
    m.push(114);
    m.push(32);
    m.push(105);
    m.push(115);
    m.push(32);
    m.push(102);
    m.push(117);
    m.push(108);
    m.push(108);
    m.push(33);
    m.push(CR);
    m.push(LF);
    proof {
        assert(m@ =~= overflow_message());
    }
    m
}

/// Reversal is an involution: reversing an already-reversed byte sequence
/// returns the original sequence.
pub proof fn lemma_reverse_involution(s: Seq<u8>)
    ensures
        s.reverse().reverse() == s,
{
    assert(s.reverse().reverse() =~= s);
}

} // verus!
