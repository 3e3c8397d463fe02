//! Resumable partial transfers. A transfer owns a fixed-width byte buffer
//! and a progress cursor; each attempt against the stream moves some bytes
//! and the cursor only ever advances. Progress survives suspension because
//! the transfer owns both buffer and cursor.

use vstd::prelude::*;

verus! {

use vstd::slice::{slice_subrange, slice_to_vec};

/// A resumable read of a fixed number of bytes: the buffer fills from the
/// stream across any number of attempts and is complete exactly when every
/// byte has arrived.
pub struct ReadTransfer {
    /// How many bytes the whole transfer moves.
    pub width: usize,
    /// The bytes delivered so far, in arrival order.
    pub buf: Vec<u8>,
}

impl ReadTransfer {
    /// The number of bytes the whole transfer moves.
    pub open spec fn width_spec(self) -> nat {
        self.width as nat
    }

    /// The bytes delivered so far, in order.
    pub open spec fn filled(self) -> Seq<u8> {
        self.buf@
    }

    /// Internal consistency: a width of 1 to 8 bytes, and progress that
    /// never exceeds it.
    pub open spec fn wf(self) -> bool {
        &&& 1 <= self.width <= 8
        &&& self.buf@.len() <= self.width
    }

    /// Every requested byte has arrived.
    pub open spec fn is_complete_spec(self) -> bool {
        self.buf@.len() == self.width
    }

    pub fn new(width: usize) -> (t: Self)
        requires
            1 <= width <= 8,
        ensures
            t.wf(),
            t.width_spec() == width,
            t.filled() == Seq::<u8>::empty(),
    {
        let t = ReadTransfer { width, buf: Vec::new() };
        proof {
            assert(t.filled() =~= Seq::<u8>::empty());
        }
        t
    }

    /// How many bytes are still owed.
    pub fn remaining(&self) -> (r: usize)
        requires
            self.wf(),
        ensures
            r == self.width_spec() - self.filled().len(),
    {
        self.width - self.buf.len()
    }

    pub fn is_complete(&self) -> (b: bool)
        requires
            self.wf(),
        ensures
            b == self.is_complete_spec(),
    {
        self.buf.len() == self.width
    }

    /// Records bytes the stream delivered. Progress is kept exactly: the
    /// delivered bytes are appended after everything already received, and
    /// nothing already received changes.
    pub fn deliver(&mut self, bytes: &[u8])
        requires
            old(self).wf(),
            bytes@.len() <= old(self).width_spec() - old(self).filled().len(),
        ensures
            final(self).wf(),
            final(self).width_spec() == old(self).width_spec(),
            final(self).filled() == old(self).filled() + bytes@,
    {
        self.buf.extend_from_slice(bytes);
    }

    /// The filled buffer of a complete transfer.
    pub fn into_bytes(self) -> (b: Vec<u8>)
        requires
            self.wf(),
            self.is_complete_spec(),
        ensures
            b@ == self.filled(),
            b@.len() == self.width_spec(),
    {
        self.buf
    }
}

/// A resumable write of a fixed buffer: the bytes before the cursor have
/// been accepted by the stream, the bytes after it are still owed. The
/// buffer is fully populated at construction and never changes, so the
/// stream sees exactly these bytes, in order, however often the transfer
/// suspends.
pub struct WriteTransfer {
    /// The full run of bytes this transfer moves onto the stream.
    pub buf: Vec<u8>,
    /// How many of them the stream has accepted so far.
    pub cursor: usize,
}

impl WriteTransfer {
    /// Every byte this transfer moves, in wire order.
    pub open spec fn wire(self) -> Seq<u8> {
        self.buf@
    }

    /// The bytes the stream has accepted so far.
    pub open spec fn emitted(self) -> Seq<u8> {
        self.buf@.take(self.cursor as int)
    }

    /// The bytes still owed to the stream.
    pub open spec fn pending_spec(self) -> Seq<u8> {
        self.buf@.skip(self.cursor as int)
    }

    /// Internal consistency: a width of 1 to 8 bytes, and a cursor that
    /// never exceeds it.
    pub open spec fn wf(self) -> bool {
        &&& 1 <= self.buf@.len() <= 8
        &&& self.cursor <= self.buf@.len()
    }

    /// Every byte has been accepted by the stream.
    pub open spec fn is_complete_spec(self) -> bool {
        self.cursor == self.buf@.len()
    }

    pub fn new(buf: Vec<u8>) -> (t: Self)
        requires
            1 <= buf@.len() <= 8,
        ensures
            t.wf(),
            t.wire() == buf@,
            t.emitted() == Seq::<u8>::empty(),
            t.pending_spec() == buf@,
    {
        let t = WriteTransfer { buf, cursor: 0 };
        proof {
            assert(t.emitted() =~= Seq::<u8>::empty());
            assert(t.pending_spec() =~= t.buf@);
        }
        t
    }

    /// How many bytes are still owed.
    pub fn remaining(&self) -> (r: usize)
        requires
            self.wf(),
        ensures
            r == self.pending_spec().len(),
    {
        self.buf.len() - self.cursor
    }

    pub fn is_complete(&self) -> (b: bool)
        requires
            self.wf(),
        ensures
            b == self.is_complete_spec(),
    {
        self.cursor == self.buf.len()
    }

    /// A copy of the bytes still owed, in wire order: what the next attempt
    /// should offer the stream.
    pub fn pending(&self) -> (p: Vec<u8>)
        requires
            self.wf(),
        ensures
            p@ == self.pending_spec(),
    {
        let s: &[u8] = slice_subrange(self.buf.as_slice(), self.cursor, self.buf.len());
        let p = slice_to_vec(s);
        proof {
            assert(self.buf@.subrange(self.cursor as int, self.buf@.len() as int) =~= self
                .pending_spec());
        }
        p
    }

    /// Records that the stream accepted the first `k` pending bytes: the
    /// cursor advances by exactly `k`, so no byte is ever resent and none is
    /// ever skipped.
    pub fn advance(&mut self, k: usize)
        requires
            old(self).wf(),
            k <= old(self).pending_spec().len(),
        ensures
            final(self).wf(),
            final(self).wire() == old(self).wire(),
            final(self).emitted() == old(self).emitted() + old(self).pending_spec().take(
                k as int,
            ),
            final(self).pending_spec() == old(self).pending_spec().skip(k as int),
            final(self).is_complete_spec() <==> k == old(self).pending_spec().len(),
    {
        self.cursor = self.cursor + k;
        proof {
            assert(self.buf@.take(self.cursor as int) =~= old(self).buf@.take(
                old(self).cursor as int,
            ) + old(self).buf@.skip(old(self).cursor as int).take(k as int));
            assert(self.buf@.skip(self.cursor as int) =~= old(self).buf@.skip(
                old(self).cursor as int,
            ).skip(k as int));
        }
    }
}

/// What a write transfer emits and what it still owes together make up
/// exactly its wire bytes, in order: the stream can never observe a byte
/// out of place.
pub proof fn lemma_wire_is_emitted_then_pending(t: WriteTransfer)
    requires
        t.wf(),
    ensures
        t.emitted() + t.pending_spec() == t.wire(),
{
    assert(t.emitted() + t.pending_spec() =~= t.wire());
}

} // verus!
