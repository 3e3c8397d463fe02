//! Numeric operations over a non-blocking stream. Each operation owns the
//! stream for its whole life: the stream moves in at construction and moves
//! out only when the operation completes, so no two operations can interleave
//! bytes on the same stream. The caller performs each non-blocking attempt
//! against the stream and feeds the outcome back as an event; the operation
//! keeps the cursor and buffer across suspensions, so progress is never lost
//! or duplicated.

use vstd::prelude::*;

verus! {

use crate::endian::{ByteOrder, uval, sval, uenc, senc, decode_uint, decode_int, encode_uint, encode_int};
use crate::transfer::{ReadTransfer, WriteTransfer};
use vstd::arithmetic::div_mod::{lemma_small_mod, lemma_mod_multiples_vanish};

/// What one non-blocking read attempt against the stream produced.
pub enum ReadEvent<E> {
    /// The stream delivered these bytes: at least one, at most what the
    /// operation still asked for.
    Bytes(Vec<u8>),
    /// No data is available right now; resume later.
    WouldBlock,
    /// The stream has ended: no byte will ever arrive again.
    Eof,
    /// The stream failed with this error.
    Failed(E),
}

/// What one non-blocking write attempt against the stream produced.
pub enum WriteEvent<E> {
    /// The stream accepted this many of the offered bytes: at least one, at
    /// most what was offered.
    Accepted(usize),
    /// The stream cannot take bytes right now; resume later.
    WouldBlock,
    /// The stream failed with this error.
    Failed(E),
}

/// Why an operation failed. Failure is terminal: the operation is consumed
/// and the stream is discarded with it.
pub enum NumError<E> {
    /// The stream ended before the full value was transferred. The bytes
    /// that did arrive are never exposed as a decoded value.
    PrematureEof,
    /// The stream reported this error; it is passed on verbatim.
    Io(E),
}

/// The state of a read operation after one resume.
pub enum ReadOutcome<Op, S, E, T> {
    /// Every byte arrived: the stream comes back to the caller together with
    /// the decoded value.
    Complete(S, T),
    /// Not done yet: the operation keeps the stream and all progress, and
    /// must be resumed with the next event.
    Suspended(Op),
    /// Terminal failure; the stream is discarded.
    Failed(NumError<E>),
}

/// The state of a write operation after one resume.
pub enum WriteOutcome<Op, S, E> {
    /// Every byte was accepted: the stream comes back to the caller.
    Complete(S),
    /// Not done yet: the operation keeps the stream and all progress, and
    /// must be resumed with the next event.
    Suspended(Op),
    /// Terminal failure; the stream is discarded.
    Failed(NumError<E>),
}

/// Reads an unsigned integer of 1 to 8 bytes under a chosen byte order.
pub struct ReadUInt<S> {
    /// The stream, exclusively owned until the operation ends.
    pub stream: S,
    /// How the completed buffer is interpreted.
    pub order: ByteOrder,
    /// The partial transfer driving the stream.
    pub transfer: ReadTransfer,
}

impl<S> ReadUInt<S> {
    /// A live operation: consistent, and not yet complete (completion
    /// consumes the operation).
    pub open spec fn wf(self) -> bool {
        &&& self.transfer.wf()
        &&& !self.transfer.is_complete_spec()
    }

    /// The number of bytes the whole operation reads.
    pub open spec fn width(self) -> nat {
        self.transfer.width_spec()
    }

    /// The bytes delivered so far, in order.
    pub open spec fn filled(self) -> Seq<u8> {
        self.transfer.filled()
    }

    pub fn new(stream: S, order: ByteOrder, nbytes: usize) -> (op: Self)
        requires
            1 <= nbytes <= 8,
        ensures
            op.wf(),
            op.stream == stream,
            op.order == order,
            op.width() == nbytes,
            op.filled() == Seq::<u8>::empty(),
    {
        ReadUInt { stream, order, transfer: ReadTransfer::new(nbytes) }
    }

    /// How many bytes the next attempt should ask the stream for.
    pub fn remaining(&self) -> (r: usize)
        requires
            self.wf(),
        ensures
            r == self.width() - self.filled().len(),
            1 <= r <= 8,
    {
        self.transfer.remaining()
    }

    /// Feeds one stream event in. Delivered bytes are appended to the
    /// progress so far, exactly once; would-block suspends with nothing
    /// changed; end of data before completion fails with `PrematureEof`; a
    /// stream error fails with that error. On completion the stream comes
    /// back with the decoded value of the full buffer.
    pub fn resume<E>(self, event: ReadEvent<E>) -> (out: ReadOutcome<Self, S, E, u64>)
        requires
            self.wf(),
            event matches ReadEvent::Bytes(b) ==> 1 <= b@.len() <= self.width()
                - self.filled().len(),
        ensures
            match event {
                ReadEvent::Bytes(b) => {
                    if self.filled().len() + b@.len() == self.width() {
                        out matches ReadOutcome::Complete(s, v) && s == self.stream && v as nat
                            == uval(self.order, self.filled() + b@)
                    } else {
                        out matches ReadOutcome::Suspended(p) && p.wf() && p.stream == self.stream
                            && p.order == self.order && p.width() == self.width() && p.filled()
                            == self.filled() + b@
                    }
                },
                ReadEvent::WouldBlock => out matches ReadOutcome::Suspended(p) && p == self,
                ReadEvent::Eof => out matches ReadOutcome::Failed(e) && e is PrematureEof,
                ReadEvent::Failed(err) => out matches ReadOutcome::Failed(e) && e matches
                    NumError::Io(e2) && e2 == err,
            },
    {
        match event {
            ReadEvent::Bytes(b) => {
                let ReadUInt { stream, order, mut transfer } = self;
                transfer.deliver(b.as_slice());
                if transfer.is_complete() {
                    let buf = transfer.into_bytes();
                    let v = decode_uint(buf.as_slice(), order);
                    ReadOutcome::Complete(stream, v)
                } else {
                    ReadOutcome::Suspended(ReadUInt { stream, order, transfer })
                }
            },
            ReadEvent::WouldBlock => ReadOutcome::Suspended(self),
            ReadEvent::Eof => ReadOutcome::Failed(NumError::PrematureEof),
            ReadEvent::Failed(err) => ReadOutcome::Failed(NumError::Io(err)),
        }
    }
}

/// Reads a signed integer of 1 to 8 bytes under a chosen byte order,
/// sign-extending from the most significant transferred byte.
pub struct ReadInt<S> {
    /// The stream, exclusively owned until the operation ends.
    pub stream: S,
    /// How the completed buffer is interpreted.
    pub order: ByteOrder,
    /// The partial transfer driving the stream.
    pub transfer: ReadTransfer,
}

impl<S> ReadInt<S> {
    /// A live operation: consistent, and not yet complete.
    pub open spec fn wf(self) -> bool {
        &&& self.transfer.wf()
        &&& !self.transfer.is_complete_spec()
    }

    /// The number of bytes the whole operation reads.
    pub open spec fn width(self) -> nat {
        self.transfer.width_spec()
    }

    /// The bytes delivered so far, in order.
    pub open spec fn filled(self) -> Seq<u8> {
        self.transfer.filled()
    }

    pub fn new(stream: S, order: ByteOrder, nbytes: usize) -> (op: Self)
        requires
            1 <= nbytes <= 8,
        ensures
            op.wf(),
            op.stream == stream,
            op.order == order,
            op.width() == nbytes,
            op.filled() == Seq::<u8>::empty(),
    {
        ReadInt { stream, order, transfer: ReadTransfer::new(nbytes) }
    }

    /// How many bytes the next attempt should ask the stream for.
    pub fn remaining(&self) -> (r: usize)
        requires
            self.wf(),
        ensures
            r == self.width() - self.filled().len(),
            1 <= r <= 8,
    {
        self.transfer.remaining()
    }

    /// Feeds one stream event in; see [`ReadUInt::resume`]. On completion
    /// the value is the sign-extended reading of the full buffer.
    pub fn resume<E>(self, event: ReadEvent<E>) -> (out: ReadOutcome<Self, S, E, i64>)
        requires
            self.wf(),
            event matches ReadEvent::Bytes(b) ==> 1 <= b@.len() <= self.width()
                - self.filled().len(),
        ensures
            match event {
                ReadEvent::Bytes(b) => {
                    if self.filled().len() + b@.len() == self.width() {
                        out matches ReadOutcome::Complete(s, v) && s == self.stream && v as int
                            == sval(self.order, self.filled() + b@)
                    } else {
                        out matches ReadOutcome::Suspended(p) && p.wf() && p.stream == self.stream
                            && p.order == self.order && p.width() == self.width() && p.filled()
                            == self.filled() + b@
                    }
                },
                ReadEvent::WouldBlock => out matches ReadOutcome::Suspended(p) && p == self,
                ReadEvent::Eof => out matches ReadOutcome::Failed(e) && e is PrematureEof,
                ReadEvent::Failed(err) => out matches ReadOutcome::Failed(e) && e matches
                    NumError::Io(e2) && e2 == err,
            },
    {
        match event {
            ReadEvent::Bytes(b) => {
                let ReadInt { stream, order, mut transfer } = self;
                transfer.deliver(b.as_slice());
                if transfer.is_complete() {
                    let buf = transfer.into_bytes();
                    let v = decode_int(buf.as_slice(), order);
                    ReadOutcome::Complete(stream, v)
                } else {
                    ReadOutcome::Suspended(ReadInt { stream, order, transfer })
                }
            },
            ReadEvent::WouldBlock => ReadOutcome::Suspended(self),
            ReadEvent::Eof => ReadOutcome::Failed(NumError::PrematureEof),
            ReadEvent::Failed(err) => ReadOutcome::Failed(NumError::Io(err)),
        }
    }
}

/// Reads one unsigned byte. Byte order is meaningless for a single byte, so
/// none is taken.
pub struct ReadU8<S> {
    /// The stream, exclusively owned until the operation ends.
    pub stream: S,
}

impl<S> ReadU8<S> {
    pub fn new(stream: S) -> (op: Self)
        ensures
            op.stream == stream,
    {
        ReadU8 { stream }
    }

    /// Feeds one stream event in. A delivered byte completes the operation
    /// at once with that byte as the value.
    pub fn resume<E>(self, event: ReadEvent<E>) -> (out: ReadOutcome<Self, S, E, u8>)
        requires
            event matches ReadEvent::Bytes(b) ==> b@.len() == 1,
        ensures
            match event {
                ReadEvent::Bytes(b) => out matches ReadOutcome::Complete(s, v) && s == self.stream
                    && v == b@[0],
                ReadEvent::WouldBlock => out matches ReadOutcome::Suspended(p) && p == self,
                ReadEvent::Eof => out matches ReadOutcome::Failed(e) && e is PrematureEof,
                ReadEvent::Failed(err) => out matches ReadOutcome::Failed(e) && e matches
                    NumError::Io(e2) && e2 == err,
            },
    {
        match event {
            ReadEvent::Bytes(b) => {
                let v: u8 = b[0];
                ReadOutcome::Complete(self.stream, v)
            },
            ReadEvent::WouldBlock => ReadOutcome::Suspended(self),
            ReadEvent::Eof => ReadOutcome::Failed(NumError::PrematureEof),
            ReadEvent::Failed(err) => ReadOutcome::Failed(NumError::Io(err)),
        }
    }
}

/// Reads one signed byte. Byte order is meaningless for a single byte, so
/// none is taken.
pub struct ReadI8<S> {
    /// The stream, exclusively owned until the operation ends.
    pub stream: S,
}

impl<S> ReadI8<S> {
    pub fn new(stream: S) -> (op: Self)
        ensures
            op.stream == stream,
    {
        ReadI8 { stream }
    }

    /// Feeds one stream event in. A delivered byte completes the operation
    /// at once with its two's-complement reading as the value.
    pub fn resume<E>(self, event: ReadEvent<E>) -> (out: ReadOutcome<Self, S, E, i8>)
        requires
            event matches ReadEvent::Bytes(b) ==> b@.len() == 1,
        ensures
            match event {
                ReadEvent::Bytes(b) => out matches ReadOutcome::Complete(s, v) && s == self.stream
                    && v as int == (if b@[0] < 128 {
                        b@[0] as int
                    } else {
                        b@[0] - 256
                    }),
                ReadEvent::WouldBlock => out matches ReadOutcome::Suspended(p) && p == self,
                ReadEvent::Eof => out matches ReadOutcome::Failed(e) && e is PrematureEof,
                ReadEvent::Failed(err) => out matches ReadOutcome::Failed(e) && e matches
                    NumError::Io(e2) && e2 == err,
            },
    {
        match event {
            ReadEvent::Bytes(b) => {
                let b0: u8 = b[0];
                let v: i8 = if b0 < 128 {
                    b0 as i8
                } else {
                    ((b0 - 128) as i8) + i8::MIN
                };
                ReadOutcome::Complete(self.stream, v)
            },
            ReadEvent::WouldBlock => ReadOutcome::Suspended(self),
            ReadEvent::Eof => ReadOutcome::Failed(NumError::PrematureEof),
            ReadEvent::Failed(err) => ReadOutcome::Failed(NumError::Io(err)),
        }
    }
}

/// Writes an unsigned integer as its low `nbytes` bytes under a chosen byte
/// order. The buffer is fully encoded at construction; the transfer then
/// only moves already-known bytes onto the stream.
pub struct WriteUInt<S> {
    /// The stream, exclusively owned until the operation ends.
    pub stream: S,
    /// The partial transfer draining the encoded buffer.
    pub transfer: WriteTransfer,
}

impl<S> WriteUInt<S> {
    /// A live operation: consistent, and not yet complete.
    pub open spec fn wf(self) -> bool {
        &&& self.transfer.wf()
        &&& !self.transfer.is_complete_spec()
    }

    /// Every byte this operation puts on the stream, in wire order.
    pub open spec fn wire(self) -> Seq<u8> {
        self.transfer.wire()
    }

    /// The bytes the stream has accepted so far.
    pub open spec fn emitted(self) -> Seq<u8> {
        self.transfer.emitted()
    }

    /// The bytes still owed to the stream.
    pub open spec fn pending_bytes(self) -> Seq<u8> {
        self.transfer.pending_spec()
    }

    pub fn new(stream: S, n: u64, order: ByteOrder, nbytes: usize) -> (op: Self)
        requires
            1 <= nbytes <= 8,
        ensures
            op.wf(),
            op.stream == stream,
            op.wire() == uenc(order, n as nat, nbytes as nat),
            op.wire().len() == nbytes,
            op.emitted() == Seq::<u8>::empty(),
    {
        WriteUInt { stream, transfer: WriteTransfer::new(encode_uint(n, nbytes, order)) }
    }

    /// A copy of the bytes still owed, in wire order: what the next attempt
    /// should offer the stream.
    pub fn pending(&self) -> (p: Vec<u8>)
        requires
            self.wf(),
        ensures
            p@ == self.pending_bytes(),
            1 <= p@.len() <= 8,
    {
        self.transfer.pending()
    }

    /// Feeds one stream event in. Accepted bytes advance the cursor by
    /// exactly their count, so nothing is resent and nothing skipped;
    /// would-block suspends with nothing changed; a stream error fails with
    /// that error (bytes already accepted are not un-sent). Completion
    /// returns the stream once every wire byte was accepted.
    pub fn resume<E>(self, event: WriteEvent<E>) -> (out: WriteOutcome<Self, S, E>)
        requires
            self.wf(),
            event matches WriteEvent::Accepted(k) ==> 1 <= k <= self.pending_bytes().len(),
        ensures
            match event {
                WriteEvent::Accepted(k) => {
                    if k == self.pending_bytes().len() {
                        out matches WriteOutcome::Complete(s) && s == self.stream
                    } else {
                        out matches WriteOutcome::Suspended(p) && p.wf() && p.stream == self.stream
                            && p.wire() == self.wire() && p.emitted() == self.emitted()
                            + self.pending_bytes().take(k as int)
                    }
                },
                WriteEvent::WouldBlock => out matches WriteOutcome::Suspended(p) && p == self,
                WriteEvent::Failed(err) => out matches WriteOutcome::Failed(e) && e matches
                    NumError::Io(e2) && e2 == err,
            },
    {
        match event {
            WriteEvent::Accepted(k) => {
                let WriteUInt { stream, mut transfer } = self;
                transfer.advance(k);
                if transfer.is_complete() {
                    WriteOutcome::Complete(stream)
                } else {
                    WriteOutcome::Suspended(WriteUInt { stream, transfer })
                }
            },
            WriteEvent::WouldBlock => WriteOutcome::Suspended(self),
            WriteEvent::Failed(err) => WriteOutcome::Failed(NumError::Io(err)),
        }
    }
}

/// Writes a signed integer as the low `nbytes` bytes of its two's complement
/// under a chosen byte order.
pub struct WriteInt<S> {
    /// The stream, exclusively owned until the operation ends.
    pub stream: S,
    /// The partial transfer draining the encoded buffer.
    pub transfer: WriteTransfer,
}

impl<S> WriteInt<S> {
    /// A live operation: consistent, and not yet complete.
    pub open spec fn wf(self) -> bool {
        &&& self.transfer.wf()
        &&& !self.transfer.is_complete_spec()
    }

    /// Every byte this operation puts on the stream, in wire order.
    pub open spec fn wire(self) -> Seq<u8> {
        self.transfer.wire()
    }

    /// The bytes the stream has accepted so far.
    pub open spec fn emitted(self) -> Seq<u8> {
        self.transfer.emitted()
    }

    /// The bytes still owed to the stream.
    pub open spec fn pending_bytes(self) -> Seq<u8> {
        self.transfer.pending_spec()
    }

    pub fn new(stream: S, n: i64, order: ByteOrder, nbytes: usize) -> (op: Self)
        requires
            1 <= nbytes <= 8,
        ensures
            op.wf(),
            op.stream == stream,
            op.wire() == senc(order, n as int, nbytes as nat),
            op.wire().len() == nbytes,
            op.emitted() == Seq::<u8>::empty(),
    {
        WriteInt { stream, transfer: WriteTransfer::new(encode_int(n, nbytes, order)) }
    }

    /// A copy of the bytes still owed, in wire order.
    pub fn pending(&self) -> (p: Vec<u8>)
        requires
            self.wf(),
        ensures
            p@ == self.pending_bytes(),
            1 <= p@.len() <= 8,
    {
        self.transfer.pending()
    }

    /// Feeds one stream event in; see [`WriteUInt::resume`].
    pub fn resume<E>(self, event: WriteEvent<E>) -> (out: WriteOutcome<Self, S, E>)
        requires
            self.wf(),
            event matches WriteEvent::Accepted(k) ==> 1 <= k <= self.pending_bytes().len(),
        ensures
            match event {
                WriteEvent::Accepted(k) => {
                    if k == self.pending_bytes().len() {
                        out matches WriteOutcome::Complete(s) && s == self.stream
                    } else {
                        out matches WriteOutcome::Suspended(p) && p.wf() && p.stream == self.stream
                            && p.wire() == self.wire() && p.emitted() == self.emitted()
                            + self.pending_bytes().take(k as int)
                    }
                },
                WriteEvent::WouldBlock => out matches WriteOutcome::Suspended(p) && p == self,
                WriteEvent::Failed(err) => out matches WriteOutcome::Failed(e) && e matches
                    NumError::Io(e2) && e2 == err,
            },
    {
        match event {
            WriteEvent::Accepted(k) => {
                let WriteInt { stream, mut transfer } = self;
                transfer.advance(k);
                if transfer.is_complete() {
                    WriteOutcome::Complete(stream)
                } else {
                    WriteOutcome::Suspended(WriteInt { stream, transfer })
                }
            },
            WriteEvent::WouldBlock => WriteOutcome::Suspended(self),
            WriteEvent::Failed(err) => WriteOutcome::Failed(NumError::Io(err)),
        }
    }
}

/// Writes one unsigned byte.
pub struct WriteU8<S> {
    /// The stream, exclusively owned until the operation ends.
    pub stream: S,
    /// The partial transfer draining the one-byte buffer.
    pub transfer: WriteTransfer,
}

impl<S> WriteU8<S> {
    /// A live operation: a one-byte buffer, consistent, not yet complete.
    pub open spec fn wf(self) -> bool {
        &&& self.transfer.wf()
        &&& self.transfer.wire().len() == 1
        &&& !self.transfer.is_complete_spec()
    }

    /// Every byte this operation puts on the stream: exactly the one given.
    pub open spec fn wire(self) -> Seq<u8> {
        self.transfer.wire()
    }

    pub fn new(stream: S, n: u8) -> (op: Self)
        ensures
            op.wf(),
            op.stream == stream,
            op.wire().len() == 1,
            op.wire()[0] == n,
    {
        let mut buf: Vec<u8> = Vec::new();
        buf.push(n);
        WriteU8 { stream, transfer: WriteTransfer::new(buf) }
    }

    /// A copy of the bytes still owed: the single byte.
    pub fn pending(&self) -> (p: Vec<u8>)
        requires
            self.wf(),
        ensures
            p@ == self.wire(),
            p@.len() == 1,
    {
        let p = self.transfer.pending();
        proof {
            assert(self.transfer.pending_spec() =~= self.transfer.wire());
        }
        p
    }

    /// Feeds one stream event in. Accepting the byte completes the
    /// operation; see [`WriteUInt::resume`].
    pub fn resume<E>(self, event: WriteEvent<E>) -> (out: WriteOutcome<Self, S, E>)
        requires
            self.wf(),
            event matches WriteEvent::Accepted(k) ==> k == 1,
        ensures
            match event {
                WriteEvent::Accepted(k) => out matches WriteOutcome::Complete(s) && s
                    == self.stream,
                WriteEvent::WouldBlock => out matches WriteOutcome::Suspended(p) && p == self,
                WriteEvent::Failed(err) => out matches WriteOutcome::Failed(e) && e matches
                    NumError::Io(e2) && e2 == err,
            },
    {
        match event {
            WriteEvent::Accepted(k) => WriteOutcome::Complete(self.stream),
            WriteEvent::WouldBlock => WriteOutcome::Suspended(self),
            WriteEvent::Failed(err) => WriteOutcome::Failed(NumError::Io(err)),
        }
    }
}

/// Writes one signed byte as its two's complement.
pub struct WriteI8<S> {
    /// The stream, exclusively owned until the operation ends.
    pub stream: S,
    /// The partial transfer draining the one-byte buffer.
    pub transfer: WriteTransfer,
}

impl<S> WriteI8<S> {
    /// A live operation: a one-byte buffer, consistent, not yet complete.
    pub open spec fn wf(self) -> bool {
        &&& self.transfer.wf()
        &&& self.transfer.wire().len() == 1
        &&& !self.transfer.is_complete_spec()
    }

    /// Every byte this operation puts on the stream: the two's complement of
    /// the value given.
    pub open spec fn wire(self) -> Seq<u8> {
        self.transfer.wire()
    }

    pub fn new(stream: S, n: i8) -> (op: Self)
        ensures
            op.wf(),
            op.stream == stream,
            op.wire().len() == 1,
            op.wire()[0] as int == (n as int) % 256,
    {
        let byte: u8 = if n >= 0 {
            n as u8
        } else {
            ((n as i16) + 256) as u8
        };
        proof {
            if n >= 0 {
                lemma_small_mod(n as nat, 256);
            } else {
                lemma_mod_multiples_vanish(1, n as int, 256);
                lemma_small_mod((n + 256) as nat, 256);
            }
        }
        let mut buf: Vec<u8> = Vec::new();
        buf.push(byte);
        WriteI8 { stream, transfer: WriteTransfer::new(buf) }
    }

    /// A copy of the bytes still owed: the single byte.
    pub fn pending(&self) -> (p: Vec<u8>)
        requires
            self.wf(),
        ensures
            p@ == self.wire(),
            p@.len() == 1,
    {
        let p = self.transfer.pending();
        proof {
            assert(self.transfer.pending_spec() =~= self.transfer.wire());
        }
        p
    }

    /// Feeds one stream event in. Accepting the byte completes the
    /// operation; see [`WriteUInt::resume`].
    pub fn resume<E>(self, event: WriteEvent<E>) -> (out: WriteOutcome<Self, S, E>)
        requires
            self.wf(),
            event matches WriteEvent::Accepted(k) ==> k == 1,
        ensures
            match event {
                WriteEvent::Accepted(k) => out matches WriteOutcome::Complete(s) && s
                    == self.stream,
                WriteEvent::WouldBlock => out matches WriteOutcome::Suspended(p) && p == self,
                WriteEvent::Failed(err) => out matches WriteOutcome::Failed(e) && e matches
                    NumError::Io(e2) && e2 == err,
            },
    {
        match event {
            WriteEvent::Accepted(k) => WriteOutcome::Complete(self.stream),
            WriteEvent::WouldBlock => WriteOutcome::Suspended(self),
            WriteEvent::Failed(err) => WriteOutcome::Failed(NumError::Io(err)),
        }
    }
}

} // verus!
