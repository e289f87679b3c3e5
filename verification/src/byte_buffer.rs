//! A bounded queue of bytes: received bytes join at the back, and whole packets
//! leave at the front.

use crate::bytes::write_at;
use vstd::prelude::*;

verus! {

pub struct ByteBuffer {
    buf: Vec<u8>,
    head: usize,
}

impl View for ByteBuffer {
    type V = Seq<u8>;

    /// The bytes that wait in the buffer.
    closed spec fn view(&self) -> Seq<u8> {
        self.buf@.take(self.head as int)
    }
}

impl ByteBuffer {
    /// How many bytes the buffer can hold.
    pub closed spec fn capacity(&self) -> nat {
        self.buf@.len()
    }

    /// The waiting bytes lie inside the buffer.
    pub closed spec fn wf(&self) -> bool {
        self.head <= self.buf@.len()
    }

    pub fn new(length: usize) -> (buffer: Self)
        ensures
            buffer.wf(),
            buffer@ == Seq::<u8>::empty(),
            buffer.capacity() == length,
    {
        let buffer = ByteBuffer { buf: vec![0u8;length], head: 0 };
        assert(buffer@ =~= Seq::<u8>::empty());
        buffer
    }

    /// How many more bytes fit.
    pub fn remaining(&self) -> (remaining: usize)
        requires
            self.wf(),
        ensures
            remaining == self.capacity() - self@.len(),
    {
        self.buf.len() - self.head
    }

    /// Appends what a source delivered; the result says whether that was
    /// anything at all.
    pub fn read_from(&mut self, received: &[u8]) -> (any: bool)
        requires
            old(self).wf(),
            old(self)@.len() + received@.len() <= old(self).capacity(),
        ensures
            final(self).wf(),
            final(self).capacity() == old(self).capacity(),
            final(self)@ == old(self)@ + received@,
            any == (received@.len() > 0),
    {
        let head: usize = self.head;
        write_at(self.buf.as_mut_slice(), head, received);
        assert(head + received@.len() <= self.buf.len());
        self.head = head + received.len();
        assert(self@ =~= old(self)@ + received@);
        received.len() > 0
    }

    /// The bytes that wait in the buffer.
    pub fn peek(&self) -> (bytes: &[u8])
        requires
            self.wf(),
        ensures
            bytes@ == self@,
    {
        &self.buf[0..self.head]
    }

    /// The bytes that wait in the buffer, to be changed in place.
    pub fn peek_mut(&mut self) -> (bytes: &mut [u8])
        requires
            old(self).wf(),
        ensures
            bytes@ == old(self)@,
            final(bytes)@.len() == old(self)@.len() ==> {
                &&& final(self).wf()
                &&& final(self).capacity() == old(self).capacity()
                &&& final(self)@ == final(bytes)@
            },
    {
        let ghost whole: Seq<u8> = self.buf@;
        let head: usize = self.head;
        let (bytes, rest) = self.buf.as_mut_slice().split_at_mut(head);
        assert(bytes@ =~= whole.take(head as int));
        assert(has_resolved(rest));
        assert((final(bytes)@ + final(rest)@).take(final(bytes)@.len() as int) =~= final(bytes)@);
        bytes
    }

    /// Drops the first `length` bytes; the others move to the front.
    pub fn consume(&mut self, length: usize)
        requires
            old(self).wf(),
            length <= old(self)@.len(),
        ensures
            final(self).wf(),
            final(self).capacity() == old(self).capacity(),
            final(self)@ == old(self)@.skip(length as int),
    {
        let ghost before: Seq<u8> = self@;
        let kept: usize = self.head - length;
        let mut i: usize = 0;
        while i < kept
            invariant
                i <= kept,
                kept + length == self.head,
                self.head == before.len(),
                self.wf(),
                self.capacity() == old(self).capacity(),
                forall|j: int| 0 <= j < i ==> self.buf@[j] == before[j + length],
                forall|j: int| i <= j < self.head ==> self.buf@[j] == before[j],
            decreases kept - i,
        {
            let byte: u8 = self.buf[i + length];
            self.buf[i] = byte;
            i = i + 1;
        }
        self.head = kept;
        assert(self@ =~= before.skip(length as int));
    }
}

} // verus!
