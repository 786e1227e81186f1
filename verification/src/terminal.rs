//! Bytes on their way to a terminal: collected until they are flushed.
use vstd::prelude::*;

verus! {

/// The bytes that have been written and not yet sent.
#[derive(Debug)]
pub struct OutputBuffer {
    pub sink: Vec<u8>,
}

impl OutputBuffer {
    /// An empty buffer.
    pub fn new() -> (r: OutputBuffer)
        ensures
            r.sink@ == Seq::<u8>::empty(),
    {
        OutputBuffer { sink: Vec::new() }
    }

    /// Takes all of `buf`, and says how much that was.
    pub fn write(&mut self, buf: &[u8]) -> (r: usize)
        ensures
            final(self).sink@ == old(self).sink@ + buf@,
            r == buf@.len(),
    {
        self.sink.extend_from_slice(buf);
        assert(self.sink@ =~= old(self).sink@ + buf@);
        buf.len()
    }

    /// What a flush has to send: everything that is in the buffer, which stays
    /// there until it is known to have been sent.
    pub fn pending(&self) -> (r: Vec<u8>)
        ensures
            r@ == self.sink@,
    {
        let r: Vec<u8> = self.sink.clone();
        assert(r@ =~= self.sink@);
        r
    }

    /// Ends a flush: what was sent leaves the buffer, what was not stays.
    pub fn flushed(&mut self, sent: bool)
        ensures
            final(self).sink@ == (if sent {
                Seq::<u8>::empty()
            } else {
                old(self).sink@
            }),
    {
        if sent {
            self.sink.clear();
        }
    }
}

/// A flush loses nothing and sends nothing twice: what was sent and what is
/// left are together what was in the buffer.
pub proof fn law_flush_keeps_every_byte(
    before: OutputBuffer,
    message: Seq<u8>,
    sent: bool,
    after: OutputBuffer,
)
    requires
        message == before.sink@,
        after.sink@ == (if sent {
            Seq::<u8>::empty()
        } else {
            before.sink@
        }),
    ensures
        (if sent {
            message
        } else {
            Seq::<u8>::empty()
        }) + after.sink@ == before.sink@,
{
    assert(before.sink@ + Seq::<u8>::empty() =~= before.sink@);
    assert(Seq::<u8>::empty() + before.sink@ =~= before.sink@);
}

/// Bytes leave the buffer in the order in which they were written, all of them
/// and once only: what a flush has to send after a write is what it would have
/// had to send before, and then what was written. Once it was sent, none of it
/// is left to send; while it could not be, all of it is.
pub proof fn law_bytes_are_sent_once_and_in_order(
    before: &OutputBuffer,
    waiting: Vec<u8>,
    buffer: &mut OutputBuffer,
    bytes: &[u8],
    taken: usize,
    between: &OutputBuffer,
    message: Vec<u8>,
    flushing: &mut OutputBuffer,
    sent: bool,
    after: &OutputBuffer,
    rest: Vec<u8>,
)
    requires
        call_ensures(OutputBuffer::pending, (before,), waiting),
        *before == *old(buffer),
        call_ensures(OutputBuffer::write, (buffer, bytes), taken),
        *between == *final(buffer),
        call_ensures(OutputBuffer::pending, (between,), message),
        *between == *old(flushing),
        call_ensures(OutputBuffer::flushed, (flushing, sent), ()),
        *after == *final(flushing),
        call_ensures(OutputBuffer::pending, (after,), rest),
    ensures
        message@ == waiting@ + bytes@,
        taken == bytes@.len(),
        sent ==> rest@.len() == 0,
        !sent ==> rest@ == message@,
{
}

} // verus!
