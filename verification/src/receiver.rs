//! Inbound adapter: hands the handler the request body as pull-based reads.

use vstd::prelude::*;

verus! {

/// Pull side of the bridge.
///
/// The transport layer drains the HTTP body stream into plain bytes and
/// constructs a `Receiver` from them; the receiver then models the stream
/// cursor: the first `receive` yields everything that is left, every later
/// call yields nothing.
pub struct Receiver {
    remaining: Vec<u8>,
}

impl View for Receiver {
    type V = Seq<u8>;

    closed spec fn view(&self) -> Seq<u8> {
        self.remaining@
    }
}

impl Receiver {
    /// Wrap the (already drained) request body.
    pub fn new(body: Vec<u8>) -> (r: Self)
        ensures
            r@ == body@,
    {
        Receiver { remaining: body }
    }

    /// Return every byte not yet read; afterwards the stream is exhausted,
    /// so a second call returns an empty buffer.
    pub fn receive(&mut self) -> (r: Vec<u8>)
        ensures
            r@ == old(self)@,
            final(self)@ == Seq::<u8>::empty(),
    {
        let mut drained: Vec<u8> = Vec::new();
        core::mem::swap(&mut drained, &mut self.remaining);
        drained
    }
}

}
