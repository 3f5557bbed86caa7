//! Outbound adapter: validates the handler's protocol messages, drives the
//! response accumulator through `Fresh -> Initialized -> Finalized`, and
//! resolves the one-shot completion channel with the finished response.

use vstd::prelude::*;

use tokio::sync::oneshot::Sender as OneshotTx;

use crate::headers::{adopt, copy_bytes, headers_wf, HeaderPair, Headers};
use crate::protocol::{
    body_of, header_list_of, kind_of, more_of, Message, MessageKind, MessageView, ProtocolError,
};

verus! {

/// The finished HTTP response, handed to the engine through the
/// completion channel.
pub struct Response {
    pub status: u16,
    pub headers: Headers,
    pub body: Vec<u8>,
}

/// Mathematical image of a [`Response`].
pub struct ResponseView {
    pub status: u16,
    pub headers: Seq<HeaderPair>,
    pub body: Seq<u8>,
}

impl View for Response {
    type V = ResponseView;

    open spec fn view(&self) -> ResponseView {
        ResponseView { status: self.status, headers: self.headers@, body: self.body@ }
    }
}

#[verifier::external_type_specification]
#[verifier::external_body]
#[verifier::reject_recursive_types(T)]
pub struct ExOneshotTx<T>(OneshotTx<T>);

/// Relies on `tokio::sync::oneshot::Sender::send`: it consumes the sending
/// half, delivers the value to the receiving half if that is still alive,
/// and hands the value back unchanged otherwise.
#[verifier::external_body]
fn oneshot_send(tx: OneshotTx<Response>, response: Response) -> (r: Result<(), Response>)
    ensures
        r matches Err(rejected) ==> rejected == response,
{
    tx.send(response)
}

/// Mathematical image of a [`Sender`]: the response accumulator together
/// with whether the completion channel is still held.
pub struct SenderView {
    /// A `start` message has been accepted.
    pub inited: bool,
    /// A finalizing `body` message has been accepted; the terminal state.
    pub consumed: bool,
    /// The status fixed by `start`; meaningful only once `inited`.
    pub status: u16,
    /// The headers fixed by `start`.
    pub headers: Seq<HeaderPair>,
    /// The body accumulated so far.
    pub body: Seq<u8>,
    /// Whether the sending half of the completion channel is still held;
    /// finalization surrenders it, so it can never be resolved twice.
    pub has_tx: bool,
}

/// The accumulator never mutates once finalized, and finalization has
/// surrendered the completion channel.
pub open spec fn sender_wf(s: SenderView) -> bool {
    s.consumed ==> s.inited && !s.has_tx
}

/// One step of the protocol state machine: the state after a message and
/// the verdict returned to the handler.
///
/// An unrecognized kind is rejected without a state change. A `start`
/// message initializes status and headers exactly when the state is
/// `Fresh` and a status is present. A `body` message appends its chunk
/// exactly when the state is `Initialized`; a chunk without `more_body`
/// finalizes and gives the completion channel up.
pub open spec fn submit_spec(s: SenderView, m: MessageView) -> (SenderView, Result<
    (),
    ProtocolError,
>) {
    match kind_of(m) {
        None => (s, Err(ProtocolError::UnsupportedMessage)),
        Some(MessageKind::Start) => {
            if s.inited {
                (s, Err(ProtocolError::FlowError))
            } else {
                match m.status {
                    Some(code) => (
                        SenderView {
                            inited: true,
                            status: code,
                            headers: adopt(header_list_of(m)),
                            ..s
                        },
                        Ok(()),
                    ),
                    None => (s, Err(ProtocolError::UnsupportedMessage)),
                }
            }
        },
        Some(MessageKind::Body) => {
            if s.inited && !s.consumed {
                let grown = s.body + body_of(m);
                if more_of(m) {
                    (SenderView { body: grown, ..s }, Ok(()))
                } else {
                    (SenderView { body: grown, consumed: true, has_tx: false, ..s }, Ok(()))
                }
            } else {
                (s, Err(ProtocolError::FlowError))
            }
        },
    }
}

/// Push side of the bridge: owns the response accumulator and the
/// completion channel.
pub struct Sender {
    inited: bool,
    consumed: bool,
    status: u16,
    headers: Headers,
    body: Vec<u8>,
    tx: Option<OneshotTx<Response>>,
}

impl View for Sender {
    type V = SenderView;

    closed spec fn view(&self) -> SenderView {
        SenderView {
            inited: self.inited,
            consumed: self.consumed,
            status: self.status,
            headers: self.headers@,
            body: self.body@,
            has_tx: self.tx is Some,
        }
    }
}

impl Sender {
    /// A fresh accumulator around the sending half of the completion
    /// channel (or none, when the engine has already abandoned the
    /// request).
    pub fn new(tx: Option<OneshotTx<Response>>) -> (r: Self)
        ensures
            r@ == (SenderView {
                inited: false,
                consumed: false,
                status: 0,
                headers: Seq::<HeaderPair>::empty(),
                body: Seq::<u8>::empty(),
                has_tx: tx is Some,
            }),
            headers_wf(r@.headers),
    {
        let s = Sender {
            inited: false,
            consumed: false,
            status: 0,
            headers: Headers::new(),
            body: Vec::new(),
            tx,
        };
        s
    }

    /// Classify a message by its declared kind.
    pub fn adapt_message_type(&self, message: &Message) -> (r: Result<MessageKind, ProtocolError>)
        ensures
            r == match kind_of(message@) {
                Some(k) => Ok::<MessageKind, ProtocolError>(k),
                None => Err::<MessageKind, ProtocolError>(ProtocolError::UnsupportedMessage),
            },
    {
        match &message.kind {
            Some(k) => {
                let start_kind: String = "start".to_owned();
                if *k == start_kind {
                    Ok(MessageKind::Start)
                } else {
                    let body_kind: String = "body".to_owned();
                    if *k == body_kind {
                        Ok(MessageKind::Body)
                    } else {
                        Err(ProtocolError::UnsupportedMessage)
                    }
                }
            },
            None => Err(ProtocolError::UnsupportedMessage),
        }
    }

    /// The status a `start` message must carry; its absence is fatal to
    /// the message.
    pub fn adapt_status_code(&self, message: &Message) -> (r: Result<u16, ProtocolError>)
        ensures
            r == match message@.status {
                Some(code) => Ok::<u16, ProtocolError>(code),
                None => Err::<u16, ProtocolError>(ProtocolError::UnsupportedMessage),
            },
    {
        match message.status {
            Some(code) => Ok(code),
            None => Err(ProtocolError::UnsupportedMessage),
        }
    }

    /// Best-effort adoption of the header list of a `start` message: an
    /// absent or malformed list counts as empty, and pairs hyper rejects
    /// are dropped one by one.
    pub fn adapt_headers(&self, message: &Message) -> (r: Headers)
        ensures
            r@ == adopt(header_list_of(message@)),
            headers_wf(r@),
    {
        match &message.headers {
            Some(list) => Headers::adopt_list(list),
            None => Headers::new(),
        }
    }

    /// The body chunk and continuation flag of a `body` message, with
    /// their defaults: no bytes, final.
    pub fn adapt_body(&self, message: &Message) -> (r: (Vec<u8>, bool))
        ensures
            r.0@ == body_of(message@),
            r.1 == more_of(message@),
    {
        let chunk: Vec<u8> = match &message.body {
            Some(b) => copy_bytes(b),
            None => Vec::new(),
        };
        let more: bool = match message.more_body {
            Some(f) => f,
            None => false,
        };
        (chunk, more)
    }

    /// Fix status and headers; the state becomes `Initialized`.
    fn init_response(&mut self, status_code: u16, headers: Headers)
        ensures
            final(self)@ == (SenderView {
                inited: true,
                status: status_code,
                headers: headers@,
                ..old(self)@
            }),
    {
        self.status = status_code;
        self.headers = headers;
        self.inited = true;
    }

    /// Append a chunk; on `finish`, move the accumulated response out
    /// through the completion channel (a no-op if the engine is gone) and
    /// enter the terminal state.
    fn send_body(&mut self, chunk: &[u8], finish: bool)
        ensures
            final(self)@ == (SenderView {
                body: old(self)@.body + chunk@,
                consumed: old(self)@.consumed || finish,
                has_tx: old(self)@.has_tx && !finish,
                ..old(self)@
            }),
    {
        append_bytes(&mut self.body, chunk);
        if finish {
            let response = Response {
                status: self.status,
                headers: self.headers.duplicate(),
                body: copy_bytes(&self.body),
            };
            match self.tx.take() {
                Some(tx) => {
                    let _ = oneshot_send(tx, response);
                },
                None => {},
            }
            self.consumed = true;
        }
    }

    /// Submit one protocol message: the executable form of [`submit_spec`].
    pub fn submit(&mut self, message: &Message) -> (r: Result<(), ProtocolError>)
        ensures
            final(self)@ == submit_spec(old(self)@, message@).0,
            r == submit_spec(old(self)@, message@).1,
            headers_wf(old(self)@.headers) ==> headers_wf(final(self)@.headers),
            sender_wf(old(self)@) ==> sender_wf(final(self)@),
    {
        match self.adapt_message_type(message) {
            Ok(MessageKind::Start) => {
                if !self.inited {
                    match self.adapt_status_code(message) {
                        Ok(code) => {
                            let headers = self.adapt_headers(message);
                            self.init_response(code, headers);
                            Ok(())
                        },
                        Err(e) => Err(e),
                    }
                } else {
                    Err(ProtocolError::FlowError)
                }
            },
            Ok(MessageKind::Body) => {
                if self.inited && !self.consumed {
                    let (chunk, more) = self.adapt_body(message);
                    self.send_body(chunk.as_slice(), !more);
                    Ok(())
                } else {
                    Err(ProtocolError::FlowError)
                }
            },
            Err(e) => Err(e),
        }
    }
}

/// Extend a buffer with the bytes of a slice.
fn append_bytes(dst: &mut Vec<u8>, src: &[u8])
    ensures
        final(dst)@ == old(dst)@ + src@,
{
    let mut i: usize = 0;
    while i < src.len()
        invariant
            i <= src@.len(),
            dst@ == old(dst)@ + src@.subrange(0, i as int),
        decreases src@.len() - i,
    {
        let b = src[i];
        dst.push(b);
        proof {
            assert(dst@ =~= old(dst)@ + src@.subrange(0, i as int + 1));
        }
        i += 1;
    }
    proof {
        assert(old(dst)@ + src@.subrange(0, src@.len() as int) =~= old(dst)@ + src@);
    }
}

}
