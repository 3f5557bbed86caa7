//! Vocabulary of the application message protocol: the loosely typed
//! records a handler submits, the kinds the bridge recognizes, and the
//! failures it reports.

use vstd::prelude::*;

use crate::headers::pairs_view;

verus! {

/// Failure returned to the handler by `Sender::submit`.
#[derive(Clone, Copy, Debug, PartialEq, Eq, Structural)]
pub enum ProtocolError {
    /// The message kind is unrecognized, or a required field is absent
    /// or of the wrong type.
    UnsupportedMessage,
    /// The message arrived out of the allowed state-machine order.
    FlowError,
}

/// The message kinds the bridge acts on.
#[derive(Clone, Copy, Debug, PartialEq, Eq, Structural)]
pub enum MessageKind {
    /// Fixes the response status and headers.
    Start,
    /// Appends response body bytes and possibly finalizes.
    Body,
}

/// A protocol message as the handler hands it over: an untyped record in
/// which every field may be missing.
///
/// The handler speaks a loosely typed dictionary protocol; the boundary
/// that receives such a record keeps each field only when it is present
/// and of the expected type, and hands anything else over as `None`.
/// Which absences are fatal is decided here, by the `Sender`, not at that
/// boundary: a `start` without a usable `status` is rejected, while a
/// missing header list, body or `more_body` flag falls back to a default.
pub struct Message {
    /// The declared kind (the record's `type` entry).
    pub kind: Option<String>,
    /// The HTTP status code of a `start` message.
    pub status: Option<u16>,
    /// Raw header pairs of a `start` message, each a name and a value.
    pub headers: Option<Vec<(Vec<u8>, Vec<u8>)>>,
    /// The body chunk of a `body` message.
    pub body: Option<Vec<u8>>,
    /// Whether more `body` messages follow.
    pub more_body: Option<bool>,
}

/// Mathematical image of a [`Message`].
pub struct MessageView {
    pub kind: Option<Seq<char>>,
    pub status: Option<u16>,
    pub headers: Option<Seq<(Seq<u8>, Seq<u8>)>>,
    pub body: Option<Seq<u8>>,
    pub more_body: Option<bool>,
}

impl View for Message {
    type V = MessageView;

    open spec fn view(&self) -> MessageView {
        MessageView {
            kind: match self.kind {
                Some(k) => Some(k@),
                None => None,
            },
            status: self.status,
            headers: match self.headers {
                Some(l) => Some(pairs_view(l@)),
                None => None,
            },
            body: match self.body {
                Some(b) => Some(b@),
                None => None,
            },
            more_body: self.more_body,
        }
    }
}

/// How a message is classified: `None` stands for an unrecognized or
/// missing kind, which `Sender::submit` rejects as unsupported.
pub open spec fn kind_of(m: MessageView) -> Option<MessageKind> {
    match m.kind {
        Some(k) => if k == "start"@ {
            Some(MessageKind::Start)
        } else if k == "body"@ {
            Some(MessageKind::Body)
        } else {
            None
        },
        None => None,
    }
}

/// The body chunk a `body` message carries; an absent field means no bytes.
pub open spec fn body_of(m: MessageView) -> Seq<u8> {
    match m.body {
        Some(b) => b,
        None => Seq::empty(),
    }
}

/// Whether a `body` message announces further chunks; absent means final.
pub open spec fn more_of(m: MessageView) -> bool {
    match m.more_body {
        Some(f) => f,
        None => false,
    }
}

/// The raw header pairs a `start` message carries; absent means none.
pub open spec fn header_list_of(m: MessageView) -> Seq<(Seq<u8>, Seq<u8>)> {
    match m.headers {
        Some(l) => l,
        None => Seq::empty(),
    }
}

}
