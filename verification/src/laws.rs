//! Laws of the protocol state machine, stated over [`submit_spec`] — the
//! specification every `Sender::submit` call is proved to follow.

use vstd::prelude::*;

use crate::headers::adopt;
use crate::protocol::{
    body_of, header_list_of, kind_of, more_of, MessageKind, MessageView, ProtocolError,
};
use crate::sender::{sender_wf, submit_spec, SenderView};

verus! {

/// The state left by a sequence of messages, submitted in order.
pub open spec fn run(s: SenderView, ms: Seq<MessageView>) -> SenderView
    decreases ms.len(),
{
    if ms.len() == 0 {
        s
    } else {
        run(submit_spec(s, ms[0]).0, ms.skip(1))
    }
}

/// The concatenation of the body chunks of a sequence of messages.
pub open spec fn chunks_of(ms: Seq<MessageView>) -> Seq<u8>
    decreases ms.len(),
{
    if ms.len() == 0 {
        Seq::empty()
    } else {
        body_of(ms[0]) + chunks_of(ms.skip(1))
    }
}

/// A streaming tail of `body` messages: every message is of kind `body`,
/// and every one but the last announces a continuation.
pub open spec fn streaming_bodies(ms: Seq<MessageView>) -> bool {
    forall|i: int| 0 <= i < ms.len() ==> kind_of(#[trigger] ms[i]) == Some(MessageKind::Body)
        && (i < ms.len() - 1 ==> more_of(ms[i]))
}

/// Well-formedness is an invariant of the state machine: however a message
/// is answered, a finalized accumulator stays finalized-and-surrendered.
pub proof fn lemma_wf_preserved(s: SenderView, m: MessageView)
    requires
        sender_wf(s),
    ensures
        sender_wf(submit_spec(s, m).0),
{
}

/// A valid `start` sent while `Fresh` initializes the accumulator, and any
/// further `start` fails with a flow error and changes nothing.
pub proof fn lemma_start_initializes_once(s: SenderView, m1: MessageView, m2: MessageView)
    requires
        !s.inited,
        kind_of(m1) == Some(MessageKind::Start),
        m1.status is Some,
        kind_of(m2) == Some(MessageKind::Start),
    ensures
        submit_spec(s, m1).1 == Ok::<(), ProtocolError>(()),
        submit_spec(s, m1).0.inited,
        submit_spec(submit_spec(s, m1).0, m2).1 == Err::<(), ProtocolError>(
            ProtocolError::FlowError,
        ),
        submit_spec(submit_spec(s, m1).0, m2).0 == submit_spec(s, m1).0,
{
}

/// While `Initialized`, every `body` message appends its chunk at the end
/// of the accumulated body, and only a chunk without a continuation flag
/// finalizes.
pub proof fn lemma_body_appends(s: SenderView, m: MessageView)
    requires
        s.inited,
        !s.consumed,
        kind_of(m) == Some(MessageKind::Body),
    ensures
        submit_spec(s, m).1 == Ok::<(), ProtocolError>(()),
        submit_spec(s, m).0.body == s.body + body_of(m),
        submit_spec(s, m).0.consumed == !more_of(m),
        submit_spec(s, m).0.status == s.status,
        submit_spec(s, m).0.headers == s.headers,
        submit_spec(s, m).0.inited,
{
}

/// While `Initialized`, a streaming sequence of `body` messages appends
/// the chunks in call order: the accumulated body afterwards is the prior
/// body followed by the concatenation of all the chunks, and the
/// accumulator is finalized exactly when the last chunk carried no
/// continuation flag. Status and headers stay as `start` fixed them.
pub proof fn lemma_body_concatenation(s: SenderView, ms: Seq<MessageView>)
    requires
        s.inited,
        !s.consumed,
        streaming_bodies(ms),
    ensures
        run(s, ms).body == s.body + chunks_of(ms),
        run(s, ms).consumed == (ms.len() > 0 && !more_of(ms.last())),
        run(s, ms).has_tx == (s.has_tx && !(ms.len() > 0 && !more_of(ms.last()))),
        run(s, ms).status == s.status,
        run(s, ms).headers == s.headers,
        run(s, ms).inited,
    decreases ms.len(),
{
    if ms.len() == 0 {
        assert(run(s, ms).body =~= s.body + chunks_of(ms));
    } else {
        let s1 = submit_spec(s, ms[0]).0;
        lemma_body_appends(s, ms[0]);
        if ms.len() == 1 {
            assert(ms.skip(1).len() == 0);
            assert(run(s1, ms.skip(1)) == s1);
            assert(chunks_of(ms.skip(1)) =~= Seq::<u8>::empty());
            assert(s.body + chunks_of(ms) =~= s.body + body_of(ms[0]));
            assert(ms.last() == ms[0]);
        } else {
            assert(more_of(ms[0]));
            assert(!s1.consumed);
            assert(streaming_bodies(ms.skip(1))) by {
                assert forall|i: int| 0 <= i < ms.skip(1).len() implies
                    kind_of(#[trigger] ms.skip(1)[i]) == Some(MessageKind::Body)
                    && (i < ms.skip(1).len() - 1 ==> more_of(ms.skip(1)[i])) by {
                    assert(ms.skip(1)[i] == ms[i + 1]);
                }
            }
            lemma_body_concatenation(s1, ms.skip(1));
            assert(s.body + chunks_of(ms) =~= (s.body + body_of(ms[0])) + chunks_of(ms.skip(1)));
            assert(ms.skip(1).last() == ms.last());
            assert(ms.skip(1).len() > 0);
        }
    }
}

/// A complete exchange: from `Fresh`, a valid `start` followed by body
/// chunks that stream until a finalizing one leaves the accumulator
/// finalized, with the status and the adopted headers of the `start`
/// message, a body that is exactly the concatenation of the submitted
/// chunks in call order, and the completion channel surrendered.
pub proof fn lemma_full_exchange(s: SenderView, start: MessageView, bodies: Seq<MessageView>)
    requires
        !s.inited,
        !s.consumed,
        s.body == Seq::<u8>::empty(),
        kind_of(start) == Some(MessageKind::Start),
        start.status is Some,
        streaming_bodies(bodies),
        bodies.len() > 0,
        !more_of(bodies.last()),
    ensures
        run(s, seq![start] + bodies).consumed,
        !run(s, seq![start] + bodies).has_tx,
        start.status matches Some(code) ==> run(s, seq![start] + bodies).status == code,
        run(s, seq![start] + bodies).headers == adopt(header_list_of(start)),
        run(s, seq![start] + bodies).body == chunks_of(bodies),
{
    let all = seq![start] + bodies;
    assert(all[0] == start);
    assert(all.skip(1) =~= bodies);
    let s1 = submit_spec(s, start).0;
    assert(run(s, all) == run(s1, bodies));
    assert(s1.inited && !s1.consumed);
    lemma_body_concatenation(s1, bodies);
    assert(run(s1, bodies).body =~= chunks_of(bodies));
}

/// A `body` message sent while `Fresh` fails with a flow error and changes
/// nothing — in particular, the completion channel is untouched.
pub proof fn lemma_body_before_start_fails(s: SenderView, m: MessageView)
    requires
        !s.inited,
        kind_of(m) == Some(MessageKind::Body),
    ensures
        submit_spec(s, m).0 == s,
        submit_spec(s, m).1 == Err::<(), ProtocolError>(ProtocolError::FlowError),
{
}

/// A message with an unrecognized kind fails as unsupported and leaves the
/// state unchanged.
pub proof fn lemma_unrecognized_rejected(s: SenderView, m: MessageView)
    requires
        kind_of(m) is None,
    ensures
        submit_spec(s, m).0 == s,
        submit_spec(s, m).1 == Err::<(), ProtocolError>(ProtocolError::UnsupportedMessage),
{
}

/// Finalization is terminal: once the accumulator is consumed the
/// completion channel has been surrendered, every further message fails —
/// recognized kinds with a flow error — and nothing changes, so the
/// channel is resolved at most once however many submissions follow.
pub proof fn lemma_finalized_is_terminal(s: SenderView, m: MessageView)
    requires
        s.consumed,
        sender_wf(s),
    ensures
        !s.has_tx,
        submit_spec(s, m).0 == s,
        submit_spec(s, m).1 is Err,
        kind_of(m) is Some ==> submit_spec(s, m).1 == Err::<(), ProtocolError>(
            ProtocolError::FlowError,
        ),
{
}

}
