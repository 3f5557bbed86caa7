use amp_bridge::protocol::{Message, MessageKind, ProtocolError};
use amp_bridge::receiver::Receiver;
use amp_bridge::sender::{Response, Sender};

fn empty_message() -> Message {
    Message { kind: None, status: None, headers: None, body: None, more_body: None }
}

fn start_message(status: u16, headers: Option<Vec<(Vec<u8>, Vec<u8>)>>) -> Message {
    Message {
        kind: Some("start".to_string()),
        status: Some(status),
        headers,
        body: None,
        more_body: None,
    }
}

fn body_message(body: Option<Vec<u8>>, more_body: Option<bool>) -> Message {
    Message { kind: Some("body".to_string()), status: None, headers: None, body, more_body }
}

fn channel() -> (Sender, tokio::sync::oneshot::Receiver<Response>) {
    let (tx, rx) = tokio::sync::oneshot::channel();
    (Sender::new(Some(tx)), rx)
}

#[test]
fn full_exchange_delivers_response() {
    let (mut sender, mut rx) = channel();
    let headers = vec![(b"content-type".to_vec(), b"text/plain".to_vec())];
    assert_eq!(sender.submit(&start_message(200, Some(headers))), Ok(()));
    assert!(rx.try_recv().is_err(), "no response before finalization");
    assert_eq!(sender.submit(&body_message(Some(b"hello".to_vec()), Some(true))), Ok(()));
    assert!(rx.try_recv().is_err(), "no response while more body is announced");
    assert_eq!(sender.submit(&body_message(Some(b"world".to_vec()), None)), Ok(()));
    let response = rx.try_recv().expect("finalization resolves the channel");
    assert_eq!(response.status, 200);
    assert_eq!(response.headers.len(), 1);
    let pair = response.headers.get(0);
    assert_eq!(pair.0, b"content-type".to_vec());
    assert_eq!(pair.1, b"text/plain".to_vec());
    assert_eq!(response.body, b"helloworld".to_vec());
}

#[test]
fn second_start_fails_with_flow_error() {
    let (mut sender, _rx) = channel();
    assert_eq!(sender.submit(&start_message(200, None)), Ok(()));
    assert_eq!(sender.submit(&start_message(200, None)), Err(ProtocolError::FlowError));
}

#[test]
fn body_before_start_fails_without_resolution() {
    let (mut sender, mut rx) = channel();
    assert_eq!(
        sender.submit(&body_message(Some(b"oops".to_vec()), None)),
        Err(ProtocolError::FlowError)
    );
    assert!(rx.try_recv().is_err(), "a rejected body must not resolve the channel");
    // The state machine is still fresh: a valid exchange goes through.
    assert_eq!(sender.submit(&start_message(204, None)), Ok(()));
    assert_eq!(sender.submit(&body_message(None, None)), Ok(()));
    let response = rx.try_recv().expect("the later exchange resolves the channel");
    assert_eq!(response.status, 204);
    assert_eq!(response.body, Vec::<u8>::new());
}

#[test]
fn unrecognized_kind_is_unsupported_and_harmless() {
    let (mut sender, mut rx) = channel();
    let mut odd = empty_message();
    odd.kind = Some("ping".to_string());
    assert_eq!(sender.submit(&odd), Err(ProtocolError::UnsupportedMessage));
    assert_eq!(sender.submit(&empty_message()), Err(ProtocolError::UnsupportedMessage));
    // State is unchanged: the exchange can still start.
    assert_eq!(sender.submit(&start_message(200, None)), Ok(()));
    assert_eq!(sender.submit(&body_message(None, None)), Ok(()));
    assert!(rx.try_recv().is_ok());
}

#[test]
fn start_without_status_is_unsupported() {
    let (mut sender, _rx) = channel();
    let mut start = start_message(200, None);
    start.status = None;
    assert_eq!(sender.submit(&start), Err(ProtocolError::UnsupportedMessage));
    // The message was rejected whole; a proper start still succeeds.
    assert_eq!(sender.submit(&start_message(201, None)), Ok(()));
}

#[test]
fn submissions_after_finalization_all_fail() {
    let (mut sender, mut rx) = channel();
    assert_eq!(sender.submit(&start_message(200, None)), Ok(()));
    assert_eq!(sender.submit(&body_message(Some(b"done".to_vec()), Some(false))), Ok(()));
    let response = rx.try_recv().expect("one resolution");
    assert_eq!(response.body, b"done".to_vec());
    for _ in 0..3 {
        assert_eq!(
            sender.submit(&body_message(Some(b"late".to_vec()), None)),
            Err(ProtocolError::FlowError)
        );
        assert_eq!(sender.submit(&start_message(500, None)), Err(ProtocolError::FlowError));
    }
    // The channel saw exactly the one response.
    assert!(rx.try_recv().is_err());
}

#[test]
fn malformed_header_pairs_are_dropped() {
    let (mut sender, mut rx) = channel();
    let headers = vec![
        (b"ok".to_vec(), b"v1".to_vec()),
        (b"\x00bad".to_vec(), b"v2".to_vec()),
    ];
    assert_eq!(sender.submit(&start_message(200, Some(headers))), Ok(()));
    assert_eq!(sender.submit(&body_message(None, None)), Ok(()));
    let response = rx.try_recv().unwrap();
    assert_eq!(response.headers.len(), 1);
    let pair = response.headers.get(0);
    assert_eq!(pair.0, b"ok".to_vec());
    assert_eq!(pair.1, b"v1".to_vec());
}

#[test]
fn header_with_bad_value_is_dropped() {
    let (mut sender, mut rx) = channel();
    let headers = vec![
        (b"fine".to_vec(), b"\x01ctl".to_vec()),
        (b"kept".to_vec(), b"tab\tallowed".to_vec()),
    ];
    assert_eq!(sender.submit(&start_message(200, Some(headers))), Ok(()));
    assert_eq!(sender.submit(&body_message(None, None)), Ok(()));
    let response = rx.try_recv().unwrap();
    assert_eq!(response.headers.len(), 1);
    let pair = response.headers.get(0);
    assert_eq!(pair.0, b"kept".to_vec());
    assert_eq!(pair.1, b"tab\tallowed".to_vec());
}

#[test]
fn header_names_fold_to_lowercase_and_replace() {
    let (mut sender, mut rx) = channel();
    let headers = vec![
        (b"Content-Type".to_vec(), b"text/html".to_vec()),
        (b"X-Extra".to_vec(), b"1".to_vec()),
        (b"content-type".to_vec(), b"text/plain".to_vec()),
    ];
    assert_eq!(sender.submit(&start_message(200, Some(headers))), Ok(()));
    assert_eq!(sender.submit(&body_message(None, None)), Ok(()));
    let response = rx.try_recv().unwrap();
    assert_eq!(response.headers.len(), 2);
    let first = response.headers.get(0);
    assert_eq!(first.0, b"content-type".to_vec());
    assert_eq!(first.1, b"text/plain".to_vec(), "a repeated name replaces the value in place");
    let second = response.headers.get(1);
    assert_eq!(second.0, b"x-extra".to_vec());
    assert_eq!(second.1, b"1".to_vec());
}

#[test]
fn body_defaults_are_empty_and_final() {
    let (mut sender, mut rx) = channel();
    assert_eq!(sender.submit(&start_message(200, None)), Ok(()));
    // Neither a chunk nor a continuation flag: finalizes with what there is.
    assert_eq!(sender.submit(&body_message(None, None)), Ok(()));
    let response = rx.try_recv().unwrap();
    assert_eq!(response.body, Vec::<u8>::new());
    assert_eq!(response.headers.len(), 0);
}

#[test]
fn abandoned_engine_is_tolerated() {
    let (mut sender, rx) = channel();
    drop(rx);
    assert_eq!(sender.submit(&start_message(200, None)), Ok(()));
    assert_eq!(sender.submit(&body_message(Some(b"x".to_vec()), None)), Ok(()));
    // A sender constructed without any channel behaves the same.
    let mut lone = Sender::new(None);
    assert_eq!(lone.submit(&start_message(200, None)), Ok(()));
    assert_eq!(lone.submit(&body_message(None, None)), Ok(()));
}

#[test]
fn receiver_drains_once() {
    let mut receiver = Receiver::new(b"abc".to_vec());
    assert_eq!(receiver.receive(), b"abc".to_vec());
    assert_eq!(receiver.receive(), Vec::<u8>::new());
    assert_eq!(receiver.receive(), Vec::<u8>::new());
}

#[test]
fn message_kinds_are_classified() {
    let sender = Sender::new(None);
    assert_eq!(sender.adapt_message_type(&start_message(200, None)), Ok(MessageKind::Start));
    assert_eq!(sender.adapt_message_type(&body_message(None, None)), Ok(MessageKind::Body));
    let mut odd = empty_message();
    odd.kind = Some("trailers".to_string());
    assert_eq!(sender.adapt_message_type(&odd), Err(ProtocolError::UnsupportedMessage));
    assert_eq!(
        sender.adapt_message_type(&empty_message()),
        Err(ProtocolError::UnsupportedMessage)
    );
}
