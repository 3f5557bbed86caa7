use amp_bridge::headers::Headers;
use hyper::header::{HeaderName, HeaderValue};

#[test]
fn adoption_agrees_with_hyper() {
    let names: Vec<Vec<u8>> = vec![
        b"ok".to_vec(),
        b"Content-Type".to_vec(),
        b"\x00bad".to_vec(),
        b"".to_vec(),
        b"x-a_b".to_vec(),
        b"sp ace".to_vec(),
        b"semi;colon".to_vec(),
        b"quote\"name".to_vec(),
    ];
    let values: Vec<Vec<u8>> = vec![
        b"v".to_vec(),
        b"tab\tok".to_vec(),
        b"\x7fdel".to_vec(),
        b"".to_vec(),
        b"\x80high".to_vec(),
        b"new\nline".to_vec(),
    ];
    for name in &names {
        for value in &values {
            let adopted = Headers::adopt_list(&vec![(name.clone(), value.clone())]);
            let kept =
                HeaderName::from_bytes(name).is_ok() && HeaderValue::from_bytes(value).is_ok();
            assert_eq!(
                adopted.len(),
                if kept { 1 } else { 0 },
                "adoption of {:?}: {:?} disagrees with hyper",
                name,
                value
            );
            if kept {
                let pair = adopted.get(0);
                let stored = HeaderName::from_bytes(name).unwrap();
                assert_eq!(pair.0, stored.as_str().as_bytes().to_vec());
                assert_eq!(&pair.1, value);
            }
        }
    }
}

#[test]
fn name_length_boundary() {
    let longest = vec![b'a'; 65535];
    let too_long = vec![b'a'; 65536];
    let adopted = Headers::adopt_list(&vec![
        (longest.clone(), b"v".to_vec()),
        (too_long, b"v".to_vec()),
    ]);
    assert_eq!(adopted.len(), 1);
    assert_eq!(adopted.get(0).0.len(), 65535);
}

#[test]
fn insertion_order_is_kept() {
    let raw = vec![
        (b"b-second".to_vec(), b"2".to_vec()),
        (b"a-first".to_vec(), b"1".to_vec()),
        (b"c-third".to_vec(), b"3".to_vec()),
    ];
    let adopted = Headers::adopt_list(&raw);
    assert_eq!(adopted.len(), 3);
    assert_eq!(adopted.get(0).0, b"b-second".to_vec());
    assert_eq!(adopted.get(1).0, b"a-first".to_vec());
    assert_eq!(adopted.get(2).0, b"c-third".to_vec());
}
