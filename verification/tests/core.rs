use h2server::error::{GrpcError, HttpError, IoError};
use h2server::headers::{Header, Headers, HeadersPlace, HeaderError, parse_u64_dec};
use h2server::message::SimpleHttpMessage;
use h2server::parts::{BytesStream, DataOrHeaders, DataOrHeadersWithFlag, HttpPartStream};
use h2server::resp::HttpResponse;

fn header(name: &[u8], value: &[u8]) -> Header {
    Header::new(name.to_vec(), value.to_vec())
}

fn headers(pairs: &[(&[u8], &[u8])]) -> Headers {
    let mut hs: Vec<Header> = Vec::new();
    for (n, v) in pairs {
        hs.push(header(n, v));
    }
    Headers::new(hs)
}

#[test]
fn parse_u64_dec_values() {
    assert_eq!(parse_u64_dec(b"0"), Some(0));
    assert_eq!(parse_u64_dec(b"1234"), Some(1234));
    assert_eq!(parse_u64_dec(b"0042"), Some(42));
    assert_eq!(parse_u64_dec(b""), None);
    assert_eq!(parse_u64_dec(b"12a4"), None);
    assert_eq!(parse_u64_dec(b"-1"), None);
    assert_eq!(parse_u64_dec(b"18446744073709551615"), Some(u64::MAX));
    assert_eq!(parse_u64_dec(b"18446744073709551616"), None);
    assert_eq!(parse_u64_dec(b"99999999999999999999999"), None);
}

#[test]
fn content_length_read_from_headers() {
    let h = headers(&[(b":method", b"GET"), (b"content-length", b"77")]);
    assert_eq!(h.content_length(), Some(77));
    let h = headers(&[(b":method", b"GET")]);
    assert_eq!(h.content_length(), None);
    let h = headers(&[(b"content-length", b"abc")]);
    assert_eq!(h.content_length(), None);
    // the first value wins
    let h = headers(&[(b"content-length", b"5"), (b"content-length", b"6")]);
    assert_eq!(h.content_length(), Some(5));
}

#[test]
fn status_code_read_from_headers() {
    let h = Headers::internal_error_500();
    assert_eq!(h.status_code(), Some(500));
    assert_eq!(h.len(), 1);
    assert_eq!(h.headers[0].name, b":status".to_vec());
    assert_eq!(h.headers[0].value, b"500".to_vec());
}

#[test]
fn validate_placement_grammar() {
    let ok_initial = headers(&[(b":method", b"GET"), (b":path", b"/"), (b"accept", b"*/*")]);
    assert!(ok_initial.validate(HeadersPlace::Initial).is_ok());

    let bad_initial = headers(&[(b"accept", b"*/*"), (b":path", b"/")]);
    assert_eq!(
        bad_initial.validate(HeadersPlace::Initial),
        Err(HeaderError::PseudoHeaderAfterRegular)
    );

    let ok_trailing = headers(&[(b"grpc-status", b"0")]);
    assert!(ok_trailing.validate(HeadersPlace::Trailing).is_ok());

    let bad_trailing = headers(&[(b":status", b"200")]);
    assert_eq!(
        bad_trailing.validate(HeadersPlace::Trailing),
        Err(HeaderError::PseudoHeaderInTrailers)
    );

    let empty = headers(&[]);
    assert!(empty.validate(HeadersPlace::Initial).is_ok());
    assert!(empty.validate(HeadersPlace::Trailing).is_ok());
}

#[test]
fn error_upgrades_and_descriptions() {
    let e = GrpcError::from(IoError::new("broken pipe".to_string()));
    assert!(matches!(e, GrpcError::Io(_)));
    assert_eq!(e.description(), "broken pipe");
    assert_eq!(e.to_display_string(), "io error: broken pipe");

    let e = GrpcError::from(HttpError::InvalidFrame("bad frame".to_string()));
    assert!(matches!(e, GrpcError::Http(_)));
    assert_eq!(e.description(), "bad frame");
    assert_eq!(e.to_display_string(), "http error: bad frame");

    let e = GrpcError::Other("something odd");
    assert_eq!(e.description(), "something odd");
    assert_eq!(e.to_display_string(), "other error: something odd");
}

#[test]
fn error_degrades_to_io() {
    let io = GrpcError::Io(IoError::new("gone".to_string())).into_io_error();
    assert_eq!(io.message, "gone");

    let io = GrpcError::Other("no luck").into_io_error();
    assert_eq!(io.message, "other error: no luck");

    let io = GrpcError::Http(HttpError::Other("proto")).into_io_error();
    assert_eq!(io.message, "http error: proto");
}

#[test]
fn message_fold_adds_headers_and_data() {
    let mut m = SimpleHttpMessage::new();
    m.add(DataOrHeaders::Headers(headers(&[(b":status", b"200")])));
    m.add(DataOrHeaders::Data(b"ab".to_vec()));
    m.add(DataOrHeaders::Data(b"cd".to_vec()));
    assert_eq!(m.body, b"abcd".to_vec());
    assert_eq!(m.headers.len(), 1);
    assert_eq!(m.headers.headers[0].name, b":status".to_vec());
}

#[test]
fn from_stream_of_empty_stream_fails() {
    let r = HttpResponse::from_stream(HttpPartStream::empty());
    match r.resolved {
        Err(HttpError::InvalidFrame(m)) => {
            assert_eq!(m, "empty response, expecting headers")
        },
        _ => panic!("expected an invalid-frame error"),
    }
}

#[test]
fn from_stream_of_data_first_fails() {
    let parts = vec![DataOrHeadersWithFlag::intermediate_data(b"x".to_vec())];
    let r = HttpResponse::from_stream(HttpPartStream::from_parts(parts));
    match r.resolved {
        Err(HttpError::InvalidFrame(m)) => assert_eq!(m, "data before headers"),
        _ => panic!("expected an invalid-frame error"),
    }
}

#[test]
fn from_stream_of_failed_stream_keeps_the_error() {
    let s = HttpPartStream { parts: Vec::new(), error: Some(HttpError::Other("died")) };
    let r = HttpResponse::from_stream(s);
    match r.resolved {
        Err(HttpError::Other(m)) => assert_eq!(m, "died"),
        _ => panic!("expected the stream's own error"),
    }
}

#[test]
fn from_stream_splits_headers_from_body() {
    let parts = vec![
        DataOrHeadersWithFlag::intermediate_headers(headers(&[(b":status", b"200")])),
        DataOrHeadersWithFlag::last_data(b"body".to_vec()),
    ];
    let r = HttpResponse::from_stream(HttpPartStream::from_parts(parts));
    let (h, body) = r.resolved.unwrap();
    assert_eq!(h.status_code(), Some(200));
    assert_eq!(body.parts.len(), 1);
    assert!(body.error.is_none());
    match &body.parts[0].content {
        DataOrHeaders::Data(d) => assert_eq!(d, &b"body".to_vec()),
        _ => panic!("expected a data part"),
    }
    assert!(body.parts[0].last);
}

#[test]
fn collect_concatenates_body_in_order() {
    let parts = vec![
        DataOrHeadersWithFlag::intermediate_headers(headers(&[(b":status", b"200")])),
        DataOrHeadersWithFlag::intermediate_data(b"one,".to_vec()),
        DataOrHeadersWithFlag::last_data(b"two".to_vec()),
    ];
    let r = HttpResponse::from_stream(HttpPartStream::from_parts(parts));
    let m = r.collect().unwrap();
    assert_eq!(m.body, b"one,two".to_vec());
    assert_eq!(m.headers.len(), 1);
    assert_eq!(m.headers.headers[0].name, b":status".to_vec());
    assert_eq!(m.headers.headers[0].value, b"200".to_vec());
}

#[test]
fn collect_fails_with_the_interrupting_error() {
    let s = HttpPartStream {
        parts: vec![DataOrHeadersWithFlag::intermediate_headers(headers(&[(b":status", b"200")]))],
        error: Some(HttpError::Other("cut short")),
    };
    let r = HttpResponse::from_stream(s);
    match r.collect() {
        Err(HttpError::Other(m)) => assert_eq!(m, "cut short"),
        _ => panic!("expected the interrupting error"),
    }
}

#[test]
fn into_stream_flag_leads_with_unflagged_headers() {
    let r = HttpResponse::headers_and_bytes(headers(&[(b":status", b"200")]), b"hi".to_vec());
    let s = r.into_stream_flag();
    assert!(s.error.is_none());
    assert_eq!(s.parts.len(), 2);
    match &s.parts[0].content {
        DataOrHeaders::Headers(h) => assert_eq!(h.status_code(), Some(200)),
        _ => panic!("expected the synthetic headers part first"),
    }
    // the fixed convention: the synthetic leading headers part never
    // carries the end-of-stream flag
    assert!(!s.parts[0].last);
    match &s.parts[1].content {
        DataOrHeaders::Data(d) => assert_eq!(d, &b"hi".to_vec()),
        _ => panic!("expected the body part"),
    }
}

#[test]
fn into_stream_flag_of_failed_response_fails_at_once() {
    let r = HttpResponse::err(HttpError::Other("nope"));
    let s = r.into_stream_flag();
    assert!(s.parts.is_empty());
    match s.error {
        Some(HttpError::Other(m)) => assert_eq!(m, "nope"),
        _ => panic!("expected the response's error"),
    }
}

#[test]
fn into_stream_drops_the_flags() {
    let r = HttpResponse::headers_and_bytes(headers(&[(b":status", b"200")]), b"z".to_vec());
    let s = r.into_stream();
    assert_eq!(s.items.len(), 2);
    assert!(matches!(s.items[0], DataOrHeaders::Headers(_)));
    assert!(matches!(s.items[1], DataOrHeaders::Data(_)));
    assert!(s.error.is_none());
}

#[test]
fn headers_and_bytes_stream_reframes_chunks() {
    let content = BytesStream { chunks: vec![b"a".to_vec(), b"b".to_vec()], error: None };
    let r = HttpResponse::headers_and_bytes_stream(headers(&[(b":status", b"200")]), content);
    let (_, body) = r.resolved.unwrap();
    assert_eq!(body.parts.len(), 2);
    for p in &body.parts {
        assert!(!p.last);
        assert!(matches!(p.content, DataOrHeaders::Data(_)));
    }
}

#[test]
fn message_constructor_round_trips_through_collect() {
    let m = SimpleHttpMessage {
        headers: headers(&[(b":status", b"200")]),
        body: b"payload".to_vec(),
    };
    let r = HttpResponse::message(m);
    let back = r.collect().unwrap();
    assert_eq!(back.body, b"payload".to_vec());
    assert_eq!(back.headers.headers[0].value, b"200".to_vec());
}
