use h2server::conn::{
    apply_enable_push, default_settings, dump_state_result, first_id, is_init_locally,
    out_request_or_response, server_settings, CommonToWriteMessage, ConnStateSnapshot,
    InMessageStage, ProcessHeadersOutcome, RequestOrResponse, ServerConnState,
    ServerToWriteMessage, WriteAction,
};
use h2server::error::HttpError;
use h2server::handler::response_after_handler;
use h2server::headers::{Header, Headers};
use h2server::net::{ChannelRecv, PollOutcome, StreamFromNetwork};
use h2server::parts::{DataOrHeaders, DataOrHeadersWithFlag};
use h2server::pump::{PumpAction, PumpInput, PumpToWrite};
use h2server::resp::HttpResponse;

fn headers(pairs: &[(&[u8], &[u8])]) -> Headers {
    let mut hs: Vec<Header> = Vec::new();
    for (n, v) in pairs {
        hs.push(Header::new(n.to_vec(), v.to_vec()));
    }
    Headers::new(hs)
}

fn request_headers() -> Headers {
    headers(&[(b":method", b"GET"), (b":path", b"/"), (b"content-length", b"10")])
}

#[test]
fn server_role_constants() {
    assert_eq!(out_request_or_response(), RequestOrResponse::Response);
    assert_eq!(first_id(), 2);
    assert!(is_init_locally(2));
    assert!(is_init_locally(4));
    assert!(!is_init_locally(1));
    assert!(!is_init_locally(7));
}

#[test]
fn accepted_stream_ids_strictly_increase() {
    let mut conn = ServerConnState::new();
    assert_eq!(
        conn.process_headers(1, false, request_headers()).unwrap(),
        ProcessHeadersOutcome::NewStream(1)
    );
    assert_eq!(conn.last_peer_stream_id, 1);
    assert_eq!(
        conn.process_headers(5, false, request_headers()).unwrap(),
        ProcessHeadersOutcome::NewStream(5)
    );
    assert_eq!(conn.last_peer_stream_id, 5);
    assert_eq!(conn.streams.len(), 2);
    assert_eq!(conn.streams[0].stream_id, 1);
    assert_eq!(conn.streams[1].stream_id, 5);
    // the declared content length seeds the stream's window
    assert_eq!(conn.streams[0].in_window, Some(10));

    // an id below the last accepted one is refused and creates nothing
    match conn.new_stream_from_client(3, &request_headers()) {
        Err(HttpError::Other(m)) => {
            assert_eq!(m, "stream id is le than already existing stream id")
        },
        _ => panic!("expected a protocol error"),
    }
    // so is the last accepted id itself
    match conn.new_stream_from_client(5, &request_headers()) {
        Err(HttpError::Other(m)) => {
            assert_eq!(m, "stream id is le than already existing stream id")
        },
        _ => panic!("expected a protocol error"),
    }
    assert_eq!(conn.streams.len(), 2);
    assert_eq!(conn.last_peer_stream_id, 5);
}

#[test]
fn server_parity_id_is_rejected() {
    let mut conn = ServerConnState::new();
    match conn.process_headers(2, false, request_headers()) {
        Err(HttpError::Other(m)) => {
            assert_eq!(m, "initiated stream with server id from client")
        },
        _ => panic!("expected a protocol error"),
    }
    // no stream was created
    assert!(conn.streams.is_empty());
    assert_eq!(conn.last_peer_stream_id, 0);
}

#[test]
fn invalid_initial_headers_reset_the_stream() {
    let mut conn = ServerConnState::new();
    let bad = headers(&[(b"accept", b"*/*"), (b":path", b"/")]);
    assert_eq!(
        conn.process_headers(1, false, bad).unwrap(),
        ProcessHeadersOutcome::StreamReset(1)
    );
    assert!(conn.streams.is_empty());
}

#[test]
fn trailers_without_end_stream_reset_and_connection_survives() {
    let mut conn = ServerConnState::new();
    conn.process_headers(1, false, request_headers()).unwrap();
    assert_eq!(conn.streams[0].consumer.len(), 0);

    let trailers = headers(&[(b"grpc-status", b"0")]);
    assert_eq!(
        conn.process_headers(1, false, trailers).unwrap(),
        ProcessHeadersOutcome::StreamReset(1)
    );
    // the trailers never reached the stream's consumer
    assert_eq!(conn.streams[0].consumer.len(), 0);
    assert_eq!(conn.streams[0].stage, InMessageStage::AfterInitialHeaders);

    // an unrelated stream still functions afterwards
    assert_eq!(
        conn.process_headers(3, false, request_headers()).unwrap(),
        ProcessHeadersOutcome::NewStream(3)
    );
}

#[test]
fn trailers_with_end_stream_reach_the_consumer() {
    let mut conn = ServerConnState::new();
    conn.process_headers(1, false, request_headers()).unwrap();
    let trailers = headers(&[(b"grpc-status", b"0")]);
    assert_eq!(
        conn.process_headers(1, true, trailers).unwrap(),
        ProcessHeadersOutcome::TrailersDelivered(1)
    );
    assert_eq!(conn.streams[0].consumer.len(), 1);
    let part = &conn.streams[0].consumer[0];
    assert!(part.last);
    match &part.content {
        DataOrHeaders::Headers(h) => {
            assert_eq!(h.headers[0].name, b"grpc-status".to_vec())
        },
        _ => panic!("expected the trailing headers"),
    }
    assert_eq!(conn.streams[0].stage, InMessageStage::AfterTrailingHeaders);
}

#[test]
fn invalid_trailers_reset_the_stream() {
    let mut conn = ServerConnState::new();
    conn.process_headers(1, false, request_headers()).unwrap();
    let bad = headers(&[(b":status", b"200")]);
    assert_eq!(
        conn.process_headers(1, true, bad).unwrap(),
        ProcessHeadersOutcome::StreamReset(1)
    );
    assert_eq!(conn.streams[0].consumer.len(), 0);
}

#[test]
fn snapshot_reflects_the_stream_table() {
    let mut conn = ServerConnState::new();
    conn.process_headers(1, false, request_headers()).unwrap();
    conn.process_headers(3, false, request_headers()).unwrap();
    let snap = conn.dump_state_snapshot();
    assert_eq!(snap.last_peer_stream_id, 3);
    assert_eq!(
        snap.streams,
        vec![
            (1, InMessageStage::AfterInitialHeaders),
            (3, InMessageStage::AfterInitialHeaders)
        ]
    );
}

#[test]
fn process_message_dispatches_queue_messages() {
    let mut conn = ServerConnState::new();
    conn.process_headers(7, false, request_headers()).unwrap();

    let part = DataOrHeadersWithFlag::last_data(b"x".to_vec());
    match conn.process_message(ServerToWriteMessage::from(CommonToWriteMessage::StreamPart(
        7, part,
    ))) {
        WriteAction::SendPart(id, p) => {
            assert_eq!(id, 7);
            assert!(p.last);
        },
        _ => panic!("expected the part to go to the socket"),
    }

    match conn.process_message(ServerToWriteMessage::Common(CommonToWriteMessage::ResetStream(7)))
    {
        WriteAction::SendReset(id) => assert_eq!(id, 7),
        _ => panic!("expected a reset"),
    }

    match conn.process_message(ServerToWriteMessage::Common(CommonToWriteMessage::DumpState)) {
        WriteAction::Snapshot(s) => {
            assert_eq!(s.last_peer_stream_id, 7);
            assert_eq!(s.streams.len(), 1);
        },
        _ => panic!("expected a snapshot"),
    }
}

#[test]
fn dump_state_result_maps_channel_outcomes() {
    match dump_state_result(false, None) {
        Err(HttpError::Other(m)) => assert_eq!(m, "failed to send req to dump state"),
        _ => panic!("expected the send failure"),
    }
    match dump_state_result(true, None) {
        Err(HttpError::Other(m)) => assert_eq!(m, "oneshot canceled"),
        _ => panic!("expected the abandoned-reply failure"),
    }
    let snap = ConnStateSnapshot { last_peer_stream_id: 9, streams: Vec::new() };
    match dump_state_result(true, Some(snap)) {
        Ok(s) => assert_eq!(s.last_peer_stream_id, 9),
        _ => panic!("expected the snapshot"),
    }
}

#[test]
fn panicking_handler_yields_a_500_with_the_message() {
    let r = response_after_handler(Err(b"boom".to_vec()));
    let (h, body) = r.resolved.unwrap();
    assert_eq!(h.status_code(), Some(500));
    assert_eq!(body.parts.len(), 1);
    assert!(body.parts[0].last);
    match &body.parts[0].content {
        DataOrHeaders::Data(d) => assert_eq!(d, &b"handler panicked: boom".to_vec()),
        _ => panic!("expected the synthetic body"),
    }
}

#[test]
fn well_behaved_handler_response_passes_through() {
    let resp = HttpResponse::headers_and_bytes(
        headers(&[(b":status", b"200")]),
        b"fine".to_vec(),
    );
    let r = response_after_handler(Ok(resp));
    let (h, _) = r.resolved.unwrap();
    assert_eq!(h.status_code(), Some(200));
}

#[test]
fn pump_posts_parts_within_the_window() {
    let mut pump = PumpToWrite::new(11, 10);
    let part = DataOrHeadersWithFlag::intermediate_data(b"12345".to_vec());
    match pump.step(PumpInput::Part(part)) {
        PumpAction::Enqueue(ServerToWriteMessage::Common(CommonToWriteMessage::StreamPart(
            id,
            p,
        ))) => {
            assert_eq!(id, 11);
            assert!(!p.last);
        },
        _ => panic!("expected the part on the queue"),
    }
    assert_eq!(pump.out_window, 5);
    assert!(!pump.done);

    // headers cost no credit
    let trailers = DataOrHeadersWithFlag::intermediate_headers(headers(&[(b"k", b"v")]));
    assert!(matches!(pump.step(PumpInput::Part(trailers)), PumpAction::Enqueue(_)));
    assert_eq!(pump.out_window, 5);

    // the final part ends the pump
    let last = DataOrHeadersWithFlag::last_data(b"12345".to_vec());
    assert!(matches!(pump.step(PumpInput::Part(last)), PumpAction::Enqueue(_)));
    assert_eq!(pump.out_window, 0);
    assert!(pump.done);
}

#[test]
fn pump_waits_for_credit() {
    let mut pump = PumpToWrite::new(11, 4);
    let part = DataOrHeadersWithFlag::intermediate_data(b"12345".to_vec());
    match pump.step(PumpInput::Part(part)) {
        PumpAction::Wait(p) => match p.content {
            DataOrHeaders::Data(d) => assert_eq!(d, b"12345".to_vec()),
            _ => panic!("expected the held part back"),
        },
        _ => panic!("expected the pump to wait"),
    }
    assert_eq!(pump.out_window, 4);
    assert!(!pump.done);

    pump.add_window(1);
    assert_eq!(pump.out_window, 5);
    let part = DataOrHeadersWithFlag::intermediate_data(b"12345".to_vec());
    assert!(matches!(pump.step(PumpInput::Part(part)), PumpAction::Enqueue(_)));
}

#[test]
fn pump_surfaces_errors_as_resets() {
    let mut pump = PumpToWrite::new(13, 100);
    match pump.step(PumpInput::Failed(HttpError::Other("chunk panicked"))) {
        PumpAction::Enqueue(ServerToWriteMessage::Common(CommonToWriteMessage::ResetStream(
            id,
        ))) => assert_eq!(id, 13),
        _ => panic!("expected a reset"),
    }
    assert!(pump.done);

    let mut pump = PumpToWrite::new(13, 100);
    assert!(matches!(pump.step(PumpInput::Eof), PumpAction::Finished));
    assert!(pump.done);
}

#[test]
fn pump_window_saturates() {
    let mut pump = PumpToWrite::new(1, u64::MAX - 1);
    pump.add_window(5);
    assert_eq!(pump.out_window, u64::MAX);
}

#[test]
fn poll_step_surfaces_each_channel_outcome() {
    let part = DataOrHeadersWithFlag::last_data(b"p".to_vec());
    match StreamFromNetwork::poll_step(ChannelRecv::Item(part)) {
        PollOutcome::Ready(p) => assert!(p.last),
        _ => panic!("expected the part"),
    }
    assert!(matches!(
        StreamFromNetwork::poll_step(ChannelRecv::Empty),
        PollOutcome::NotReady
    ));
    assert!(matches!(StreamFromNetwork::poll_step(ChannelRecv::Eof), PollOutcome::End));
    match StreamFromNetwork::poll_step(ChannelRecv::Failed(HttpError::Other("bad"))) {
        PollOutcome::Failed(HttpError::Other(m)) => assert_eq!(m, "bad"),
        _ => panic!("expected the forwarded error"),
    }
    match StreamFromNetwork::poll_step(ChannelRecv::Disconnected) {
        PollOutcome::Failed(HttpError::Other(m)) => {
            assert_eq!(m, "channel disconnected, likely conn died")
        },
        _ => panic!("expected the disconnect error"),
    }
}

#[test]
fn settings_disable_push_for_the_server() {
    let d = default_settings();
    assert_eq!(d.header_table_size, 4096);
    assert!(d.enable_push);
    assert_eq!(d.max_concurrent_streams, None);
    assert_eq!(d.initial_window_size, 65535);
    assert_eq!(d.max_frame_size, 16384);
    assert_eq!(d.max_header_list_size, None);

    let s = server_settings();
    assert!(!s.enable_push);
    assert_eq!(s.header_table_size, 4096);
    assert_eq!(s.initial_window_size, 65535);

    let mut s = default_settings();
    apply_enable_push(&mut s, false);
    assert!(!s.enable_push);
}

#[test]
fn pump_parts_posts_in_order_and_stops_at_last() {
    let mut pump = PumpToWrite::new(21, 100);
    let parts = vec![
        DataOrHeadersWithFlag::intermediate_headers(headers(&[(b":status", b"200")])),
        DataOrHeadersWithFlag::intermediate_data(b"a".to_vec()),
        DataOrHeadersWithFlag::last_data(b"b".to_vec()),
        DataOrHeadersWithFlag::intermediate_data(b"never sent".to_vec()),
    ];
    let queue = pump.pump_parts(parts);
    assert_eq!(queue.len(), 3);
    let expect: [&[u8]; 2] = [b"a", b"b"];
    for (k, want) in expect.iter().enumerate() {
        match &queue[k + 1] {
            ServerToWriteMessage::Common(CommonToWriteMessage::StreamPart(id, p)) => {
                assert_eq!(*id, 21);
                match &p.content {
                    DataOrHeaders::Data(d) => assert_eq!(d, &want.to_vec()),
                    _ => panic!("expected a data part"),
                }
            },
            _ => panic!("expected a stream part"),
        }
    }
    match &queue[0] {
        ServerToWriteMessage::Common(CommonToWriteMessage::StreamPart(_, p)) => {
            assert!(matches!(p.content, DataOrHeaders::Headers(_)))
        },
        _ => panic!("expected the headers part first"),
    }
}

#[test]
fn closed_stream_leaves_the_table_but_its_id_stays_spent() {
    let mut conn = ServerConnState::new();
    conn.process_headers(1, false, request_headers()).unwrap();
    conn.process_headers(3, false, request_headers()).unwrap();
    conn.close_stream(1);
    assert_eq!(conn.streams.len(), 1);
    assert_eq!(conn.streams[0].stream_id, 3);
    assert_eq!(conn.last_peer_stream_id, 3);
    // closing an id that is not in the table changes nothing
    conn.close_stream(1);
    assert_eq!(conn.streams.len(), 1);
    // the closed id can never be accepted again
    match conn.new_stream_from_client(1, &request_headers()) {
        Err(HttpError::Other(m)) => {
            assert_eq!(m, "stream id is le than already existing stream id")
        },
        _ => panic!("expected a protocol error"),
    }
}
