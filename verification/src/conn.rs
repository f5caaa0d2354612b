//! Server specialization of the connection: stream-id validation, the
//! per-stream table owned by the read-processing task, header placement
//! handling, the outbound-message taxonomy of the single writer queue,
//! and the diagnostic snapshot.
//!
//! The server's role binds the id rules: the server would initiate even
//! ids, so a client-initiated stream must carry an odd id, strictly
//! greater than every id accepted before. The read task owns the stream
//! table exclusively, so every transition here is a plain function of the
//! current state and the inbound event; the surrounding event loop only
//! moves messages.

use vstd::prelude::*;
use crate::error::HttpError;
use crate::error::HttpErrorView;
use crate::headers::Headers;
use crate::headers::HeadersPlace;
use crate::headers::spec_content_length;
use crate::headers::valid_for_place;
use crate::parts::DataOrHeadersWithFlag;
use crate::parts::DataOrHeaders;
use crate::parts::PartContent;
use crate::parts::PartView;

verus! {

/// Which kind of message this endpoint initiates on the wire.
#[derive(Clone, Copy, Debug, PartialEq, Eq, Structural)]
pub enum RequestOrResponse {
    Request,
    Response,
}

/// The server writes responses.
pub fn out_request_or_response() -> (r: RequestOrResponse)
    ensures
        r == RequestOrResponse::Response,
{
    RequestOrResponse::Response
}

/// The first stream id this endpoint may initiate itself: the server
/// side owns the even ids.
pub fn first_id() -> (r: u32)
    ensures
        r == 2u32,
{
    2
}

/// Whether a stream id shares parity with locally-initiated ids, i.e.
/// would have been initiated by this server.
pub fn is_init_locally(stream_id: u32) -> (r: bool)
    ensures
        r == (stream_id % 2 == 0),
{
    stream_id % 2 == 0
}

/// Where an inbound message stands for a stream.
#[derive(Clone, Copy, Debug, PartialEq, Eq, Structural)]
pub enum InMessageStage {
    /// The initial headers were accepted; body parts may follow.
    AfterInitialHeaders,
    /// Trailing headers were delivered; nothing more may arrive.
    AfterTrailingHeaders,
}

/// Server-only per-stream data. The server needs nothing beyond what the
/// generic stream carries.
pub struct ServerStreamData {}

/// One entry of the stream table: a peer-initiated stream that was
/// accepted and not yet torn down.
pub struct ServerStream {
    pub stream_id: u32,
    pub stage: InMessageStage,
    /// The parts forwarded so far to this stream's handler-visible
    /// consumer channel (the model of the channel's contents).
    pub consumer: Vec<DataOrHeadersWithFlag>,
    /// The declared content length of the request, the initial
    /// flow-control credit, if the peer declared one.
    pub in_window: Option<u64>,
    pub specific: ServerStreamData,
}

/// The mathematical value of one stream entry.
pub ghost struct StreamView {
    pub stream_id: u32,
    pub stage: InMessageStage,
    pub consumer: Seq<PartView>,
    pub in_window: Option<u64>,
}

impl View for ServerStream {
    type V = StreamView;

    open spec fn view(&self) -> StreamView {
        StreamView {
            stream_id: self.stream_id,
            stage: self.stage,
            consumer: self.consumer@.map_values(|p: DataOrHeadersWithFlag| p@),
            in_window: self.in_window,
        }
    }
}

impl ServerStream {
    /// Forwards newly-arrived headers into this stream's consumer
    /// channel, flagged with whether they end the stream.
    pub fn set_headers(&mut self, headers: Headers, last: bool)
        ensures
            final(self)@ == (StreamView {
                consumer: old(self)@.consumer.push(
                    PartView { content: PartContent::Headers(headers@), last },
                ),
                ..old(self)@
            }),
    {
        let ghost hv = headers@;
        let ghost before = self@;
        self.consumer.push(DataOrHeadersWithFlag { content: DataOrHeaders::Headers(headers), last });
        proof {
            assert(self@.consumer =~= before.consumer.push(
                PartView { content: PartContent::Headers(hv), last },
            ));
        }
    }
}

/// The connection state owned by the read-processing task.
pub struct ServerConnState {
    /// The greatest peer-initiated stream id accepted so far; zero
    /// before any stream was accepted.
    pub last_peer_stream_id: u32,
    pub streams: Vec<ServerStream>,
}

/// The mathematical value of the connection state.
pub ghost struct ConnView {
    pub last_peer_stream_id: u32,
    pub streams: Seq<StreamView>,
}

impl View for ServerConnState {
    type V = ConnView;

    open spec fn view(&self) -> ConnView {
        ConnView {
            last_peer_stream_id: self.last_peer_stream_id,
            streams: self.streams@.map_values(|s: ServerStream| s@),
        }
    }
}

/// Whether the table holds an entry for `stream_id`.
pub open spec fn has_stream(c: ConnView, stream_id: u32) -> bool {
    exists|k: int| 0 <= k < c.streams.len() && (#[trigger] c.streams[k]).stream_id == stream_id
}

/// The index of the entry for `stream_id`; meaningful only when
/// `has_stream` holds (unique under `wf_conn`).
pub open spec fn stream_index_of(c: ConnView, stream_id: u32) -> int {
    choose|k: int| 0 <= k < c.streams.len() && (#[trigger] c.streams[k]).stream_id == stream_id
}

/// Well-formedness of the connection state: stream ids are pairwise
/// distinct, odd (peer-initiated), and no greater than the last accepted
/// id.
pub open spec fn wf_conn(c: ConnView) -> bool {
    &&& forall|k1: int, k2: int|
        0 <= k1 < k2 < c.streams.len() ==> (#[trigger] c.streams[k1]).stream_id != (
        #[trigger] c.streams[k2]).stream_id
    &&& forall|k: int|
        0 <= k < c.streams.len() ==> (#[trigger] c.streams[k]).stream_id % 2 == 1
    &&& forall|k: int|
        0 <= k < c.streams.len() ==> (#[trigger] c.streams[k]).stream_id
            <= c.last_peer_stream_id
}

/// What accepting a HEADERS frame for a fresh stream id yields: an id of
/// the server's own parity is a protocol error, an id not strictly above
/// the last accepted one is a protocol error; otherwise the id becomes
/// the last accepted one and a new entry joins the table, its initial
/// flow-control credit drawn from the declared content length.
pub open spec fn spec_accept_stream(c: ConnView, stream_id: u32, h: Seq<(Seq<u8>, Seq<u8>)>) -> Result<
    ConnView,
    HttpErrorView,
> {
    if stream_id % 2 == 0 {
        Err(HttpErrorView::Other("initiated stream with server id from client"@))
    } else if stream_id <= c.last_peer_stream_id {
        Err(HttpErrorView::Other("stream id is le than already existing stream id"@))
    } else {
        Ok(
            ConnView {
                last_peer_stream_id: stream_id,
                streams: c.streams.push(
                    StreamView {
                        stream_id,
                        stage: InMessageStage::AfterInitialHeaders,
                        consumer: Seq::empty(),
                        in_window: spec_content_length(h),
                    },
                ),
            },
        )
    }
}

/// What delivering trailing headers to an open stream yields: the part,
/// flagged last, is appended to that stream's consumer channel and the
/// stream's stage records the trailers.
pub open spec fn spec_deliver_trailers(c: ConnView, stream_id: u32, h: Seq<(Seq<u8>, Seq<u8>)>) -> ConnView {
    let k = stream_index_of(c, stream_id);
    let s = c.streams[k];
    ConnView {
        last_peer_stream_id: c.last_peer_stream_id,
        streams: c.streams.update(
            k,
            StreamView {
                stage: InMessageStage::AfterTrailingHeaders,
                consumer: s.consumer.push(
                    PartView { content: PartContent::Headers(h), last: true },
                ),
                ..s
            },
        ),
    }
}

/// How the connection reacts to one inbound HEADERS event.
#[derive(Clone, Copy, Debug, PartialEq, Eq, Structural)]
pub enum ProcessHeadersOutcome {
    /// A new stream was accepted; a handler task must be spawned for it.
    NewStream(u32),
    /// Trailing headers were forwarded to the stream's consumer.
    TrailersDelivered(u32),
    /// The frame was rejected; a RST-STREAM with a protocol-error code
    /// must be sent for this id and the connection goes on serving.
    StreamReset(u32),
}

/// What processing inbound headers yields: the state after the event and
/// either the reaction or the connection-fatal error. Headers that fail
/// the placement grammar reset only their stream; a fresh id is accepted
/// or refused by [`spec_accept_stream`]; trailing headers without the
/// end-of-stream flag reset the stream; otherwise they are delivered.
pub open spec fn spec_process_headers(
    c: ConnView,
    stream_id: u32,
    end_stream: bool,
    h: Seq<(Seq<u8>, Seq<u8>)>,
) -> (ConnView, Result<ProcessHeadersOutcome, HttpErrorView>) {
    let existing = has_stream(c, stream_id);
    let place = if existing {
        HeadersPlace::Trailing
    } else {
        HeadersPlace::Initial
    };
    if !valid_for_place(h, place) {
        (c, Ok(ProcessHeadersOutcome::StreamReset(stream_id)))
    } else if !existing {
        match spec_accept_stream(c, stream_id, h) {
            Ok(c2) => (c2, Ok(ProcessHeadersOutcome::NewStream(stream_id))),
            Err(e) => (c, Err(e)),
        }
    } else if !end_stream {
        (c, Ok(ProcessHeadersOutcome::StreamReset(stream_id)))
    } else {
        (
            spec_deliver_trailers(c, stream_id, h),
            Ok(ProcessHeadersOutcome::TrailersDelivered(stream_id)),
        )
    }
}

impl ServerConnState {
    /// The state of a connection before any stream was accepted.
    pub fn new() -> (r: ServerConnState)
        ensures
            r@.last_peer_stream_id == 0,
            r@.streams == Seq::<StreamView>::empty(),
            wf_conn(r@),
    {
        let r = ServerConnState { last_peer_stream_id: 0, streams: Vec::new() };
        proof {
            assert(r@.streams =~= Seq::<StreamView>::empty());
        }
        r
    }

    /// The index of the table entry for `stream_id`, if there is one.
    fn find_stream(&self, stream_id: u32) -> (r: Option<usize>)
        ensures
            match r {
                Some(k) => k < self@.streams.len() && self@.streams[k as int].stream_id
                    == stream_id,
                None => !has_stream(self@, stream_id),
            },
    {
        let mut i: usize = 0;
        while i < self.streams.len()
            invariant
                0 <= i <= self@.streams.len(),
                self@.streams.len() == self.streams@.len(),
                forall|k: int|
                    0 <= k < i ==> (#[trigger] self@.streams[k]).stream_id != stream_id,
            decreases self@.streams.len() - i,
        {
            if self.streams[i].stream_id == stream_id {
                return Some(i);
            }
            i = i + 1;
        }
        None
    }

    /// Validates and accepts a HEADERS frame that names a fresh stream
    /// id, per [`spec_accept_stream`]; on a protocol violation the state
    /// is unchanged.
    pub fn new_stream_from_client(&mut self, stream_id: u32, headers: &Headers) -> (r: Result<
        (),
        HttpError,
    >)
        ensures
            match r {
                Ok(()) => spec_accept_stream(old(self)@, stream_id, headers@) == Ok::<
                    _,
                    HttpErrorView,
                >(final(self)@),
                Err(e) => spec_accept_stream(old(self)@, stream_id, headers@) == Err::<
                    ConnView,
                    _,
                >(e@) && final(self)@ == old(self)@,
            },
            wf_conn(old(self)@) ==> wf_conn(final(self)@),
    {
        let ghost before = self@;
        if is_init_locally(stream_id) {
            return Err(HttpError::Other("initiated stream with server id from client"));
        }
        if stream_id <= self.last_peer_stream_id {
            return Err(HttpError::Other("stream id is le than already existing stream id"));
        }
        self.last_peer_stream_id = stream_id;
        let entry = ServerStream {
            stream_id,
            stage: InMessageStage::AfterInitialHeaders,
            consumer: Vec::new(),
            in_window: headers.content_length(),
            specific: ServerStreamData {},
        };
        let ghost ev = entry@;
        self.streams.push(entry);
        proof {
            assert(ev.consumer =~= Seq::<PartView>::empty());
            assert(self@.streams =~= before.streams.push(ev));
            if wf_conn(before) {
                assert forall|k: int|
                    0 <= k < self@.streams.len() implies (#[trigger] self@.streams[k]).stream_id % 2
                    == 1 && self@.streams[k].stream_id <= self@.last_peer_stream_id by {
                    if k < before.streams.len() {
                        assert(self@.streams[k] == before.streams[k]);
                    }
                }
            }
        }
        Ok(())
    }

    /// Processes one inbound HEADERS event, per [`spec_process_headers`]:
    /// validates the placement grammar, accepts a fresh stream, refuses
    /// trailers that do not end the stream, and otherwise forwards them
    /// to the stream's consumer.
    pub fn process_headers(&mut self, stream_id: u32, end_stream: bool, headers: Headers) -> (r:
        Result<ProcessHeadersOutcome, HttpError>)
        requires
            wf_conn(old(self)@),
        ensures
            wf_conn(final(self)@),
            ({
                let (c2, res) = spec_process_headers(old(self)@, stream_id, end_stream, headers@);
                final(self)@ == c2 && (match r {
                    Ok(o) => res == Ok::<_, HttpErrorView>(o),
                    Err(e) => res == Err::<ProcessHeadersOutcome, _>(e@),
                })
            }),
    {
        let ghost before = self@;
        let found = self.find_stream(stream_id);
        let place = match found {
            Some(_) => HeadersPlace::Trailing,
            None => HeadersPlace::Initial,
        };
        proof {
            if found is Some {
                assert(has_stream(before, stream_id));
            }
        }
        if self.validate_headers_err(&headers, place) {
            return Ok(ProcessHeadersOutcome::StreamReset(stream_id));
        }
        match found {
            None => {
                match self.new_stream_from_client(stream_id, &headers) {
                    Ok(()) => Ok(ProcessHeadersOutcome::NewStream(stream_id)),
                    Err(e) => Err(e),
                }
            },
            Some(k) => {
                if !end_stream {
                    return Ok(ProcessHeadersOutcome::StreamReset(stream_id));
                }
                let ghost hv = headers@;
                proof {
                    let j = stream_index_of(before, stream_id);
                    assert(0 <= j < before.streams.len() && before.streams[j].stream_id
                        == stream_id);
                    assert(j == k as int);
                }
                self.streams[k].set_headers(headers, true);
                self.streams[k].stage = InMessageStage::AfterTrailingHeaders;
                proof {
                    assert(self@.streams =~= spec_deliver_trailers(before, stream_id, hv).streams);
                    assert forall|k1: int, k2: int|
                        0 <= k1 < k2 < self@.streams.len() implies (
                    #[trigger] self@.streams[k1]).stream_id != (
                    #[trigger] self@.streams[k2]).stream_id by {
                        assert(self@.streams[k1].stream_id == before.streams[k1].stream_id);
                        assert(self@.streams[k2].stream_id == before.streams[k2].stream_id);
                    }
                    assert forall|k1: int|
                        0 <= k1 < self@.streams.len() implies (
                    #[trigger] self@.streams[k1]).stream_id % 2 == 1 && self@.streams[k1].stream_id
                        <= self@.last_peer_stream_id by {
                        assert(self@.streams[k1].stream_id == before.streams[k1].stream_id);
                    }
                }
                Ok(ProcessHeadersOutcome::TrailersDelivered(stream_id))
            },
        }
    }

    /// Tears one stream down once its response pump has completed —
    /// normally, by error, or because the connection dropped it: the
    /// entry leaves the table. The id stays counted by
    /// `last_peer_stream_id`, so it can never be accepted again.
    pub fn close_stream(&mut self, stream_id: u32)
        requires
            wf_conn(old(self)@),
        ensures
            wf_conn(final(self)@),
            final(self)@.last_peer_stream_id == old(self)@.last_peer_stream_id,
            has_stream(old(self)@, stream_id) ==> final(self)@.streams == old(
                self,
            )@.streams.remove(stream_index_of(old(self)@, stream_id)),
            !has_stream(old(self)@, stream_id) ==> final(self)@ == old(self)@,
            !has_stream(final(self)@, stream_id),
    {
        let ghost before = self@;
        match self.find_stream(stream_id) {
            None => {},
            Some(k) => {
                proof {
                    let j = stream_index_of(before, stream_id);
                    assert(0 <= j < before.streams.len() && before.streams[j].stream_id
                        == stream_id);
                    assert(j == k as int);
                }
                let ghost prev = self.streams@;
                self.streams.remove(k);
                proof {
                    assert forall|j: int| 0 <= j < self@.streams.len() implies (
                    #[trigger] self@.streams[j]) == before.streams.remove(k as int)[j] by {
                        if j < k {
                            assert(self.streams@[j] == prev[j]);
                        } else {
                            assert(self.streams@[j] == prev[j + 1]);
                        }
                    }
                    assert(self@.streams =~= before.streams.remove(k as int));
                    assert forall|j: int|
                        0 <= j < self@.streams.len() implies !((#[trigger] self@.streams[j]).stream_id
                        == stream_id) by {
                        if j < k {
                            assert(self@.streams[j] == before.streams[j]);
                        } else {
                            assert(self@.streams[j] == before.streams[j + 1]);
                        }
                    }
                    assert forall|j1: int, j2: int|
                        0 <= j1 < j2 < self@.streams.len() implies (
                    #[trigger] self@.streams[j1]).stream_id != (
                    #[trigger] self@.streams[j2]).stream_id by {
                        let o1: int = if j1 < k {
                            j1
                        } else {
                            j1 + 1
                        };
                        let o2: int = if j2 < k {
                            j2
                        } else {
                            j2 + 1
                        };
                        assert(self@.streams[j1] == before.streams[o1]);
                        assert(self@.streams[j2] == before.streams[o2]);
                    }
                    assert forall|j: int|
                        0 <= j < self@.streams.len() implies (#[trigger] self@.streams[j]).stream_id
                        % 2 == 1 && self@.streams[j].stream_id <= self@.last_peer_stream_id by {
                        if j < k {
                            assert(self@.streams[j] == before.streams[j]);
                        } else {
                            assert(self@.streams[j] == before.streams[j + 1]);
                        }
                    }
                }
            },
        }
    }

    /// Whether the headers fail the placement grammar (`true` means a
    /// violation).
    fn validate_headers_err(&self, headers: &Headers, place: HeadersPlace) -> (r: bool)
        ensures
            r == !valid_for_place(headers@, place),
    {
        match headers.validate(place) {
            Ok(()) => false,
            Err(_) => true,
        }
    }

    /// A point-in-time snapshot of the stream table for diagnostics.
    /// The writer task answers the snapshot request from the state that
    /// is current at the request's position in the queue, so the copy is
    /// serialized with respect to all other writer-queue traffic.
    pub fn dump_state_snapshot(&self) -> (r: ConnStateSnapshot)
        ensures
            r@ == spec_snapshot(self@),
    {
        let mut entries: Vec<(u32, InMessageStage)> = Vec::new();
        let mut i: usize = 0;
        while i < self.streams.len()
            invariant
                0 <= i <= self@.streams.len(),
                self@.streams.len() == self.streams@.len(),
                entries@.len() == i,
                forall|k: int|
                    0 <= k < i ==> entries@[k] == ((#[trigger] self@.streams[k]).stream_id,
                    self@.streams[k].stage),
            decreases self@.streams.len() - i,
        {
            let s = &self.streams[i];
            entries.push((s.stream_id, s.stage));
            i = i + 1;
        }
        let r = ConnStateSnapshot { last_peer_stream_id: self.last_peer_stream_id, streams: entries };
        proof {
            assert(r@.streams =~= spec_snapshot(self@).streams);
        }
        r
    }

    /// Handles one message pulled off the writer queue: unwraps the
    /// server variant and performs the common handling. Framed parts and
    /// resets go to the socket; a snapshot request is answered from the
    /// current state.
    pub fn process_message(&self, message: ServerToWriteMessage) -> (r: WriteAction)
        ensures
            match message {
                ServerToWriteMessage::Common(common) => match common {
                    CommonToWriteMessage::StreamPart(id, p) => r == WriteAction::SendPart(id, p),
                    CommonToWriteMessage::ResetStream(id) => r == WriteAction::SendReset(id),
                    CommonToWriteMessage::DumpState => r matches WriteAction::Snapshot(s) && s@
                        == spec_snapshot(self@),
                },
            },
    {
        match message {
            ServerToWriteMessage::Common(common) => match common {
                CommonToWriteMessage::StreamPart(id, p) => WriteAction::SendPart(id, p),
                CommonToWriteMessage::ResetStream(id) => WriteAction::SendReset(id),
                CommonToWriteMessage::DumpState => WriteAction::Snapshot(
                    self.dump_state_snapshot(),
                ),
            },
        }
    }
}

/// A message on the single writer queue that is shared by every part of
/// the connection: the only path by which any frame reaches the socket.
pub enum CommonToWriteMessage {
    /// Post one framed part of the stream with this id.
    StreamPart(u32, DataOrHeadersWithFlag),
    /// Reset the stream with this id with a protocol-error code.
    ResetStream(u32),
    /// Answer with a snapshot of the connection state, serialized with
    /// respect to all other queue traffic.
    DumpState,
}

/// The server's outbound-message variant type. The server adds no
/// variant of its own beyond the connection-generic messages.
pub enum ServerToWriteMessage {
    Common(CommonToWriteMessage),
}

impl From<CommonToWriteMessage> for ServerToWriteMessage {
    /// A connection-generic message enters the server's queue unchanged.
    fn from(m: CommonToWriteMessage) -> (r: ServerToWriteMessage) {
        ServerToWriteMessage::Common(m)
    }
}

impl vstd::std_specs::convert::FromSpecImpl<CommonToWriteMessage> for ServerToWriteMessage {
    open spec fn obeys_from_spec() -> bool {
        true
    }

    open spec fn from_spec(m: CommonToWriteMessage) -> ServerToWriteMessage {
        ServerToWriteMessage::Common(m)
    }
}

/// What the writer task must do with one queued message.
pub enum WriteAction {
    /// Hand this framed part to the frame engine for the socket.
    SendPart(u32, DataOrHeadersWithFlag),
    /// Emit RST-STREAM with a protocol-error code for this stream.
    SendReset(u32),
    /// Deliver this snapshot on the requester's reply channel.
    Snapshot(ConnStateSnapshot),
}

/// A copy of the stream table taken at one point of the writer queue.
pub struct ConnStateSnapshot {
    pub last_peer_stream_id: u32,
    /// Each accepted stream's id and stage.
    pub streams: Vec<(u32, InMessageStage)>,
}

/// The mathematical value of a snapshot.
pub ghost struct SnapshotView {
    pub last_peer_stream_id: u32,
    pub streams: Seq<(u32, InMessageStage)>,
}

impl View for ConnStateSnapshot {
    type V = SnapshotView;

    open spec fn view(&self) -> SnapshotView {
        SnapshotView {
            last_peer_stream_id: self.last_peer_stream_id,
            streams: self.streams@,
        }
    }
}

/// What a snapshot of a connection state holds: the last accepted id and
/// each stream's id and stage, in table order.
pub open spec fn spec_snapshot(c: ConnView) -> SnapshotView {
    SnapshotView {
        last_peer_stream_id: c.last_peer_stream_id,
        streams: c.streams.map_values(|s: StreamView| (s.stream_id, s.stage)),
    }
}

/// Turns the outcome of a snapshot request into the caller's result: the
/// request may fail to enter the writer queue, the reply channel may be
/// abandoned before the answer, else the snapshot arrives.
pub fn dump_state_result(sent: bool, reply: Option<ConnStateSnapshot>) -> (r: Result<
    ConnStateSnapshot,
    HttpError,
>)
    ensures
        !sent ==> (r matches Err(e) && e@ == HttpErrorView::Other(
            "failed to send req to dump state"@,
        )),
        sent && reply is None ==> (r matches Err(e) && e@ == HttpErrorView::Other(
            "oneshot canceled"@,
        )),
        sent ==> (reply matches Some(s) ==> r == Ok::<_, HttpError>(s)),
    {
    if !sent {
        return Err(HttpError::Other("failed to send req to dump state"));
    }
    match reply {
        None => Err(HttpError::Other("oneshot canceled")),
        Some(s) => Ok(s),
    }
}

/// The ids accepted as new peer-initiated streams are strictly
/// increasing: every acceptance requires an id strictly above the last
/// accepted one and records it, so of any two consecutive acceptances
/// the later carries the greater id.
pub proof fn lemma_accepted_ids_strictly_increase(
    c0: ConnView,
    id1: u32,
    h1: Seq<(Seq<u8>, Seq<u8>)>,
    id2: u32,
    h2: Seq<(Seq<u8>, Seq<u8>)>,
)
    requires
        spec_accept_stream(c0, id1, h1) is Ok,
        spec_accept_stream(spec_accept_stream(c0, id1, h1)->Ok_0, id2, h2) is Ok,
    ensures
        id1 > c0.last_peer_stream_id,
        id2 > id1,
{
}

/// One inbound HEADERS event, as a run of the connection sees it.
pub ghost struct HeadersEvent {
    pub stream_id: u32,
    pub end_stream: bool,
    pub headers: Seq<(Seq<u8>, Seq<u8>)>,
}

/// The state after a run of inbound HEADERS events, applied in order.
pub open spec fn spec_run(c: ConnView, events: Seq<HeadersEvent>) -> ConnView
    decreases events.len(),
{
    if events.len() == 0 {
        c
    } else {
        let e = events[0];
        spec_run(
            spec_process_headers(c, e.stream_id, e.end_stream, e.headers).0,
            events.drop_first(),
        )
    }
}

/// The ids accepted as new peer-initiated streams along a run, in order.
pub open spec fn accepted_ids(c: ConnView, events: Seq<HeadersEvent>) -> Seq<u32>
    decreases events.len(),
{
    if events.len() == 0 {
        Seq::empty()
    } else {
        let e = events[0];
        let step = spec_process_headers(c, e.stream_id, e.end_stream, e.headers);
        let rest = accepted_ids(step.0, events.drop_first());
        if step.1 == Ok::<_, HttpErrorView>(ProcessHeadersOutcome::NewStream(e.stream_id)) {
            seq![e.stream_id] + rest
        } else {
            rest
        }
    }
}

/// Only accepting a new stream moves the accepted-id bound, and then to
/// the accepted id itself.
proof fn lemma_process_headers_last_id(
    c: ConnView,
    stream_id: u32,
    end_stream: bool,
    h: Seq<(Seq<u8>, Seq<u8>)>,
)
    ensures
        ({
            let step = spec_process_headers(c, stream_id, end_stream, h);
            if step.1 == Ok::<_, HttpErrorView>(ProcessHeadersOutcome::NewStream(stream_id)) {
                step.0.last_peer_stream_id == stream_id && stream_id > c.last_peer_stream_id
            } else {
                step.0.last_peer_stream_id == c.last_peer_stream_id
            }
        }),
{
}

/// For all accepted stream ids: along any run of inbound HEADERS events,
/// the sequence of ids accepted as new peer-initiated streams is strictly
/// increasing, and every one of them strictly exceeds the bound the run
/// started from.
pub proof fn lemma_run_accepted_ids_increase(c: ConnView, events: Seq<HeadersEvent>)
    ensures
        forall|k: int|
            0 <= k < accepted_ids(c, events).len() ==> (#[trigger] accepted_ids(c, events)[k])
                > c.last_peer_stream_id,
        forall|k1: int, k2: int|
            0 <= k1 < k2 < accepted_ids(c, events).len() ==> accepted_ids(c, events)[k1]
                < accepted_ids(c, events)[k2],
    decreases events.len(),
{
    if events.len() > 0 {
        let e = events[0];
        let step = spec_process_headers(c, e.stream_id, e.end_stream, e.headers);
        let rest = accepted_ids(step.0, events.drop_first());
        let ids = accepted_ids(c, events);
        lemma_process_headers_last_id(c, e.stream_id, e.end_stream, e.headers);
        lemma_run_accepted_ids_increase(step.0, events.drop_first());
        if step.1 == Ok::<_, HttpErrorView>(ProcessHeadersOutcome::NewStream(e.stream_id)) {
            assert(ids == seq![e.stream_id] + rest);
            assert forall|k: int| 0 <= k < ids.len() implies (#[trigger] ids[k])
                > c.last_peer_stream_id by {
                if k > 0 {
                    assert(ids[k] == rest[k - 1]);
                    assert(rest[k - 1] > step.0.last_peer_stream_id);
                }
            }
            assert forall|k1: int, k2: int| 0 <= k1 < k2 < ids.len() implies ids[k1]
                < ids[k2] by {
                if k1 > 0 {
                    assert(ids[k1] == rest[k1 - 1]);
                    assert(ids[k2] == rest[k2 - 1]);
                } else {
                    assert(ids[k2] == rest[k2 - 1]);
                    assert(rest[k2 - 1] > step.0.last_peer_stream_id);
                }
            }
        } else {
            assert(ids == rest);
        }
    }
}

/// An accepted id strictly exceeds the id of every stream already in a
/// well-formed table.
pub proof fn lemma_accepted_id_exceeds_table(c: ConnView, id: u32, h: Seq<(Seq<u8>, Seq<u8>)>)
    requires
        wf_conn(c),
        spec_accept_stream(c, id, h) is Ok,
    ensures
        forall|k: int| 0 <= k < c.streams.len() ==> (#[trigger] c.streams[k]).stream_id < id,
{
}

/// A stream id sharing parity with locally-initiated ids (an even id,
/// here) is always rejected with a protocol error and never creates a
/// stream: the state after the event is the state before it.
pub proof fn lemma_server_parity_rejected(
    c: ConnView,
    stream_id: u32,
    end_stream: bool,
    h: Seq<(Seq<u8>, Seq<u8>)>,
)
    requires
        wf_conn(c),
        stream_id % 2 == 0,
    ensures
        spec_process_headers(c, stream_id, end_stream, h).0 == c,
        valid_for_place(h, HeadersPlace::Initial) ==> spec_process_headers(
            c,
            stream_id,
            end_stream,
            h,
        ).1 == Err::<ProcessHeadersOutcome, _>(
            HttpErrorView::Other("initiated stream with server id from client"@),
        ),
        !valid_for_place(h, HeadersPlace::Initial) ==> spec_process_headers(
            c,
            stream_id,
            end_stream,
            h,
        ).1 == Ok::<_, HttpErrorView>(ProcessHeadersOutcome::StreamReset(stream_id)),
{
    assert(!has_stream(c, stream_id));
}

/// Trailing headers delivered without the end-of-stream flag never reach
/// the stream's consumer: the event only asks for a reset of that stream
/// and leaves the whole state — every stream's consumer included —
/// unchanged, so the connection survives and unrelated streams still
/// function.
pub proof fn lemma_trailers_need_end_stream(
    c: ConnView,
    stream_id: u32,
    h: Seq<(Seq<u8>, Seq<u8>)>,
)
    requires
        has_stream(c, stream_id),
    ensures
        spec_process_headers(c, stream_id, false, h) == (
            c,
            Ok::<_, HttpErrorView>(ProcessHeadersOutcome::StreamReset(stream_id)),
        ),
{
}

/// Every inbound-headers event keeps the state well formed, so a
/// snapshot taken at any point between events shows only fully
/// constructed streams: distinct odd ids, none above the last accepted
/// one.
pub proof fn lemma_snapshot_consistent(
    c: ConnView,
    stream_id: u32,
    end_stream: bool,
    h: Seq<(Seq<u8>, Seq<u8>)>,
)
    requires
        wf_conn(c),
    ensures
        wf_conn(spec_process_headers(c, stream_id, end_stream, h).0),
        ({
            let snap = spec_snapshot(spec_process_headers(c, stream_id, end_stream, h).0);
            &&& forall|k1: int, k2: int|
                0 <= k1 < k2 < snap.streams.len() ==> (#[trigger] snap.streams[k1]).0 != (
                #[trigger] snap.streams[k2]).0
            &&& forall|k: int|
                0 <= k < snap.streams.len() ==> (#[trigger] snap.streams[k]).0 % 2 == 1
                    && snap.streams[k].0 <= snap.last_peer_stream_id
        }),
{
    let c2 = spec_process_headers(c, stream_id, end_stream, h).0;
    let existing = has_stream(c, stream_id);
    let place = if existing {
        HeadersPlace::Trailing
    } else {
        HeadersPlace::Initial
    };
    if valid_for_place(h, place) && !existing && spec_accept_stream(c, stream_id, h) is Ok {
        assert forall|k: int|
            0 <= k < c2.streams.len() implies (#[trigger] c2.streams[k]).stream_id % 2 == 1
            && c2.streams[k].stream_id <= c2.last_peer_stream_id by {
            if k < c.streams.len() {
                assert(c2.streams[k] == c.streams[k]);
            }
        }
    } else if valid_for_place(h, place) && existing && end_stream {
        let j = stream_index_of(c, stream_id);
        assert(0 <= j < c.streams.len() && c.streams[j].stream_id == stream_id);
        assert forall|k: int|
            0 <= k < c2.streams.len() implies (#[trigger] c2.streams[k]).stream_id == c.streams[
            k].stream_id by {}
    }
    let snap = spec_snapshot(c2);
    assert forall|k: int|
        0 <= k < snap.streams.len() implies (#[trigger] snap.streams[k]).0 % 2 == 1
        && snap.streams[k].0 <= snap.last_peer_stream_id by {
        assert(snap.streams[k] == (c2.streams[k].stream_id, c2.streams[k].stage));
    }
    assert forall|k1: int, k2: int|
        0 <= k1 < k2 < snap.streams.len() implies (#[trigger] snap.streams[k1]).0 != (
    #[trigger] snap.streams[k2]).0 by {
        assert(snap.streams[k1] == (c2.streams[k1].stream_id, c2.streams[k1].stage));
        assert(snap.streams[k2] == (c2.streams[k2].stream_id, c2.streams[k2].stage));
    }
}

/// The HTTP/2-style settings table as the handshake negotiates it; a
/// missing bound means the setting is unlimited.
pub struct HttpSettings {
    pub header_table_size: u32,
    pub enable_push: bool,
    pub max_concurrent_streams: Option<u32>,
    pub initial_window_size: u32,
    pub max_frame_size: u32,
    pub max_header_list_size: Option<u32>,
}

/// The protocol's default settings, the process-wide starting point.
pub fn default_settings() -> (r: HttpSettings)
    ensures
        r == (HttpSettings {
            header_table_size: 4096u32,
            enable_push: true,
            max_concurrent_streams: None::<u32>,
            initial_window_size: 65535u32,
            max_frame_size: 16384u32,
            max_header_list_size: None::<u32>,
        }),
{
    HttpSettings {
        header_table_size: 4096,
        enable_push: true,
        max_concurrent_streams: None,
        initial_window_size: 65535,
        max_frame_size: 16384,
        max_header_list_size: None,
    }
}

/// Applies the one setting the server's handshake frame carries.
pub fn apply_enable_push(settings: &mut HttpSettings, value: bool)
    ensures
        *final(settings) == (HttpSettings { enable_push: value, ..*old(settings) }),
{
    settings.enable_push = value;
}

/// The settings the server announces in its handshake: the defaults with
/// server-initiated push disabled.
pub fn server_settings() -> (r: HttpSettings)
    ensures
        r == (HttpSettings { enable_push: false, ..default_settings_spec() }),
{
    let mut s = default_settings();
    apply_enable_push(&mut s, false);
    s
}

/// The default settings as a value contracts can name.
pub open spec fn default_settings_spec() -> HttpSettings {
    HttpSettings {
        header_table_size: 4096u32,
        enable_push: true,
        max_concurrent_streams: None,
        initial_window_size: 65535u32,
        max_frame_size: 16384u32,
        max_header_list_size: None,
    }
}

} // verus!
