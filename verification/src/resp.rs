//! The response abstraction: a deferred pair of headers and a body-part
//! stream, with conversions between "headers plus stream", "flattened
//! stream of framed parts" and "fully collected message".
//!
//! A response is deferred: a future resolves to the pair. Here it is
//! modeled by the future's outcome — the resolved pair, or the error the
//! future failed with. Each conversion is stated over a spec-level pipeline
//! ([`spec_from_stream`], [`spec_into_stream_flag`], [`spec_collect`]),
//! so that the laws relating the conversions are proved once over the
//! specs and hold of the executable code through each function's
//! contract.

use vstd::prelude::*;
use crate::error::HttpError;
use crate::error::HttpErrorView;
use crate::headers::Headers;
use crate::message::MessageView;
use crate::message::SimpleHttpMessage;
use crate::message::spec_add;
use crate::message::spec_fold_message;
use crate::parts::BytesStream;
use crate::parts::DataOrHeaders;
use crate::parts::DataOrHeadersWithFlag;
use crate::parts::HttpPartStream;
use crate::parts::PartContent;
use crate::parts::PartStreamView;
use crate::parts::PartView;

verus! {

/// A response: headers and a body-part stream once available, or the
/// error that interrupted producing them.
pub struct HttpResponse {
    pub resolved: Result<(Headers, HttpPartStream), HttpError>,
}

/// The mathematical value of a response.
pub type ResponseView = Result<(Seq<(Seq<u8>, Seq<u8>)>, PartStreamView), HttpErrorView>;

impl View for HttpResponse {
    type V = ResponseView;

    open spec fn view(&self) -> ResponseView {
        match self.resolved {
            Ok((h, s)) => Ok((h@, s@)),
            Err(e) => Err(e@),
        }
    }
}

/// A stream of plain content (headers or data), ended normally or by an
/// error: what is left of a response once the flags are dropped.
pub struct ContentStream {
    pub items: Vec<DataOrHeaders>,
    pub error: Option<HttpError>,
}

/// The mathematical value of a content stream.
pub ghost struct ContentStreamView {
    pub items: Seq<PartContent>,
    pub error: Option<HttpErrorView>,
}

impl View for ContentStream {
    type V = ContentStreamView;

    open spec fn view(&self) -> ContentStreamView {
        ContentStreamView {
            items: self.items@.map_values(|p: DataOrHeaders| p@),
            error: match self.error {
                Some(e) => Some(e@),
                None => None,
            },
        }
    }
}

/// What building a response from a part stream yields: the first part
/// must be headers; an empty stream or a leading data part is a protocol
/// error, and a stream that failed before its first part fails the
/// response with that same error.
pub open spec fn spec_from_stream(s: PartStreamView) -> ResponseView {
    if s.parts.len() == 0 {
        match s.error {
            Some(e) => Err(e),
            None => Err(HttpErrorView::InvalidFrame("empty response, expecting headers"@)),
        }
    } else {
        match s.parts[0].content {
            PartContent::Headers(h) => Ok(
                (h, PartStreamView { parts: s.parts.drop_first(), error: s.error }),
            ),
            PartContent::Data(_) => Err(HttpErrorView::InvalidFrame("data before headers"@)),
        }
    }
}

/// What flattening a response into one part stream yields: a synthetic
/// leading headers part (its end-of-stream flag is always false — the
/// one fixed convention, the body parts say where the stream ends),
/// then the body parts; a failed response becomes an immediately failing
/// stream.
pub open spec fn spec_into_stream_flag(r: ResponseView) -> PartStreamView {
    match r {
        Ok((h, rem)) => PartStreamView {
            parts: seq![PartView { content: PartContent::Headers(h), last: false }] + rem.parts,
            error: rem.error,
        },
        Err(e) => PartStreamView { parts: Seq::empty(), error: Some(e) },
    }
}

/// The same flattening with the flags dropped.
pub open spec fn spec_into_stream(r: ResponseView) -> ContentStreamView {
    let s = spec_into_stream_flag(r);
    ContentStreamView {
        items: s.parts.map_values(|p: PartView| p.content),
        error: s.error,
    }
}

/// What collecting a response yields: the flattened contents folded into
/// one message, or the error that interrupted the underlying stream.
pub open spec fn spec_collect(r: ResponseView) -> Result<MessageView, HttpErrorView> {
    let s = spec_into_stream(r);
    match s.error {
        Some(e) => Err(e),
        None => Ok(spec_fold_message(s.items)),
    }
}

impl HttpResponse {
    /// Wraps an already-determined outcome: what the future producing
    /// the pair resolved to.
    pub fn new(resolved: Result<(Headers, HttpPartStream), HttpError>) -> (r: HttpResponse)
        ensures
            r.resolved == resolved,
    {
        HttpResponse { resolved }
    }

    /// A response from available headers and a body-part stream.
    pub fn headers_and_stream(headers: Headers, stream: HttpPartStream) -> (r: HttpResponse)
        ensures
            r@ == Ok::<_, HttpErrorView>((headers@, stream@)),
    {
        HttpResponse::new(Ok((headers, stream)))
    }

    /// A response whose body is a byte stream re-framed as data parts,
    /// none of them flagged last: the end of the byte stream ends the
    /// body.
    pub fn headers_and_bytes_stream(headers: Headers, content: BytesStream) -> (r: HttpResponse)
        ensures
            r@ matches Ok((h, s)) && h == headers@ && s.parts == content.chunks@.map_values(
                |c: Vec<u8>| PartView { content: PartContent::Data(c@), last: false },
            ) && s.error == (match content.error {
                Some(e) => Some(e@),
                None => None::<HttpErrorView>,
            }),
    {
        let BytesStream { chunks, error } = content;
        let ghost chunks_v = chunks@;
        let mut parts: Vec<DataOrHeadersWithFlag> = Vec::new();
        let mut chunks = chunks;
        let n: usize = chunks.len();
        let mut i: usize = 0;
        while i < n
            invariant
                0 <= i <= n,
                n == chunks_v.len(),
                chunks@.len() == n - i,
                parts@.len() == i,
                chunks@ == chunks_v.subrange(i as int, chunks_v.len() as int),
                parts@.map_values(|p: DataOrHeadersWithFlag| p@) =~= chunks_v.subrange(
                    0,
                    i as int,
                ).map_values(|c: Vec<u8>| PartView { content: PartContent::Data(c@), last: false }),
            decreases n - i,
        {
            let c = chunks.remove(0);
            assert(c@ == chunks_v[i as int]@);
            let ghost prev_parts = parts@;
            parts.push(DataOrHeadersWithFlag::intermediate_data(c));
            proof {
                assert(chunks@ =~= chunks_v.subrange(i + 1, chunks_v.len() as int));
                assert forall|k: int| 0 <= k < i + 1 implies (#[trigger] parts@[k])@
                    == chunks_v.subrange(0, i + 1).map_values(
                    |c: Vec<u8>| PartView { content: PartContent::Data(c@), last: false },
                )[k] by {
                    assert(chunks_v.subrange(0, i + 1)[k] == chunks_v[k]);
                    if k < i {
                        assert(parts@[k] == prev_parts[k]);
                        assert(prev_parts.map_values(|p: DataOrHeadersWithFlag| p@)[k]
                            == prev_parts[k]@);
                        assert(prev_parts.map_values(|p: DataOrHeadersWithFlag| p@)[k]
                            == chunks_v.subrange(0, i as int).map_values(
                            |c: Vec<u8>| PartView { content: PartContent::Data(c@), last: false },
                        )[k]);
                        assert(chunks_v.subrange(0, i as int).map_values(
                            |c: Vec<u8>| PartView { content: PartContent::Data(c@), last: false },
                        )[k] == (PartView { content: PartContent::Data(chunks_v[k]@), last: false }));
                    } else {
                        assert(parts@[k]@ == (PartView {
                            content: PartContent::Data(chunks_v[i as int]@),
                            last: false,
                        }));
                    }
                }
                assert(parts@.map_values(|p: DataOrHeadersWithFlag| p@) =~= chunks_v.subrange(
                    0,
                    i + 1,
                ).map_values(|c: Vec<u8>| PartView { content: PartContent::Data(c@), last: false }));
            }
            i = i + 1;
        }
        proof {
            assert(chunks_v.subrange(0, i as int) =~= chunks_v);
        }
        HttpResponse::headers_and_stream(headers, HttpPartStream { parts, error })
    }

    /// A response with a single-chunk body.
    pub fn headers_and_bytes(headers: Headers, content: Vec<u8>) -> (r: HttpResponse)
        ensures
            r@ matches Ok((h, s)) && h == headers@ && s.parts =~= seq![
                PartView { content: PartContent::Data(content@), last: false },
            ] && s.error is None,
    {
        let mut chunks: Vec<Vec<u8>> = Vec::new();
        chunks.push(content);
        HttpResponse::headers_and_bytes_stream(headers, BytesStream { chunks, error: None })
    }

    /// A response built from a fully materialized message.
    pub fn message(message: SimpleHttpMessage) -> (r: HttpResponse)
        ensures
            r@ matches Ok((h, s)) && h == message@.headers && s.parts =~= seq![
                PartView { content: PartContent::Data(message@.body), last: false },
            ] && s.error is None,
    {
        let SimpleHttpMessage { headers, body } = message;
        HttpResponse::headers_and_bytes(headers, body)
    }

    /// A response built by consuming a stream of framed parts: the first
    /// part must be headers, the rest become the body.
    pub fn from_stream(stream: HttpPartStream) -> (r: HttpResponse)
        ensures
            r@ == spec_from_stream(stream@),
    {
        let ghost sv = stream@;
        let HttpPartStream { parts, error } = stream;
        let mut parts = parts;
        if parts.len() == 0 {
            match error {
                Some(e) => HttpResponse::new(Err(e)),
                None => HttpResponse::new(
                    Err(
                        HttpError::InvalidFrame(
                            "empty response, expecting headers".to_owned(),
                        ),
                    ),
                ),
            }
        } else {
            let first = parts.remove(0);
            proof {
                assert(first@ == sv.parts[0]);
                assert(parts@.map_values(|p: DataOrHeadersWithFlag| p@) =~= sv.parts.drop_first());
            }
            match first.content {
                DataOrHeaders::Headers(headers) => HttpResponse::new(
                    Ok((headers, HttpPartStream { parts, error })),
                ),
                DataOrHeaders::Data(_) => HttpResponse::new(
                    Err(HttpError::InvalidFrame("data before headers".to_owned())),
                ),
            }
        }
    }

    /// An already-failed response.
    pub fn err(err: HttpError) -> (r: HttpResponse)
        ensures
            r.resolved == Err::<(Headers, HttpPartStream), _>(err),
    {
        HttpResponse::new(Err(err))
    }

    /// Flattens headers and body into one part stream, synthesizing a
    /// leading headers part whose end-of-stream flag is always false.
    pub fn into_stream_flag(self) -> (r: HttpPartStream)
        ensures
            r@ == spec_into_stream_flag(self@),
    {
        let ghost rv = self@;
        match self.resolved {
            Ok((headers, rem)) => {
                let ghost headers_v = headers@;
                let ghost rem_v = rem@;
                let HttpPartStream { parts, error } = rem;
                let ghost body_v = parts@.map_values(|p: DataOrHeadersWithFlag| p@);
                let mut out = parts;
                out.insert(0, DataOrHeadersWithFlag::intermediate_headers(headers));
                let r = HttpPartStream { parts: out, error };
                proof {
                    assert(rv == Ok::<(Seq<(Seq<u8>, Seq<u8>)>, PartStreamView), HttpErrorView>(
                        (headers_v, rem_v),
                    ));
                    assert(spec_into_stream_flag(rv).parts == seq![
                        PartView { content: PartContent::Headers(headers_v), last: false },
                    ] + body_v);
                    assert(r@.parts =~= spec_into_stream_flag(rv).parts);
                    assert(r@.error == spec_into_stream_flag(rv).error);
                }
                r
            },
            Err(e) => {
                let r = HttpPartStream { parts: Vec::new(), error: Some(e) };
                proof {
                    assert(r@.parts =~= Seq::<PartView>::empty());
                }
                r
            },
        }
    }

    /// Flattens headers and body into one content stream, dropping the
    /// flags.
    pub fn into_stream(self) -> (r: ContentStream)
        ensures
            r@ == spec_into_stream(self@),
    {
        let ghost rv = self@;
        let flagged = self.into_stream_flag();
        let HttpPartStream { parts, error } = flagged;
        let ghost parts_v = parts@.map_values(|p: DataOrHeadersWithFlag| p@);
        let mut parts = parts;
        let mut items: Vec<DataOrHeaders> = Vec::new();
        let n: usize = parts.len();
        let mut i: usize = 0;
        proof {
            assert(parts@.map_values(|p: DataOrHeadersWithFlag| p@) =~= parts_v.subrange(
                0,
                parts_v.len() as int,
            ));
            assert(items@.map_values(|p: DataOrHeaders| p@) =~= parts_v.subrange(0, 0).map_values(
                |p: PartView| p.content,
            ));
        }
        while i < n
            invariant
                0 <= i <= n,
                n == parts_v.len(),
                parts@.len() == n - i,
                items@.len() == i,
                parts@.map_values(|p: DataOrHeadersWithFlag| p@) == parts_v.subrange(
                    i as int,
                    parts_v.len() as int,
                ),
                items@.map_values(|p: DataOrHeaders| p@) =~= parts_v.subrange(0, i as int)
                    .map_values(|p: PartView| p.content),
            decreases n - i,
        {
            let ghost prev = parts@;
            let p = parts.remove(0);
            proof {
                assert(prev.map_values(|q: DataOrHeadersWithFlag| q@)[0] == p@);
                assert(p@ == parts_v[i as int]);
                assert(parts@ =~= prev.drop_first());
                assert forall|k: int| 0 <= k < parts@.len() implies parts@.map_values(
                    |q: DataOrHeadersWithFlag| q@,
                )[k] == #[trigger] parts_v.subrange(i + 1, parts_v.len() as int)[k] by {
                    assert(parts@[k] == prev[k + 1]);
                    assert(prev.map_values(|q: DataOrHeadersWithFlag| q@)[k + 1] == prev[k + 1]@);
                    assert(prev.map_values(|q: DataOrHeadersWithFlag| q@)[k + 1] == parts_v.subrange(
                        i as int,
                        parts_v.len() as int,
                    )[k + 1]);
                }
                assert(parts@.map_values(|q: DataOrHeadersWithFlag| q@) =~= parts_v.subrange(
                    i + 1,
                    parts_v.len() as int,
                ));
            }
            let ghost prev_items = items@;
            items.push(p.content);
            proof {
                assert(items@ =~= prev_items.push(p.content));
                assert(p.content@ == parts_v[i as int].content);
                assert forall|k: int| 0 <= k < i + 1 implies items@.map_values(
                    |q: DataOrHeaders| q@,
                )[k] == #[trigger] parts_v.subrange(0, i + 1)[k].content by {
                    assert(parts_v.subrange(0, i + 1)[k] == parts_v[k]);
                    if k < i {
                        assert(items@[k] == prev_items[k]);
                        assert(prev_items.map_values(|q: DataOrHeaders| q@)[k] == prev_items[k]@);
                        assert(prev_items.map_values(|q: DataOrHeaders| q@)[k] == parts_v.subrange(
                            0,
                            i as int,
                        ).map_values(|q: PartView| q.content)[k]);
                        assert(parts_v.subrange(0, i as int).map_values(
                            |q: PartView| q.content,
                        )[k] == parts_v[k].content);
                    } else {
                        assert(items@[k] == p.content);
                    }
                }
                assert(items@.map_values(|q: DataOrHeaders| q@) =~= parts_v.subrange(0, i + 1)
                    .map_values(|q: PartView| q.content));
            }
            i = i + 1;
        }
        let r = ContentStream { items, error };
        proof {
            assert(parts_v.subrange(0, n as int) =~= parts_v);
            assert(r@.items =~= spec_into_stream(rv).items);
        }
        r
    }

    /// Folds the content stream into one message: headers once, body
    /// parts concatenated in arrival order; fails with whatever error
    /// interrupted the underlying stream.
    pub fn collect(self) -> (r: Result<SimpleHttpMessage, HttpError>)
        ensures
            match r {
                Ok(m) => spec_collect(self@) == Ok::<_, HttpErrorView>(m@),
                Err(e) => spec_collect(self@) == Err::<MessageView, _>(e@),
            },
    {
        let ghost rv = self@;
        let content = self.into_stream();
        let ContentStream { items, error } = content;
        let ghost items_v = items@.map_values(|p: DataOrHeaders| p@);
        match error {
            Some(e) => Err(e),
            None => {
                let mut msg = SimpleHttpMessage::new();
                let mut items = items;
                let n: usize = items.len();
                let mut i: usize = 0;
                proof {
                    assert(spec_fold_message(items_v.subrange(0, 0)) == msg@);
                }
                proof {
                    assert(items@.map_values(|p: DataOrHeaders| p@) =~= items_v.subrange(
                        0,
                        items_v.len() as int,
                    ));
                }
                while i < n
                    invariant
                        0 <= i <= n,
                        n == items_v.len(),
                        items@.len() == n - i,
                        items@.map_values(|p: DataOrHeaders| p@) == items_v.subrange(
                            i as int,
                            items_v.len() as int,
                        ),
                        msg@ == spec_fold_message(items_v.subrange(0, i as int)),
                    decreases n - i,
                {
                    let ghost prev = items@;
                    let p = items.remove(0);
                    proof {
                        assert(prev.map_values(|q: DataOrHeaders| q@)[0] == p@);
                        assert(p@ == items_v[i as int]);
                        assert(items@ =~= prev.drop_first());
                        assert forall|k: int| 0 <= k < items@.len() implies items@.map_values(
                            |q: DataOrHeaders| q@,
                        )[k] == #[trigger] items_v.subrange(i + 1, items_v.len() as int)[k] by {
                            assert(items@[k] == prev[k + 1]);
                            assert(prev.map_values(|q: DataOrHeaders| q@)[k + 1] == prev[k + 1]@);
                            assert(prev.map_values(|q: DataOrHeaders| q@)[k + 1] == items_v.subrange(
                                i as int,
                                items_v.len() as int,
                            )[k + 1]);
                        }
                        assert(items@.map_values(|q: DataOrHeaders| q@) =~= items_v.subrange(
                            i + 1,
                            items_v.len() as int,
                        ));
                        assert(items_v.subrange(0, i + 1).drop_last() =~= items_v.subrange(
                            0,
                            i as int,
                        ));
                        assert(items_v.subrange(0, i + 1).last() == items_v[i as int]);
                    }
                    msg.add(p);
                    i = i + 1;
                }
                proof {
                    assert(items_v.subrange(0, i as int) =~= items_v);
                }
                Ok(msg)
            },
        }
    }
}

/// Collecting a response built from a part stream `[headers, data…]`
/// that ends normally yields exactly those headers and the concatenation
/// of the data chunks in arrival order: here for a body of two chunks.
pub proof fn lemma_collect_headers_then_data(
    h: Seq<(Seq<u8>, Seq<u8>)>,
    d1: Seq<u8>,
    d2: Seq<u8>,
    flag1: bool,
    flag2: bool,
)
    ensures
        spec_collect(
            spec_from_stream(
                PartStreamView {
                    parts: seq![
                        PartView { content: PartContent::Headers(h), last: false },
                        PartView { content: PartContent::Data(d1), last: flag1 },
                        PartView { content: PartContent::Data(d2), last: flag2 },
                    ],
                    error: None,
                },
            ),
        ) == Ok::<_, HttpErrorView>(MessageView { headers: h, body: d1 + d2 }),
{
    let s = PartStreamView {
        parts: seq![
            PartView { content: PartContent::Headers(h), last: false },
            PartView { content: PartContent::Data(d1), last: flag1 },
            PartView { content: PartContent::Data(d2), last: flag2 },
        ],
        error: None,
    };
    let r = spec_from_stream(s);
    let items = spec_into_stream(r).items;
    let s3 = seq![PartContent::Headers(h), PartContent::Data(d1), PartContent::Data(d2)];
    let s2 = seq![PartContent::Headers(h), PartContent::Data(d1)];
    let s1 = seq![PartContent::Headers(h)];
    let s0 = Seq::<PartContent>::empty();
    assert(items =~= s3);
    assert(s1.drop_last() =~= s0);
    assert(spec_fold_message(s0) == (MessageView { headers: Seq::empty(), body: Seq::empty() }));
    assert(spec_fold_message(s1) == spec_add(spec_fold_message(s0), s1.last()));
    assert(s2.drop_last() =~= s1);
    assert(spec_fold_message(s2) == spec_add(spec_fold_message(s1), s2.last()));
    assert(s3.drop_last() =~= s2);
    assert(spec_fold_message(s3) == spec_add(spec_fold_message(s2), s3.last()));
    assert(spec_fold_message(s3).headers =~= h);
    assert(spec_fold_message(s3).body =~= d1 + d2);
}

/// The fixed convention for the flattened stream: its leading part is
/// always the response's headers and never carries the end-of-stream
/// flag — the body parts alone say where the stream ends.
pub proof fn lemma_leading_headers_part_unflagged(r: ResponseView)
    requires
        r is Ok,
    ensures
        spec_into_stream_flag(r).parts.len() >= 1,
        spec_into_stream_flag(r).parts[0] == (PartView {
            content: PartContent::Headers(r->Ok_0.0),
            last: false,
        }),
{
}

/// Building a response from an empty, normally-ended part stream fails
/// with the protocol error "empty response, expecting headers"; from a
/// stream whose first part is data, with "data before headers". Neither
/// yields headers or a body.
pub proof fn lemma_from_stream_rejects(s: PartStreamView)
    requires
        s.error is None,
    ensures
        s.parts.len() == 0 ==> spec_from_stream(s) == Err::<
            (Seq<(Seq<u8>, Seq<u8>)>, PartStreamView),
            _,
        >(HttpErrorView::InvalidFrame("empty response, expecting headers"@)),
        s.parts.len() > 0 && s.parts[0].content is Data ==> spec_from_stream(s) == Err::<
            (Seq<(Seq<u8>, Seq<u8>)>, PartStreamView),
            _,
        >(HttpErrorView::InvalidFrame("data before headers"@)),
{
}

} // verus!
