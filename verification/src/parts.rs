//! Framed units of a stream: header metadata or a body chunk, each
//! tagged with whether it is the final unit for its stream, plus the
//! finite model of a part stream as the core consumes it.
//!
//! The frame engine delivers parts asynchronously; by the time the core
//! transforms them, what matters is the sequence that arrived and how it
//! ended: normally, or with the error that interrupted it. A part stream
//! is therefore a sequence of parts followed by an optional terminal
//! error.

use vstd::prelude::*;
use crate::error::HttpError;
use crate::error::HttpErrorView;
use crate::headers::Headers;

verus! {

/// The content of one framed unit: header metadata or a body chunk.
pub enum DataOrHeaders {
    Headers(Headers),
    Data(Vec<u8>),
}

/// The mathematical value of a part's content.
pub ghost enum PartContent {
    Headers(Seq<(Seq<u8>, Seq<u8>)>),
    Data(Seq<u8>),
}

impl View for DataOrHeaders {
    type V = PartContent;

    open spec fn view(&self) -> PartContent {
        match self {
            DataOrHeaders::Headers(h) => PartContent::Headers(h@),
            DataOrHeaders::Data(d) => PartContent::Data(d@),
        }
    }
}

/// One framed unit together with its end-of-stream flag.
pub struct DataOrHeadersWithFlag {
    pub content: DataOrHeaders,
    /// Whether this is the final unit of its stream.
    pub last: bool,
}

/// The mathematical value of one flagged part.
pub ghost struct PartView {
    pub content: PartContent,
    pub last: bool,
}

impl View for DataOrHeadersWithFlag {
    type V = PartView;

    open spec fn view(&self) -> PartView {
        PartView { content: self.content@, last: self.last }
    }
}

impl DataOrHeadersWithFlag {
    /// Headers that do not terminate their stream.
    pub fn intermediate_headers(headers: Headers) -> (r: DataOrHeadersWithFlag)
        ensures
            r@ == (PartView { content: PartContent::Headers(headers@), last: false }),
    {
        DataOrHeadersWithFlag { content: DataOrHeaders::Headers(headers), last: false }
    }

    /// A body chunk that does not terminate its stream.
    pub fn intermediate_data(data: Vec<u8>) -> (r: DataOrHeadersWithFlag)
        ensures
            r@ == (PartView { content: PartContent::Data(data@), last: false }),
    {
        DataOrHeadersWithFlag { content: DataOrHeaders::Data(data), last: false }
    }

    /// The final body chunk of a stream.
    pub fn last_data(data: Vec<u8>) -> (r: DataOrHeadersWithFlag)
        ensures
            r@ == (PartView { content: PartContent::Data(data@), last: true }),
    {
        DataOrHeadersWithFlag { content: DataOrHeaders::Data(data), last: true }
    }
}

/// A stream of flagged parts as the core consumes it: the parts that
/// arrived, then either a normal end (`error` empty) or the error that
/// interrupted the stream.
pub struct HttpPartStream {
    pub parts: Vec<DataOrHeadersWithFlag>,
    pub error: Option<HttpError>,
}

/// The mathematical value of a part stream.
pub ghost struct PartStreamView {
    pub parts: Seq<PartView>,
    pub error: Option<HttpErrorView>,
}

impl View for HttpPartStream {
    type V = PartStreamView;

    open spec fn view(&self) -> PartStreamView {
        PartStreamView {
            parts: self.parts@.map_values(|p: DataOrHeadersWithFlag| p@),
            error: match self.error {
                Some(e) => Some(e@),
                None => None,
            },
        }
    }
}

impl HttpPartStream {
    /// A stream that delivers `parts` and then ends normally.
    pub fn from_parts(parts: Vec<DataOrHeadersWithFlag>) -> (r: HttpPartStream)
        ensures
            r@.parts == parts@.map_values(|p: DataOrHeadersWithFlag| p@),
            r@.error is None,
    {
        HttpPartStream { parts, error: None }
    }

    /// An empty stream that ends normally.
    pub fn empty() -> (r: HttpPartStream)
        ensures
            r@.parts == Seq::<PartView>::empty(),
            r@.error is None,
    {
        let r = HttpPartStream { parts: Vec::new(), error: None };
        proof {
            assert(r@.parts =~= Seq::<PartView>::empty());
        }
        r
    }
}

/// A stream of plain byte chunks, ended normally or by an error; the
/// shape a handler's body often arrives in before it is re-framed.
pub struct BytesStream {
    pub chunks: Vec<Vec<u8>>,
    pub error: Option<HttpError>,
}

/// A well-formed part stream: only its final part may carry the
/// end-of-stream flag, so at most one "last" part terminates it.
pub open spec fn wf_part_stream(parts: Seq<PartView>) -> bool {
    forall|i: int| 0 <= i < parts.len() - 1 ==> !(#[trigger] parts[i]).last
}

} // verus!
