//! Error taxonomy of the connection core.
//!
//! Three kinds: I/O failure, protocol failure, and an opaque "other"
//! failure carrying a static description. Any I/O or protocol error
//! upgrades automatically into the composite [`GrpcError`]; the composite
//! converts back to a plain I/O error for boundary code that cannot
//! express the richer taxonomy.

use vstd::prelude::*;
use vstd::string::StringExecFns;

verus! {

/// A plain I/O failure, carried as its description. The socket and the
/// channels live outside this crate, so an I/O error reaches the core
/// as the message text that the boundary extracted from it.
#[derive(Debug)]
pub struct IoError {
    pub message: String,
}

/// The lower-level protocol error of the frame engine, as the core sees it.
#[derive(Debug)]
pub enum HttpError {
    /// The transport failed underneath the protocol.
    IoError(IoError),
    /// A frame or a part violated the protocol; the message says how.
    InvalidFrame(String),
    /// Any other failure, described statically.
    Other(&'static str),
}

/// The mathematical value of a protocol error: the kind and the view of
/// the carried text. Freshly built errors (a parse failure naming its
/// cause) are pinned by this view, since the exact `String` value a body
/// allocates cannot be named in a contract.
pub ghost enum HttpErrorView {
    IoError(Seq<char>),
    InvalidFrame(Seq<char>),
    Other(Seq<char>),
}

impl View for HttpError {
    type V = HttpErrorView;

    open spec fn view(&self) -> HttpErrorView {
        match self {
            HttpError::IoError(e) => HttpErrorView::IoError(e.message@),
            HttpError::InvalidFrame(m) => HttpErrorView::InvalidFrame(m@),
            HttpError::Other(m) => HttpErrorView::Other(m@),
        }
    }
}

/// The composite error surfaced to callers of the connection core.
#[derive(Debug)]
pub enum GrpcError {
    Io(IoError),
    Http(HttpError),
    Other(&'static str),
}

pub type GrpcResult<T> = Result<T, GrpcError>;

impl IoError {
    pub fn new(message: String) -> (r: IoError)
        ensures
            r.message@ == message@,
    {
        IoError { message }
    }
}

impl HttpError {
    /// The description of the failure, without its kind.
    pub fn description(&self) -> (r: String)
        ensures
            r@ == self.spec_description(),
    {
        match self {
            HttpError::IoError(e) => e.message.clone(),
            HttpError::InvalidFrame(m) => m.clone(),
            HttpError::Other(m) => (*m).to_owned(),
        }
    }

    pub open spec fn spec_description(&self) -> Seq<char> {
        match self {
            HttpError::IoError(e) => e.message@,
            HttpError::InvalidFrame(m) => m@,
            HttpError::Other(m) => m@,
        }
    }
}

impl GrpcError {
    /// The description of the failure, without its kind.
    pub fn description(&self) -> (r: String)
        ensures
            r@ == self.spec_description(),
    {
        match self {
            GrpcError::Io(e) => e.message.clone(),
            GrpcError::Http(e) => e.description(),
            GrpcError::Other(m) => (*m).to_owned(),
        }
    }

    pub open spec fn spec_description(&self) -> Seq<char> {
        match self {
            GrpcError::Io(e) => e.message@,
            GrpcError::Http(e) => e.spec_description(),
            GrpcError::Other(m) => m@,
        }
    }

    /// The kind of the failure followed by its description, for reports
    /// where only one line of text fits.
    pub fn to_display_string(&self) -> (r: String)
        ensures
            r@ == self.spec_display(),
    {
        let prefix = match self {
            GrpcError::Io(_) => "io error: ",
            GrpcError::Http(_) => "http error: ",
            GrpcError::Other(_) => "other error: ",
        };
        let d = self.description();
        prefix.to_owned().concat(d.as_str())
    }

    pub open spec fn spec_display(&self) -> Seq<char> {
        match self {
            GrpcError::Io(_) => "io error: "@ + self.spec_description(),
            GrpcError::Http(_) => "http error: "@ + self.spec_description(),
            GrpcError::Other(_) => "other error: "@ + self.spec_description(),
        }
    }
}

impl From<IoError> for GrpcError {
    /// An I/O failure upgrades to the composite error unchanged.
    fn from(err: IoError) -> (r: GrpcError) {
        GrpcError::Io(err)
    }
}

impl vstd::std_specs::convert::FromSpecImpl<IoError> for GrpcError {
    open spec fn obeys_from_spec() -> bool {
        true
    }

    open spec fn from_spec(err: IoError) -> GrpcError {
        GrpcError::Io(err)
    }
}

impl From<HttpError> for GrpcError {
    /// A protocol failure upgrades to the composite error unchanged.
    fn from(err: HttpError) -> (r: GrpcError) {
        GrpcError::Http(err)
    }
}

impl vstd::std_specs::convert::FromSpecImpl<HttpError> for GrpcError {
    open spec fn obeys_from_spec() -> bool {
        true
    }

    open spec fn from_spec(err: HttpError) -> GrpcError {
        GrpcError::Http(err)
    }
}

impl GrpcError {
    /// Degrades the composite error to a plain I/O error for boundary
    /// code: an I/O kind passes through, every other kind becomes a
    /// generic I/O error wrapping the display text.
    pub fn into_io_error(self) -> (r: IoError)
        ensures
            self matches GrpcError::Io(e) ==> r == e,
            !(self matches GrpcError::Io(_)) ==> r.message@ == self.spec_display(),
    {
        match self {
            GrpcError::Io(e) => e,
            _ => IoError { message: self.to_display_string() },
        }
    }
}

} // verus!
