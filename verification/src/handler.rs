//! Panic isolation of user handlers.
//!
//! A handler is untrusted: invoking it happens inside a fault boundary
//! owned by the surrounding task, which hands this module the outcome as
//! a plain value — the response the handler produced, or the stringified
//! panic payload. A panic is substituted by a synthetic response (status
//! 500, one body chunk naming the panic), so the connection never
//! crashes because of handler misbehavior.

use vstd::prelude::*;
use crate::headers::Headers;
use crate::headers::status_500_value;
use crate::headers::status_name_spec;
use crate::parts::DataOrHeadersWithFlag;
use crate::parts::HttpPartStream;
use crate::parts::PartContent;
use crate::parts::PartStreamView;
use crate::parts::PartView;
use crate::resp::HttpResponse;
use crate::resp::ResponseView;

verus! {

/// The bytes of `handler panicked: `, the prefix of the synthetic body.
pub open spec fn panic_body_prefix() -> Seq<u8> {
    seq![
        104u8, 97u8, 110u8, 100u8, 108u8, 101u8, 114u8, 32u8, 112u8, 97u8, 110u8, 105u8, 99u8,
        107u8, 101u8, 100u8, 58u8, 32u8,
    ]
}

/// The bytes of `handler panicked: `.
pub fn panic_body_prefix_bytes() -> (r: Vec<u8>)
    ensures
        r@ == panic_body_prefix(),
{
    let v = vec![
        104u8, 97u8, 110u8, 100u8, 108u8, 101u8, 114u8, 32u8, 112u8, 97u8, 110u8, 105u8, 99u8,
        107u8, 101u8, 100u8, 58u8, 32u8,
    ];
    proof {
        assert(v@ =~= panic_body_prefix());
    }
    v
}

/// The synthetic response substituted for a handler that panicked with
/// message `m`: internal-error headers, then one final body chunk that
/// names the panic.
pub open spec fn spec_panic_response(m: Seq<u8>) -> ResponseView {
    Ok(
        (
            seq![(status_name_spec(), status_500_value())],
            PartStreamView {
                parts: seq![
                    PartView { content: PartContent::Data(panic_body_prefix() + m), last: true },
                ],
                error: None,
            },
        ),
    )
}

/// Builds the synthetic 500 response for a handler that panicked with
/// the given stringified payload.
pub fn panic_response(message: Vec<u8>) -> (r: HttpResponse)
    ensures
        r@ == spec_panic_response(message@),
{
    let ghost mv = message@;
    let mut body = panic_body_prefix_bytes();
    let mut message = message;
    body.append(&mut message);
    let headers = Headers::internal_error_500();
    let mut parts: Vec<DataOrHeadersWithFlag> = Vec::new();
    parts.push(DataOrHeadersWithFlag::last_data(body));
    let stream = HttpPartStream::from_parts(parts);
    proof {
        assert(stream@.parts =~= seq![
            PartView { content: PartContent::Data(panic_body_prefix() + mv), last: true },
        ]);
    }
    HttpResponse::headers_and_stream(headers, stream)
}

/// The response that continues past the handler boundary: the handler's
/// own response where it returned one, else the synthetic 500 built from
/// the panic payload.
pub fn response_after_handler(outcome: Result<HttpResponse, Vec<u8>>) -> (r: HttpResponse)
    ensures
        outcome matches Ok(resp) ==> r == resp,
        outcome matches Err(m) ==> r@ == spec_panic_response(m@),
{
    match outcome {
        Ok(resp) => resp,
        Err(m) => panic_response(m),
    }
}

} // verus!
