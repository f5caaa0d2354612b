//! A fully materialized message: headers plus one body buffer.
//!
//! Collecting a response folds its parts into this shape: every headers
//! part extends the header list, every data part is concatenated onto the
//! body in arrival order.

use vstd::prelude::*;
use crate::headers::Header;
use crate::headers::Headers;
use crate::parts::DataOrHeaders;
use crate::parts::PartContent;

verus! {

/// Headers plus the whole body, with no framing left.
pub struct SimpleHttpMessage {
    pub headers: Headers,
    pub body: Vec<u8>,
}

/// The mathematical value of a materialized message.
pub ghost struct MessageView {
    pub headers: Seq<(Seq<u8>, Seq<u8>)>,
    pub body: Seq<u8>,
}

impl View for SimpleHttpMessage {
    type V = MessageView;

    open spec fn view(&self) -> MessageView {
        MessageView { headers: self.headers@, body: self.body@ }
    }
}

/// What adding one part to a message yields: headers extend the header
/// list, data extends the body.
pub open spec fn spec_add(m: MessageView, p: PartContent) -> MessageView {
    match p {
        PartContent::Headers(h) => MessageView { headers: m.headers + h, body: m.body },
        PartContent::Data(d) => MessageView { headers: m.headers, body: m.body + d },
    }
}

/// The message obtained by folding a sequence of part contents into an
/// empty message, in order.
pub open spec fn spec_fold_message(items: Seq<PartContent>) -> MessageView
    decreases items.len(),
{
    if items.len() == 0 {
        MessageView { headers: Seq::empty(), body: Seq::empty() }
    } else {
        spec_add(spec_fold_message(items.drop_last()), items.last())
    }
}

impl SimpleHttpMessage {
    /// The empty message.
    pub fn new() -> (r: SimpleHttpMessage)
        ensures
            r@.headers == Seq::<(Seq<u8>, Seq<u8>)>::empty(),
            r@.body == Seq::<u8>::empty(),
    {
        let r = SimpleHttpMessage { headers: Headers::empty(), body: Vec::new() };
        proof {
            assert(r@.body =~= Seq::<u8>::empty());
        }
        r
    }

    /// Folds one more part into the message.
    pub fn add(&mut self, part: DataOrHeaders)
        ensures
            final(self)@ == spec_add(old(self)@, part@),
    {
        match part {
            DataOrHeaders::Headers(h) => {
                let ghost before = self@;
                let ghost hv = h@;
                let hs = h;
                let n: usize = hs.headers.len();
                let mut i: usize = 0;
                proof {
                    assert(before.headers + hv.subrange(0, 0) =~= before.headers);
                }
                while i < n
                    invariant
                        0 <= i <= n,
                        n == hs.headers@.len(),
                        hs@ == hv,
                        self@.body == before.body,
                        self@.headers == before.headers + hv.subrange(0, i as int),
                    decreases n - i,
                {
                    let one = clone_header(&hs.headers[i]);
                    assert(one@ == hv[i as int]);
                    self.headers.add(one);
                    proof {
                        assert(before.headers + hv.subrange(0, i + 1) =~= (before.headers
                            + hv.subrange(0, i as int)).push(hv[i as int]));
                    }
                    i = i + 1;
                }
                proof {
                    assert(hv.subrange(0, i as int) =~= hv);
                    assert(self@ == spec_add(before, PartContent::Headers(hv)));
                }
            },
            DataOrHeaders::Data(d) => {
                let ghost before = self@;
                let ghost dv = d@;
                let mut i: usize = 0;
                proof {
                    assert(before.body + dv.subrange(0, 0) =~= before.body);
                }
                while i < d.len()
                    invariant
                        0 <= i <= dv.len(),
                        d@ == dv,
                        self@.headers == before.headers,
                        self@.body == before.body + dv.subrange(0, i as int),
                    decreases dv.len() - i,
                {
                    self.body.push(d[i]);
                    proof {
                        assert(before.body + dv.subrange(0, i + 1) =~= (before.body + dv.subrange(
                            0,
                            i as int,
                        )).push(dv[i as int]));
                    }
                    i = i + 1;
                }
                proof {
                    assert(dv.subrange(0, i as int) =~= dv);
                    assert(self@ == spec_add(before, PartContent::Data(dv)));
                }
            },
        }
    }
}

/// Copies one header.
pub fn clone_header(h: &Header) -> (r: Header)
    ensures
        r@ == h@,
{
    Header { name: crate::headers::clone_bytes(&h.name), value: crate::headers::clone_bytes(&h.value) }
}

} // verus!
