//! Request and response headers, as the connection core reads them.
//!
//! A header is a pair of byte strings; a header list keeps arrival order.
//! The frame engine decodes the wire representation before the core sees
//! anything, so the model is the decoded list itself. The core reads
//! three things from it: the declared content length (the initial
//! flow-control credit of a new stream), the placement grammar (initial
//! headers versus trailers), and the status pseudo-header.

use vstd::prelude::*;

verus! {

/// One decoded header: a name and a value, both byte strings.
pub struct Header {
    pub name: Vec<u8>,
    pub value: Vec<u8>,
}

impl View for Header {
    type V = (Seq<u8>, Seq<u8>);

    open spec fn view(&self) -> (Seq<u8>, Seq<u8>) {
        (self.name@, self.value@)
    }
}

impl Header {
    pub fn new(name: Vec<u8>, value: Vec<u8>) -> (r: Header)
        ensures
            r@ == (name@, value@),
    {
        Header { name, value }
    }
}

/// A list of headers in arrival order.
pub struct Headers {
    pub headers: Vec<Header>,
}

impl View for Headers {
    type V = Seq<(Seq<u8>, Seq<u8>)>;

    open spec fn view(&self) -> Seq<(Seq<u8>, Seq<u8>)> {
        self.headers@.map_values(|h: Header| h@)
    }
}

/// Where a HEADERS frame stands in its stream: the first frame that opens
/// the stream, or a trailing frame after the body.
#[derive(Clone, Copy, Debug, PartialEq, Eq, Structural)]
pub enum HeadersPlace {
    Initial,
    Trailing,
}

/// How a header list violates the placement grammar.
#[derive(Clone, Copy, Debug, PartialEq, Eq, Structural)]
pub enum HeaderError {
    /// A pseudo-header (name starting with a colon) stands after a
    /// regular header in initial headers.
    PseudoHeaderAfterRegular,
    /// A pseudo-header stands in trailers, where none is allowed.
    PseudoHeaderInTrailers,
}

/// A pseudo-header name: non-empty and starting with an ASCII colon.
pub open spec fn is_pseudo(name: Seq<u8>) -> bool {
    name.len() > 0 && name[0] == 58u8
}

/// In initial headers every pseudo-header precedes every regular header.
pub open spec fn pseudo_before_regular(h: Seq<(Seq<u8>, Seq<u8>)>) -> bool {
    forall|i: int, j: int|
        0 <= i < j < h.len() && !is_pseudo(#[trigger] h[i].0) ==> !is_pseudo(#[trigger] h[j].0)
}

/// Trailers carry no pseudo-header at all.
pub open spec fn no_pseudo(h: Seq<(Seq<u8>, Seq<u8>)>) -> bool {
    forall|i: int| 0 <= i < h.len() ==> !is_pseudo(#[trigger] h[i].0)
}

/// The grammar a header list must meet at the given placement.
pub open spec fn valid_for_place(h: Seq<(Seq<u8>, Seq<u8>)>, place: HeadersPlace) -> bool {
    match place {
        HeadersPlace::Initial => pseudo_before_regular(h),
        HeadersPlace::Trailing => no_pseudo(h),
    }
}

/// An ASCII decimal digit.
pub open spec fn is_digit(b: u8) -> bool {
    48 <= b && b <= 57
}

pub open spec fn all_digits(s: Seq<u8>) -> bool {
    forall|i: int| 0 <= i < s.len() ==> is_digit(#[trigger] s[i])
}

/// The value of a digit string read as a decimal number.
pub open spec fn dec_value(s: Seq<u8>) -> int
    decreases s.len(),
{
    if s.len() == 0 {
        0
    } else {
        dec_value(s.drop_last()) * 10 + (s.last() - 48)
    }
}

/// What parsing a byte string as a decimal `u64` yields: a value exactly
/// when the string is non-empty, all digits, and the value fits.
pub open spec fn spec_parse_u64(s: Seq<u8>) -> Option<u64> {
    if s.len() > 0 && all_digits(s) && dec_value(s) <= u64::MAX {
        Some(dec_value(s) as u64)
    } else {
        None
    }
}

/// A digit string's value never shrinks as the string grows to the right.
proof fn lemma_dec_value_grows(s: Seq<u8>, i: int, j: int)
    requires
        0 <= i <= j <= s.len(),
        all_digits(s),
    ensures
        dec_value(s.subrange(0, i)) <= dec_value(s.subrange(0, j)),
        dec_value(s.subrange(0, i)) >= 0,
    decreases j - i,
{
    if i == j {
        lemma_dec_value_nonneg(s.subrange(0, i), s);
    } else {
        lemma_dec_value_grows(s, i, j - 1);
        let p = s.subrange(0, j);
        assert(p.drop_last() =~= s.subrange(0, j - 1));
        lemma_dec_value_nonneg(s.subrange(0, j - 1), s);
        assert(is_digit(s[j - 1]));
        assert(dec_value(s.subrange(0, j - 1)) * 10 >= dec_value(s.subrange(0, j - 1)));
    }
}

/// A prefix of a digit string has a non-negative value.
proof fn lemma_dec_value_nonneg(p: Seq<u8>, s: Seq<u8>)
    requires
        all_digits(s),
        exists|n: int| 0 <= n <= s.len() && p =~= s.subrange(0, n),
    ensures
        dec_value(p) >= 0,
    decreases p.len(),
{
    if p.len() != 0 {
        let n: int = choose|n: int| 0 <= n <= s.len() && p =~= s.subrange(0, n);
        assert(p.drop_last() =~= s.subrange(0, n - 1));
        lemma_dec_value_nonneg(p.drop_last(), s);
        assert(is_digit(s[n - 1]));
        assert(p.last() == s[n - 1]);
    }
}

/// Parses a byte string as a decimal `u64`: digits only, no sign, no
/// leading-zero allowance needed; `None` on empty, non-digit, or overflow.
pub fn parse_u64_dec(s: &[u8]) -> (r: Option<u64>)
    ensures
        r == spec_parse_u64(s@),
{
    if s.len() == 0 {
        return None;
    }
    let mut val: u64 = 0;
    let mut i: usize = 0;
    while i < s.len()
        invariant
            0 <= i <= s@.len(),
            s@.len() > 0,
            forall|k: int| 0 <= k < i ==> is_digit(#[trigger] s@[k]),
            val == dec_value(s@.subrange(0, i as int)),
        decreases s@.len() - i,
    {
        let b: u8 = s[i];
        if b < 48 || b > 57 {
            assert(!is_digit(s@[i as int]));
            assert(!all_digits(s@));
            return None;
        }
        let d: u64 = (b - 48) as u64;
        let scaled: u64 = match val.checked_mul(10) {
            Some(v) => v,
            None => {
                proof {
                    overflow_means_no_parse(s@, i as int, val, d);
                }
                return None;
            },
        };
        let next: u64 = match scaled.checked_add(d) {
            Some(v) => v,
            None => {
                proof {
                    overflow_means_no_parse(s@, i as int, val, d);
                }
                return None;
            },
        };
        proof {
            assert(s@.subrange(0, i + 1).drop_last() =~= s@.subrange(0, i as int));
        }
        val = next;
        i = i + 1;
    }
    proof {
        assert(s@.subrange(0, i as int) =~= s@);
    }
    Some(val)
}

/// When the running value can no longer be extended by the digit at `i`
/// within `u64`, the whole string's value is out of range.
proof fn overflow_means_no_parse(s: Seq<u8>, i: int, val: u64, d: u64)
    requires
        0 <= i < s.len(),
        is_digit(s[i]),
        forall|k: int| 0 <= k < i ==> is_digit(#[trigger] s[k]),
        val == dec_value(s.subrange(0, i)),
        d == s[i] - 48,
        val * 10 + d > u64::MAX,
    ensures
        spec_parse_u64(s) is None,
{
    if all_digits(s) {
        assert(s.subrange(0, i + 1).drop_last() =~= s.subrange(0, i));
        assert(dec_value(s.subrange(0, i + 1)) == val * 10 + d);
        lemma_dec_value_grows(s, i + 1, s.len() as int);
        assert(s.subrange(0, s.len() as int) =~= s);
        assert(dec_value(s) > u64::MAX);
    }
}

/// Whether two byte strings are equal.
pub fn bytes_eq(a: &[u8], b: &[u8]) -> (r: bool)
    ensures
        r == (a@ == b@),
{
    if a.len() != b.len() {
        assert(a@ != b@) by {
            assert(a@.len() != b@.len());
        }
        return false;
    }
    let mut i: usize = 0;
    while i < a.len()
        invariant
            0 <= i <= a@.len(),
            a@.len() == b@.len(),
            forall|k: int| 0 <= k < i ==> a@[k] == b@[k],
        decreases a@.len() - i,
    {
        if a[i] != b[i] {
            assert(a@ != b@) by {
                assert(a@[i as int] != b@[i as int]);
            }
            return false;
        }
        i = i + 1;
    }
    proof {
        assert(a@ =~= b@);
    }
    true
}

/// The first value stored under `name`, if any.
pub open spec fn spec_first_value(h: Seq<(Seq<u8>, Seq<u8>)>, name: Seq<u8>) -> Option<Seq<u8>>
    decreases h.len(),
{
    if h.len() == 0 {
        None
    } else if h[0].0 == name {
        Some(h[0].1)
    } else {
        spec_first_value(h.drop_first(), name)
    }
}

impl Headers {
    pub fn new(headers: Vec<Header>) -> (r: Headers)
        ensures
            r@ == headers@.map_values(|h: Header| h@),
    {
        Headers { headers }
    }

    pub fn empty() -> (r: Headers)
        ensures
            r@ == Seq::<(Seq<u8>, Seq<u8>)>::empty(),
    {
        let r = Headers { headers: Vec::new() };
        proof {
            assert(r@ =~= Seq::<(Seq<u8>, Seq<u8>)>::empty());
        }
        r
    }

    pub fn len(&self) -> (r: usize)
        ensures
            r == self@.len(),
    {
        self.headers.len()
    }

    /// Appends one header at the end of the list.
    pub fn add(&mut self, h: Header)
        ensures
            final(self)@ == old(self)@.push(h@),
    {
        let ghost before = self@;
        let ghost hv = h@;
        self.headers.push(h);
        proof {
            assert(self@ =~= before.push(hv));
        }
    }

    /// The first value stored under `name`, copied out, if any.
    pub fn get(&self, name: &[u8]) -> (r: Option<Vec<u8>>)
        ensures
            match r {
                Some(v) => spec_first_value(self@, name@) == Some(v@),
                None => spec_first_value(self@, name@) is None,
            },
    {
        let mut i: usize = 0;
        proof {
            assert(self@.subrange(0, self@.len() as int) =~= self@);
        }
        while i < self.headers.len()
            invariant
                0 <= i <= self.headers@.len(),
                spec_first_value(self@, name@) == spec_first_value(
                    self@.subrange(i as int, self@.len() as int),
                    name@,
                ),
            decreases self.headers@.len() - i,
        {
            let ghost rest = self@.subrange(i as int, self@.len() as int);
            if bytes_eq(self.headers[i].name.as_slice(), name) {
                assert(rest[0] == self@[i as int]);
                return Some(clone_bytes(&self.headers[i].value));
            }
            proof {
                assert(rest[0] == self@[i as int]);
                assert(rest.drop_first() =~= self@.subrange(i + 1, self@.len() as int));
            }
            i = i + 1;
        }
        proof {
            assert(self@.subrange(i as int, self@.len() as int) =~= Seq::<
                (Seq<u8>, Seq<u8>),
            >::empty());
        }
        None
    }

    /// The declared content length: the first `content-length` header
    /// parsed as a decimal number, if present and well formed.
    pub fn content_length(&self) -> (r: Option<u64>)
        ensures
            r == spec_content_length(self@),
    {
        let name = content_length_name();
        match self.get(name.as_slice()) {
            Some(v) => parse_u64_dec(v.as_slice()),
            None => None,
        }
    }

    /// The status pseudo-header parsed as a decimal number, if present
    /// and well formed.
    pub fn status_code(&self) -> (r: Option<u64>)
        ensures
            r == spec_status_code(self@),
    {
        let name = status_name();
        match self.get(name.as_slice()) {
            Some(v) => parse_u64_dec(v.as_slice()),
            None => None,
        }
    }

    /// Checks the placement grammar: in initial headers every
    /// pseudo-header must precede every regular header; trailers must
    /// carry no pseudo-header.
    pub fn validate(&self, place: HeadersPlace) -> (r: Result<(), HeaderError>)
        ensures
            r is Ok <==> valid_for_place(self@, place),
    {
        let mut seen_regular = false;
        let mut i: usize = 0;
        while i < self.headers.len()
            invariant
                0 <= i <= self.headers@.len(),
                seen_regular == exists|k: int| 0 <= k < i && !is_pseudo(#[trigger] self@[k].0),
                forall|p: int, q: int|
                    0 <= p < q < i && !is_pseudo(#[trigger] self@[p].0) ==> !is_pseudo(
                        #[trigger] self@[q].0,
                    ),
                place == HeadersPlace::Trailing ==> forall|k: int|
                    0 <= k < i ==> !is_pseudo(#[trigger] self@[k].0),
            decreases self.headers@.len() - i,
        {
            let h = &self.headers[i];
            let pseudo = h.name.len() > 0 && h.name[0] == 58;
            assert(pseudo == is_pseudo(self@[i as int].0));
            match place {
                HeadersPlace::Initial => {
                    if pseudo && seen_regular {
                        return Err(HeaderError::PseudoHeaderAfterRegular);
                    }
                },
                HeadersPlace::Trailing => {
                    if pseudo {
                        return Err(HeaderError::PseudoHeaderInTrailers);
                    }
                },
            }
            if !pseudo {
                seen_regular = true;
            }
            i = i + 1;
        }
        Ok(())
    }

    /// The canonical internal-error response headers: a lone status
    /// pseudo-header carrying 500.
    pub fn internal_error_500() -> (r: Headers)
        ensures
            r@ =~= seq![(status_name_spec(), status_500_value())],
    {
        let mut hs: Vec<Header> = Vec::new();
        hs.push(Header { name: status_name(), value: status_500_bytes() });
        Headers { headers: hs }
    }
}

/// The `content-length` header name.
pub open spec fn content_length_name_spec() -> Seq<u8> {
    seq![99u8, 111u8, 110u8, 116u8, 101u8, 110u8, 116u8, 45u8, 108u8, 101u8, 110u8, 103u8, 116u8, 104u8]
}

/// The `:status` pseudo-header name.
pub open spec fn status_name_spec() -> Seq<u8> {
    seq![58u8, 115u8, 116u8, 97u8, 116u8, 117u8, 115u8]
}

/// The decimal digits of 500.
pub open spec fn status_500_value() -> Seq<u8> {
    seq![53u8, 48u8, 48u8]
}

/// The declared content length read from a header list.
pub open spec fn spec_content_length(h: Seq<(Seq<u8>, Seq<u8>)>) -> Option<u64> {
    match spec_first_value(h, content_length_name_spec()) {
        Some(v) => spec_parse_u64(v),
        None => None,
    }
}

/// The status code read from a header list.
pub open spec fn spec_status_code(h: Seq<(Seq<u8>, Seq<u8>)>) -> Option<u64> {
    match spec_first_value(h, status_name_spec()) {
        Some(v) => spec_parse_u64(v),
        None => None,
    }
}

/// The bytes of `content-length`.
pub fn content_length_name() -> (r: Vec<u8>)
    ensures
        r@ == content_length_name_spec(),
{
    let v = vec![99u8, 111u8, 110u8, 116u8, 101u8, 110u8, 116u8, 45u8, 108u8, 101u8, 110u8, 103u8, 116u8, 104u8];
    proof {
        assert(v@ =~= content_length_name_spec());
    }
    v
}

/// The bytes of `:status`.
pub fn status_name() -> (r: Vec<u8>)
    ensures
        r@ == status_name_spec(),
{
    let v = vec![58u8, 115u8, 116u8, 97u8, 116u8, 117u8, 115u8];
    proof {
        assert(v@ =~= status_name_spec());
    }
    v
}

/// The bytes of `500`.
pub fn status_500_bytes() -> (r: Vec<u8>)
    ensures
        r@ == status_500_value(),
{
    let v = vec![53u8, 48u8, 48u8];
    proof {
        assert(v@ =~= status_500_value());
    }
    v
}

/// Copies a byte vector.
pub fn clone_bytes(v: &Vec<u8>) -> (r: Vec<u8>)
    ensures
        r@ == v@,
{
    let mut out: Vec<u8> = Vec::new();
    let mut i: usize = 0;
    while i < v.len()
        invariant
            0 <= i <= v@.len(),
            out@ == v@.subrange(0, i as int),
        decreases v@.len() - i,
    {
        out.push(v[i]);
        proof {
            assert(v@.subrange(0, i + 1) =~= v@.subrange(0, i as int).push(v@[i as int]));
        }
        i = i + 1;
    }
    proof {
        assert(v@.subrange(0, i as int) =~= v@);
    }
    out
}

} // verus!
