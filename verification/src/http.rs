//! The parts of an HTTP request and of its response that the handshake reads and
//! writes.

use crate::text::{eq_ignoring_case, same_ignoring_case};
use vstd::prelude::*;
use vstd::utf8::*;

verus! {

/// Name of a header field. Case does not matter in it.
#[derive(Debug)]
pub struct HeaderField(pub String);

impl View for HeaderField {
    type V = Seq<char>;

    open spec fn view(&self) -> Seq<char> {
        self.0@
    }
}

impl HeaderField {
    /// Whether this is the field called `other`.
    pub fn equiv(&self, other: &str) -> (same: bool)
        ensures
            same == same_ignoring_case(self@, other@),
    {
        eq_ignoring_case(self.0.as_str(), other)
    }
}

/// A header field with its value.
#[derive(Debug)]
pub struct Header {
    pub field: HeaderField,
    pub value: String,
}

/// Name and value of a [`Header`].
#[verifier::ext_equal]
pub struct HeaderView {
    pub field: Seq<char>,
    pub value: Seq<char>,
}

impl HeaderView {
    /// Name and value are ASCII, as headers are.
    pub open spec fn is_ascii(self) -> bool {
        is_ascii_chars(self.field) && is_ascii_chars(self.value)
    }
}

impl View for Header {
    type V = HeaderView;

    open spec fn view(&self) -> HeaderView {
        HeaderView { field: self.field@, value: self.value@ }
    }
}

/// Names and values of a list of headers.
pub open spec fn headers_view(headers: Seq<Header>) -> Seq<HeaderView> {
    headers.map_values(|h: Header| h@)
}

/// The value of the first header called `name`.
pub open spec fn field_value(headers: Seq<HeaderView>, name: Seq<char>) -> Option<Seq<char>>
    decreases headers.len(),
{
    if headers.len() == 0 {
        None
    } else if same_ignoring_case(headers[0].field, name) {
        Some(headers[0].value)
    } else {
        field_value(headers.drop_first(), name)
    }
}

/// An HTTP request, of which only the header counts here.
#[derive(Debug)]
pub struct Request {
    headers: Vec<Header>,
}

impl View for Request {
    type V = Seq<HeaderView>;

    closed spec fn view(&self) -> Seq<HeaderView> {
        headers_view(self.headers@)
    }
}

impl Request {
    /// A request with the given headers.
    pub fn new(headers: Vec<Header>) -> (request: Request)
        ensures
            request@ == headers_view(headers@),
    {
        Request { headers }
    }

    /// The headers, in the order in which they came.
    pub fn headers(&self) -> (headers: &[Header])
        ensures
            headers_view(headers@) == self@,
    {
        self.headers.as_slice()
    }

    /// The value of the first header called `name`.
    pub fn value(&self, name: &str) -> (value: Option<&str>)
        ensures
            value is Some <==> field_value(self@, name@) is Some,
            value matches Some(v) ==> field_value(self@, name@) == Some(v@),
    {
        let headers = self.headers();
        let ghost views = headers_view(headers@);
        let mut i: usize = 0;
        assert(views.skip(0) =~= views);
        while i < headers.len()
            invariant
                views == headers_view(headers@),
                views == self@,
                i <= headers@.len(),
                field_value(views, name@) == field_value(views.skip(i as int), name@),
            decreases headers@.len() - i,
        {
            let ghost rest = views.skip(i as int);
            let h = &headers[i];
            assert(rest[0] == h@);
            if h.field.equiv(name) {
                return Some(h.value.as_str());
            }
            assert(rest.drop_first() =~= views.skip(i + 1));
            i = i + 1;
        }
        None
    }
}

/// Status of a response.
#[derive(Debug, Clone, Copy, PartialEq, Eq, Structural)]
pub struct StatusCode(pub u16);

/// The head of an HTTP response. Its body is empty.
#[derive(Debug)]
pub struct Response {
    pub status: StatusCode,
    pub headers: Vec<Header>,
}

/// Status and headers of a [`Response`].
#[verifier::ext_equal]
pub struct ResponseView {
    pub status: StatusCode,
    pub headers: Seq<HeaderView>,
}

impl View for Response {
    type V = ResponseView;

    open spec fn view(&self) -> ResponseView {
        ResponseView { status: self.status, headers: headers_view(self.headers@) }
    }
}

impl Response {
    /// A response without headers.
    pub fn empty(status: StatusCode) -> (response: Response)
        ensures
            response@ == (ResponseView { status, headers: Seq::empty() }),
    {
        let headers: Vec<Header> = Vec::new();
        assert(headers_view(headers@) =~= Seq::<HeaderView>::empty());
        Response { status, headers }
    }

    /// Puts a header behind those that are there.
    pub(crate) fn push_header(&mut self, header: Header)
        ensures
            final(self)@.status == old(self)@.status,
            final(self)@.headers == old(self)@.headers.push(header@),
    {
        let ghost before = self.headers@;
        self.headers.push(header);
        assert(headers_view(self.headers@) =~= headers_view(before).push(header@));
    }
}

/// The case in which a header is asked for does not matter.
pub proof fn law_name_case_ignored(headers: Seq<HeaderView>, a: Seq<char>, b: Seq<char>)
    requires
        same_ignoring_case(a, b),
    ensures
        field_value(headers, a) == field_value(headers, b),
    decreases headers.len(),
{
    if headers.len() > 0 {
        law_name_case_ignored(headers.drop_first(), a, b);
    }
}

/// Whether two lists of headers differ in the case of names alone.
pub open spec fn same_but_for_case(a: Seq<HeaderView>, b: Seq<HeaderView>) -> bool {
    &&& a.len() == b.len()
    &&& forall|i: int|
        #![trigger a[i]]
        0 <= i < a.len() ==> same_ignoring_case(a[i].field, b[i].field) && a[i].value == b[i].value
}

/// The case in which headers are written does not matter either: two requests
/// whose headers differ in the case of names alone have the same values.
pub proof fn law_field_case_ignored(a: Seq<HeaderView>, b: Seq<HeaderView>, name: Seq<char>)
    requires
        same_but_for_case(a, b),
    ensures
        field_value(a, name) == field_value(b, name),
    decreases a.len(),
{
    if a.len() > 0 {
        assert(same_ignoring_case(a[0].field, b[0].field));
        law_field_case_ignored(a.drop_first(), b.drop_first(), name);
    }
}

/// Of several headers with one name the first counts: what is put behind does not
/// change a value that is there.
pub proof fn law_first_header_counts(
    headers: Seq<HeaderView>,
    more: Seq<HeaderView>,
    name: Seq<char>,
)
    ensures
        field_value(headers + more, name) == (match field_value(headers, name) {
            Some(value) => Some(value),
            None => field_value(more, name),
        }),
    decreases headers.len(),
{
    if headers.len() > 0 {
        assert((headers + more).drop_first() =~= headers.drop_first() + more);
        law_first_header_counts(headers.drop_first(), more, name);
    } else {
        assert(headers + more =~= more);
    }
}

/// The headers that are not called `name`.
pub open spec fn without_field(headers: Seq<HeaderView>, name: Seq<char>) -> Seq<HeaderView>
    decreases headers.len(),
{
    if headers.len() == 0 {
        headers
    } else {
        let rest = without_field(headers.drop_first(), name);
        if same_ignoring_case(headers[0].field, name) {
            rest
        } else {
            seq![headers[0]] + rest
        }
    }
}

/// The headers of one name have no say in the value of another.
pub proof fn law_other_fields_ignored(
    headers: Seq<HeaderView>,
    other: Seq<char>,
    name: Seq<char>,
)
    requires
        !same_ignoring_case(other, name),
    ensures
        field_value(without_field(headers, other), name) == field_value(headers, name),
    decreases headers.len(),
{
    if headers.len() > 0 {
        let rest = without_field(headers.drop_first(), other);
        law_other_fields_ignored(headers.drop_first(), other, name);
        assert((seq![headers[0]] + rest).drop_first() =~= rest);
    }
}

} // verus!
