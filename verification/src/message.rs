//! Requests, responses and their header fields.

use crate::method::Method;
use crate::status::Status;
use crate::text::fold_byte;
use crate::text::same_ignoring_case;
use crate::text::same_text_ignoring_case;
use vstd::prelude::*;
use vstd::utf8::encode_utf8;

verus! {

/// The model of a header field: its name and its value.
pub type Field = (Seq<char>, Seq<char>);

/// Whether two header names are the same name. Names are compared byte by byte in
/// UTF-8, and the case of the letters `A` to `Z` does not count.
pub open spec fn same_name(a: Seq<char>, b: Seq<char>) -> bool {
    same_ignoring_case(encode_utf8(a), encode_utf8(b))
}

/// The value of the first field that has the name.
pub open spec fn first_value(fields: Seq<Field>, name: Seq<char>) -> Option<Seq<char>>
    decreases fields.len(),
{
    if fields.len() == 0 {
        None
    } else if same_name(fields[0].0, name) {
        Some(fields[0].1)
    } else {
        first_value(fields.skip(1), name)
    }
}

/// A name is looked up the same whatever the case of its ASCII letters.
pub proof fn lemma_lookup_ignores_case(fields: Seq<Field>, a: Seq<char>, b: Seq<char>)
    requires
        same_name(a, b),
    ensures
        first_value(fields, a) == first_value(fields, b),
    decreases fields.len(),
{
    if fields.len() > 0 {
        let x = encode_utf8(fields[0].0);
        let p = encode_utf8(a);
        let q = encode_utf8(b);
        if same_ignoring_case(x, p) {
            assert forall|i: int| 0 <= i < x.len() implies fold_byte(#[trigger] x[i]) == fold_byte(
                q[i],
            ) by {
                assert(fold_byte(x[i]) == fold_byte(p[i]));
                assert(fold_byte(p[i]) == fold_byte(q[i]));
            }
        }
        if same_ignoring_case(x, q) {
            assert forall|i: int| 0 <= i < x.len() implies fold_byte(#[trigger] x[i]) == fold_byte(
                p[i],
            ) by {
                assert(fold_byte(x[i]) == fold_byte(q[i]));
                assert(fold_byte(p[i]) == fold_byte(q[i]));
            }
        }
        lemma_lookup_ignores_case(fields.skip(1), a, b);
    }
}

/// One header field.
#[derive(Clone, Debug, PartialEq, Eq)]
pub struct Header {
    pub name: String,
    pub value: String,
}

/// The header fields of a message, in the order in which they were added.
#[derive(Clone, Debug, PartialEq, Eq)]
pub struct Headers {
    pub fields: Vec<Header>,
}

impl View for Headers {
    type V = Seq<Field>;

    open spec fn view(&self) -> Seq<Field> {
        Seq::new(self.fields@.len(), |i: int| (self.fields@[i].name@, self.fields@[i].value@))
    }
}

impl Headers {
    /// No fields.
    pub fn new() -> (headers: Self)
        ensures
            headers@ == Seq::<Field>::empty(),
    {
        let headers = Headers { fields: Vec::new() };
        assert(headers@ =~= Seq::<Field>::empty());
        headers
    }

    /// Adds a field after those that are there.
    pub fn append(&mut self, name: &str, value: &str)
        ensures
            final(self)@ == old(self)@.push((name@, value@)),
    {
        self.fields.push(Header { name: name.to_owned(), value: value.to_owned() });
        assert(self@ =~= old(self)@.push((name@, value@)));
    }

    /// The value of the first field with the given name, whatever the case of its letters.
    pub fn get(&self, name: &str) -> (value: Option<&str>)
        ensures
            match value {
                Some(found) => first_value(self@, name@) == Some(found@),
                None => first_value(self@, name@) is None,
            },
    {
        let mut i: usize = 0;
        assert(self@.skip(0) =~= self@);
        while i < self.fields.len()
            invariant
                0 <= i <= self.fields@.len(),
                first_value(self@, name@) == first_value(self@.skip(i as int), name@),
            decreases self.fields@.len() - i,
        {
            let field = &self.fields[i];
            let rest = Ghost(self@.skip(i as int));
            assert(rest@[0] == (field.name@, field.value@));
            assert(rest@.skip(1) =~= self@.skip(i + 1));
            if same_text_ignoring_case(field.name.as_str(), name) {
                return Some(field.value.as_str());
            }
            i += 1;
        }
        assert(self@.skip(i as int).len() == 0);
        None
    }
}

/// The model of a request.
pub struct RequestView {
    pub method: Method,
    pub path: Seq<char>,
    pub headers: Seq<Field>,
    pub body: Seq<u8>,
}

/// An inbound request.
#[derive(Clone, Debug, PartialEq, Eq)]
pub struct Request {
    pub method: Method,
    pub path: String,
    pub headers: Headers,
    pub body: Vec<u8>,
}

impl View for Request {
    type V = RequestView;

    open spec fn view(&self) -> RequestView {
        RequestView {
            method: self.method,
            path: self.path@,
            headers: self.headers@,
            body: self.body@,
        }
    }
}

impl Request {
    /// A request without header fields.
    pub fn new(method: Method, path: &str, body: Vec<u8>) -> (request: Self)
        ensures
            request@ == (RequestView {
                method,
                path: path@,
                headers: Seq::<Field>::empty(),
                body: body@,
            }),
    {
        Request { method, path: path.to_owned(), headers: Headers::new(), body }
    }
}

/// The model of a response.
pub struct ResponseView {
    pub status: Status,
    pub headers: Seq<Field>,
    pub body: Seq<u8>,
}

/// An outbound response.
#[derive(Clone, Debug, PartialEq, Eq)]
pub struct Response {
    pub status: Status,
    pub headers: Headers,
    pub body: Vec<u8>,
}

impl View for Response {
    type V = ResponseView;

    open spec fn view(&self) -> ResponseView {
        ResponseView { status: self.status, headers: self.headers@, body: self.body@ }
    }
}

} // verus!
