//! Answers to requests, as plain values.

pub mod build_response;
pub mod http_templates;

use vstd::prelude::*;

verus! {

/// The body of an answer.
#[derive(Debug, PartialEq, Eq)]
pub enum HttpBody {
    Empty,
    Text(String),
    Binary(Vec<u8>),
}

/// One header line of an answer.
#[derive(Debug, PartialEq, Eq)]
pub struct HttpHeader {
    pub name: String,
    pub value: String,
}

/// An answer: status code, header lines in order, and body.
#[derive(Debug, PartialEq, Eq)]
pub struct HttpResponse {
    pub status: u16,
    pub headers: Vec<HttpHeader>,
    pub body: HttpBody,
}

/// What a body holds.
pub enum BodyView {
    Empty,
    Text(Seq<char>),
    Binary(Seq<u8>),
}

/// What an answer holds: each header line is a name and a value.
pub struct ResponseView {
    pub status: int,
    pub headers: Seq<(Seq<char>, Seq<char>)>,
    pub body: BodyView,
}

impl View for HttpBody {
    type V = BodyView;

    open spec fn view(&self) -> BodyView {
        match self {
            HttpBody::Empty => BodyView::Empty,
            HttpBody::Text(text) => BodyView::Text(text@),
            HttpBody::Binary(bytes) => BodyView::Binary(bytes@),
        }
    }
}

impl View for HttpHeader {
    type V = (Seq<char>, Seq<char>);

    open spec fn view(&self) -> (Seq<char>, Seq<char>) {
        (self.name@, self.value@)
    }
}

impl View for HttpResponse {
    type V = ResponseView;

    open spec fn view(&self) -> ResponseView {
        ResponseView {
            status: self.status as int,
            headers: self.headers@.map_values(|header: HttpHeader| header@),
            body: self.body@,
        }
    }
}

impl HttpResponse {
    /// An answer with the given status and body and no header line.
    pub fn new(status: u16, body: HttpBody) -> (response: HttpResponse)
        ensures
            response@ == (ResponseView {
                status: status as int,
                headers: Seq::empty(),
                body: body@,
            }),
    {
        let response = HttpResponse { status, headers: Vec::new(), body };
        assert(response@.headers =~= Seq::empty());
        response
    }

    /// This answer with one more header line at the end.
    pub fn header(self, name: &str, value: &str) -> (response: HttpResponse)
        ensures
            response@ == (ResponseView {
                headers: self@.headers.push((name@, value@)),
                ..self@
            }),
    {
        let mut response = self;
        response.headers.push(HttpHeader { name: name.to_owned(), value: value.to_owned() });
        assert(response@.headers =~= self@.headers.push((name@, value@)));
        response
    }
}

} // verus!
