//! HTTP replies as plain data.

use vstd::prelude::*;

verus! {

/// The name and the value of a header.
pub type HeaderView = (Seq<char>, Seq<char>);

/// The headers of a message, in order.
#[derive(Debug)]
pub struct Headers {
    pub list: Vec<(String, String)>,
}

/// The names and values of the headers.
pub open spec fn headers_view(list: Seq<(String, String)>) -> Seq<HeaderView> {
    Seq::new(list.len(), |i: int| (list[i].0@, list[i].1@))
}

impl View for Headers {
    type V = Seq<HeaderView>;

    open spec fn view(&self) -> Seq<HeaderView> {
        headers_view(self.list@)
    }
}

impl Headers {
    /// No headers.
    pub fn new() -> (r: Headers)
        ensures
            r@ == Seq::<HeaderView>::empty(),
    {
        let r: Headers = Headers { list: Vec::new() };
        assert(r@ =~= Seq::<HeaderView>::empty());
        r
    }

    /// One more header.
    pub fn with(self, name: &str, value: &str) -> (r: Headers)
        ensures
            r@ == self@.push((name@, value@)),
    {
        let mut list: Vec<(String, String)> = self.list;
        list.push((name.to_owned(), value.to_owned()));
        let r: Headers = Headers { list };
        assert(r@ =~= self@.push((name@, value@)));
        r
    }
}

/// A complete reply.
#[derive(Debug)]
pub struct HttpReply {
    pub status: u16,
    pub headers: Headers,
    pub body: Vec<u8>,
}

/// The content of a reply.
#[verifier::ext_equal]
pub struct ReplyView {
    pub status: u16,
    pub headers: Seq<HeaderView>,
    pub body: Seq<u8>,
}

impl View for HttpReply {
    type V = ReplyView;

    open spec fn view(&self) -> ReplyView {
        ReplyView { status: self.status, headers: self.headers@, body: self.body@ }
    }
}

/// The bytes of a text.
pub fn bytes_of(text: &str) -> (r: Vec<u8>)
    ensures
        r@ == vstd::utf8::encode_utf8(text@),
{
    vstd::slice::slice_to_vec(text.as_bytes())
}

/// Headers are told one by one, each with its own value.
pub proof fn law_headers_are_told_in_order(list: Seq<(String, String)>, i: int)
    requires
        0 <= i < list.len(),
    ensures
        headers_view(list).len() == list.len(),
        headers_view(list)[i].0 == list[i].0@,
        headers_view(list)[i].1 == list[i].1@,
{
}

/// A reply is told by its status, its headers and its body.
pub proof fn law_replies_are_told(reply: HttpReply)
    ensures
        reply@.status == reply.status,
        reply@.headers == headers_view(reply.headers.list@),
        reply@.body == reply.body@,
{
}

} // verus!
