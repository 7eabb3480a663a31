//! HTTP requests and replies, as the host performs and hands them back.
use crate::base64_text::{base64_decoded, base64_length, decode_base64};
use crate::json::optional_text;
use vstd::prelude::*;
use vstd::string::*;
use vstd::utf8::encode_utf8;

verus! {

/// The HTTP methods in use.
#[derive(Clone, Copy, PartialEq, Eq, Structural, Debug)]
pub enum Method {
    Get,
    Post,
    Patch,
    Delete,
}

impl Method {
    /// The name of the method in a request.
    pub open spec fn model(self) -> Seq<char> {
        match self {
            Method::Get => "GET"@,
            Method::Post => "POST"@,
            Method::Patch => "PATCH"@,
            Method::Delete => "DELETE"@,
        }
    }

    /// The name of the method in a request.
    pub fn name(self) -> (name: &'static str)
        ensures
            name@ == self.model(),
    {
        match self {
            Method::Get => "GET",
            Method::Post => "POST",
            Method::Patch => "PATCH",
            Method::Delete => "DELETE",
        }
    }
}

/// The body of a request.
#[derive(Debug, PartialEq, Eq)]
pub enum Body {
    Empty,
    Text(String),
    Bytes(Vec<u8>),
}

/// What the body of a request holds.
pub enum BodyModel {
    Empty,
    Text(Seq<char>),
    Bytes(Seq<u8>),
}

impl View for Body {
    type V = BodyModel;

    open spec fn view(&self) -> BodyModel {
        match self {
            Body::Empty => BodyModel::Empty,
            Body::Text(text) => BodyModel::Text(text@),
            Body::Bytes(bytes) => BodyModel::Bytes(bytes@),
        }
    }
}

/// An HTTP request. Header names occur once each.
#[derive(Debug, PartialEq, Eq)]
pub struct HttpRequest {
    pub method: Method,
    pub url: String,
    pub headers: Vec<(String, String)>,
    pub body: Body,
}

/// What an HTTP request asks for.
pub struct HttpRequestModel {
    pub method: Method,
    pub url: Seq<char>,
    pub headers: Seq<(Seq<char>, Seq<char>)>,
    pub body: BodyModel,
}

/// The names and values of a list of headers.
pub open spec fn header_models(headers: Seq<(String, String)>) -> Seq<(Seq<char>, Seq<char>)> {
    headers.map_values(|header: (String, String)| (header.0@, header.1@))
}

impl View for HttpRequest {
    type V = HttpRequestModel;

    open spec fn view(&self) -> HttpRequestModel {
        HttpRequestModel {
            method: self.method,
            url: self.url@,
            headers: header_models(self.headers@),
            body: self.body@,
        }
    }
}

/// An HTTP reply: its status, its body as text, and its body in base64 where
/// the host handed it over so.
#[derive(Debug, PartialEq, Eq)]
pub struct HttpReply {
    pub status: u16,
    pub body: String,
    pub body_base64: Option<String>,
}

/// What an HTTP reply says.
pub struct HttpReplyModel {
    pub status: u16,
    pub body: Seq<char>,
    pub body_base64: Option<Seq<char>>,
}

impl View for HttpReply {
    type V = HttpReplyModel;

    open spec fn view(&self) -> HttpReplyModel {
        HttpReplyModel {
            status: self.status,
            body: self.body@,
            body_base64: optional_text(self.body_base64),
        }
    }
}

/// What came of an HTTP request: a reply, or the host's message that there is
/// none.
pub open spec fn http_outcome(outcome: Result<HttpReply, String>) -> Result<
    HttpReplyModel,
    Seq<char>,
> {
    match outcome {
        Ok(reply) => Ok(reply@),
        Err(message) => Err(message@),
    }
}

/// The bytes of a reply's body: the base64 body decoded where there is one, the
/// text otherwise.
pub open spec fn reply_bytes(reply: HttpReplyModel) -> Result<Seq<u8>, Seq<char>> {
    match reply.body_base64 {
        Some(text) => match base64_decoded(text) {
            Ok(bytes) => Ok(bytes),
            Err(message) => Err("Failed to decode response body: "@ + message),
        },
        None => Ok(encode_utf8(reply.body)),
    }
}

/// The bytes of the reply can be written in base64 again.
pub open spec fn is_encodable(reply: HttpReplyModel) -> bool {
    match reply.body_base64 {
        Some(text) => encode_utf8(text).len() <= isize::MAX,
        None => base64_length(encode_utf8(reply.body).len()) <= isize::MAX,
    }
}

/// Tells whether the bytes of the reply can be written in base64 again.
pub fn fits_base64(reply: &HttpReply) -> (fits: bool)
    ensures
        fits == is_encodable(reply@),
{
    let limit: usize = isize::MAX as usize;
    match &reply.body_base64 {
        Some(text) => text.as_str().as_bytes().len() <= limit,
        None => {
            let size: usize = reply.body.as_str().as_bytes().len();
            let groups: usize = if size % 3 == 0 {
                size / 3
            } else {
                size / 3 + 1
            };
            groups <= limit / 4
        },
    }
}

proof fn lemma_encoding_is_no_shorter(text: Seq<char>)
    ensures
        text.len() <= encode_utf8(text).len(),
    decreases text.len(),
{
    if text.len() > 0 {
        lemma_encoding_is_no_shorter(text.drop_first());
    }
}

/// Takes the bytes of a reply's body.
pub fn body_bytes(reply: &HttpReply) -> (bytes: Result<Vec<u8>, String>)
    ensures
        match bytes {
            Ok(inner) => reply_bytes(reply@) == Ok::<Seq<u8>, Seq<char>>(inner@),
            Err(message) => reply_bytes(reply@) == Err::<Seq<u8>, Seq<char>>(message@),
        },
        bytes matches Ok(inner) ==> is_encodable(reply@) ==> base64_length(inner@.len())
            <= isize::MAX,
{
    match &reply.body_base64 {
        Some(text) => match decode_base64(text.as_str()) {
            Ok(bytes) => {
                proof {
                    lemma_encoding_is_no_shorter(text@);
                }
                Ok(bytes)
            },
            Err(message) => Err(
                "Failed to decode response body: ".to_string().concat(message.as_str()),
            ),
        },
        None => Ok(reply.body.as_str().as_bytes_vec()),
    }
}

} // verus!
