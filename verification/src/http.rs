//! What a REST provider asks of a transport, and what comes back.

use vstd::prelude::*;
use crate::error::Error;
use crate::field_map::FieldMap;
use crate::json::JsonValue;

verus! {

/// The verb of a request.
#[derive(Debug, Clone, Copy, PartialEq, Eq)]
pub enum Method {
    Get,
    Post,
    Put,
    Delete,
}

/// A request for the transport to send: the verb, the URL, and the members
/// of the JSON object that goes as its body, where it has one.
#[derive(Debug)]
pub struct HttpRequest<'a> {
    pub method: Method,
    pub url: String,
    pub body: Option<&'a FieldMap<JsonValue>>,
}

/// What the backend answered: the status code and the text of the body.
#[derive(Debug)]
pub struct HttpResponse {
    pub status: u16,
    pub body: String,
}

/// How the sending of a request ended.
#[derive(Debug)]
pub enum Reply {
    /// The backend answered.
    Response(HttpResponse),
    /// The backend was not reached; the text says why.
    Failure(String),
}

/// Whether a status code tells success: whether it lies in 200..=299.
pub open spec fn is_success(status: u16) -> bool {
    200 <= status < 300
}

impl<'a> HttpRequest<'a> {
    /// The request with the verb `method` and the body `body` to the URL
    /// that the parser made of a composed text; the parser's error where it
    /// made none.
    pub fn to_parsed(
        method: Method,
        parsed: Result<String, url::ParseError>,
        body: Option<&'a FieldMap<JsonValue>>,
    ) -> (res: Result<HttpRequest<'a>, Error>)
        ensures
            match parsed {
                Ok(url) => res matches Ok(request) && request.method == method && request.url
                    == url && request.body == body,
                Err(e) => res == Err::<HttpRequest<'a>, Error>(Error::Url(e)),
            },
    {
        match parsed {
            Ok(url) => Ok(HttpRequest { method, url, body }),
            Err(e) => Err(Error::Url(e)),
        }
    }
}

impl HttpResponse {
    /// Whether the status code tells success.
    pub fn is_success(&self) -> (b: bool)
        ensures
            b == is_success(self.status),
    {
        200 <= self.status && self.status < 300
    }
}

} // verus!
