//! One credential's exchange with the endpoint: the request that is sent,
//! the client it is sent through, and the retries it has used up.

use vstd::prelude::*;
use reqwest::blocking::Client;
use crate::protocol::{failures_after, next_step, step_of, Reply, Step};

verus! {

/// The resource that tells a valid credential from an invalid one.
pub const ENDPOINT: &'static str = "https://discord.com/api/v9/users/@me/library";

/// The content type that every request declares.
pub const CONTENT_TYPE: &'static str = "application/json";

/// The method of a request.
#[derive(Clone, Copy, Debug, PartialEq, Eq, Structural)]
pub enum Method {
    /// `GET`: the only method that validation uses.
    Get,
}

/// The request that validates one credential: a GET of `url` with two
/// headers, `Content-Type` and `Authorization`.
#[derive(Clone, Debug, PartialEq, Eq)]
pub struct Request {
    /// How the resource is asked for.
    pub method: Method,
    /// Where the request goes.
    pub url: String,
    /// The value of the `Content-Type` header.
    pub content_type: String,
    /// The value of the `Authorization` header.
    pub authorization: String,
}

/// The one request that validates `credential`, as text.
pub open spec fn request_of(credential: Seq<char>, request: Request) -> bool {
    &&& request.method == Method::Get
    &&& request.url@ == ENDPOINT@
    &&& request.content_type@ == CONTENT_TYPE@
    &&& request.authorization@ == credential
}

impl Request {
    /// The request that validates `credential`: a GET of the fixed endpoint,
    /// with the JSON content type and the credential itself as the
    /// authorization.
    pub fn new(credential: &str) -> (request: Request)
        ensures
            request_of(credential@, request),
    {
        Request {
            method: Method::Get,
            url: ENDPOINT.to_owned(),
            content_type: CONTENT_TYPE.to_owned(),
            authorization: credential.to_owned(),
        }
    }
}

/// An exchange in progress. It keeps the client it began with until it ends.
pub struct Exchange<'a> {
    client: &'a Client,
    request: Request,
    failures: u8,
}

impl<'a> Exchange<'a> {
    /// The client that every request of this exchange goes through.
    pub closed spec fn client_of(&self) -> Client {
        *self.client
    }

    /// The request that is sent, each time the same.
    pub closed spec fn request_sent(&self) -> Request {
        self.request
    }

    /// Transport failures in a row since the endpoint last answered.
    pub closed spec fn failures_so_far(&self) -> u8 {
        self.failures
    }

    /// Begins the exchange that validates `credential` through `client`.
    pub fn begin(client: &'a Client, credential: &str) -> (exchange: Exchange<'a>)
        ensures
            exchange.client_of() == *client,
            request_of(credential@, exchange.request_sent()),
            exchange.failures_so_far() == 0,
    {
        Exchange { client, request: Request::new(credential), failures: 0 }
    }

    /// The client to send through.
    pub fn client(&self) -> (client: &'a Client)
        ensures
            *client == self.client_of(),
    {
        self.client
    }

    /// The request to send.
    pub fn request(&self) -> (request: &Request)
        ensures
            *request == self.request_sent(),
    {
        &self.request
    }

    /// Transport failures in a row since the endpoint last answered.
    pub fn failures(&self) -> (failures: u8)
        ensures
            failures == self.failures_so_far(),
    {
        self.failures
    }

    /// Takes the reply to the request last sent and decides what follows.
    /// The client and the request stay as they are, whatever the reply.
    pub fn advance(&mut self, reply: &Reply) -> (step: Step)
        ensures
            step == step_of(old(self).failures_so_far(), *reply),
            final(self).failures_so_far() == failures_after(old(self).failures_so_far(), *reply),
            final(self).client_of() == old(self).client_of(),
            final(self).request_sent() == old(self).request_sent(),
    {
        let (step, failures) = next_step(self.failures, reply);
        self.failures = failures;
        step
    }
}

} // verus!
