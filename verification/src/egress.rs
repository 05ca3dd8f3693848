//! The egress clients as the HTTP library provides them: the handles that
//! requests go out through, and the proxies they can be bound to.
//!
//! Nothing in this file is proved. Each item states what the rest of the
//! crate takes on trust about `reqwest`.

use vstd::prelude::*;
use reqwest::blocking::{Client, ClientBuilder};
use reqwest::{Error, Proxy};

verus! {

/// `reqwest::blocking::Client`: a handle that issues requests. Opaque here.
#[verifier::external_type_specification]
#[verifier::external_body]
pub struct ExClient(reqwest::blocking::Client);

/// `reqwest::blocking::ClientBuilder`: the configuration of a client that is
/// not built yet. Opaque here.
#[verifier::external_type_specification]
#[verifier::external_body]
pub struct ExClientBuilder(reqwest::blocking::ClientBuilder);

/// `reqwest::Proxy`: a proxy that a client can be bound to. Opaque here.
#[verifier::external_type_specification]
#[verifier::external_body]
pub struct ExProxy(reqwest::Proxy);

/// `reqwest::Error`: why a proxy or a client could not be made. Opaque here.
#[verifier::external_type_specification]
#[verifier::external_body]
pub struct ExError(reqwest::Error);

/// Whether `reqwest::Proxy::http` takes `address` as the URL of a proxy. The
/// answer rests on the text alone: the function parses it as a URL, a second
/// time with `http://` in front where the text alone is none, and reads the
/// proxy's scheme and host from the URL. Nothing more is known of it here.
pub uninterp spec fn proxy_accepted(address: Seq<char>) -> bool;

/// The route that `reqwest::Proxy::http` makes of an address it accepts:
/// which traffic the proxy takes and where it sends it, as the text of the
/// address alone decides.
pub uninterp spec fn route_of(address: Seq<char>) -> Seq<char>;

/// The route of a proxy that has been made.
pub uninterp spec fn proxy_route(proxy: Proxy) -> Seq<char>;

/// The routes of the proxies that a configuration lists, in the order in
/// which they were added.
pub uninterp spec fn builder_routes(builder: ClientBuilder) -> Seq<Seq<char>>;

/// Whether a configuration still adds, when the client is built, the proxy
/// that the process's environment names.
pub uninterp spec fn builder_adds_system_proxy(builder: ClientBuilder) -> bool;

/// The routes of the proxies that a built client sends through, in the order
/// in which it tries them. None: the client goes out directly.
pub uninterp spec fn client_routes(client: Client) -> Seq<Seq<char>>;

/// `reqwest::Proxy::http`: a proxy for all HTTP traffic at `address`. Claimed:
/// it succeeds exactly on the addresses for which `proxy_accepted` holds, and
/// the proxy it makes has the route that the address stands for.
#[verifier::external_body]
pub(crate) fn http_proxy(address: &str) -> (made: Result<Proxy, Error>)
    ensures
        made.is_ok() == proxy_accepted(address@),
        made matches Ok(proxy) ==> proxy_route(proxy) == route_of(address@),
{
    Proxy::http(address)
}

/// `reqwest::blocking::Client::builder`: a configuration with the defaults.
/// Claimed: it lists no proxy.
pub assume_specification[ Client::builder ]() -> (builder: ClientBuilder)
    ensures
        builder_routes(builder) == Seq::<Seq<char>>::empty(),
;

/// `reqwest::blocking::ClientBuilder::proxy`: the same configuration with one
/// proxy more. Claimed: the proxy is added behind those already listed, and
/// the proxy of the environment is no longer added.
pub assume_specification[ ClientBuilder::proxy ](builder: ClientBuilder, proxy: Proxy) -> (bound:
    ClientBuilder)
    ensures
        builder_routes(bound) == builder_routes(builder).push(proxy_route(proxy)),
        !builder_adds_system_proxy(bound),
;

/// `reqwest::blocking::ClientBuilder::no_proxy`: the same configuration
/// without any proxy. Claimed: it lists none, and the proxy of the
/// environment is no longer added.
pub assume_specification[ ClientBuilder::no_proxy ](builder: ClientBuilder) -> (direct:
    ClientBuilder)
    ensures
        builder_routes(direct) == Seq::<Seq<char>>::empty(),
        !builder_adds_system_proxy(direct),
;

/// `reqwest::blocking::ClientBuilder::build`: the client that a configuration
/// describes. It fails where the TLS backend or the resolver cannot be set
/// up, which no argument decides, so success is not claimed. Claimed: a
/// client that is built from a configuration which does not add the proxy of
/// the environment sends through the proxies that the configuration lists.
/// It panics when called from inside an asynchronous runtime.
pub assume_specification[ ClientBuilder::build ](builder: ClientBuilder) -> (built: Result<
    Client,
    Error,
>)
    ensures
        built matches Ok(client) ==> (!builder_adds_system_proxy(builder) ==> client_routes(client)
            == builder_routes(builder)),
;

} // verus!
