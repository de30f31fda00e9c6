//! What the transport exposes of the library: the routes of the service and
//! the cross-origin headers of its responses. The web framework that serves
//! them stands outside the library.

use vstd::prelude::*;

verus! {

/// The request methods of the service's routes.
#[derive(Debug, Clone, Copy, PartialEq, Eq, Structural)]
pub enum Method {
    Get,
    Post,
}

/// A route: a request method and a path below the mount point.
#[derive(Debug, Clone, Copy)]
pub struct Route {
    pub method: Method,
    pub path: &'static str,
}

/// The routes of the service, as method and path, in mounting order:
/// proof generation, verification, and the diagnostic self-check.
pub open spec fn service_routes() -> Seq<(Method, Seq<char>)> {
    seq![
        (Method::Post, "/generate"@),
        (Method::Post, "/verify"@),
        (Method::Get, "/selfcheck"@),
    ]
}

/// The routes that the service mounts on its web framework, Rocket, at the
/// root path.
pub fn rocket() -> (routes: Vec<Route>)
    ensures
        routes@.len() == service_routes().len(),
        forall|i: int|
            0 <= i < routes@.len() ==> (#[trigger] routes@[i]).method == service_routes()[i].0
                && routes@[i].path@ == service_routes()[i].1,
{
    let mut routes: Vec<Route> = Vec::new();
    routes.push(Route { method: Method::Post, path: "/generate" });
    routes.push(Route { method: Method::Post, path: "/verify" });
    routes.push(Route { method: Method::Get, path: "/selfcheck" });
    routes
}

/// The cross-origin policy of the service: every response carries its
/// headers.
pub struct Cors;

/// The cross-origin headers, as name and value: any origin may ask, with
/// `POST`, `GET` or `OPTIONS`, and may send a `Content-Type` header.
pub open spec fn cors_headers() -> Seq<(Seq<char>, Seq<char>)> {
    seq![
        ("Access-Control-Allow-Origin"@, "*"@),
        ("Access-Control-Allow-Methods"@, "POST, GET, OPTIONS"@),
        ("Access-Control-Allow-Headers"@, "Content-Type"@),
    ]
}

impl Cors {
    /// The headers to attach to a response.
    pub fn headers(&self) -> (headers: Vec<(&'static str, &'static str)>)
        ensures
            headers@.len() == cors_headers().len(),
            forall|i: int|
                0 <= i < headers@.len() ==> (#[trigger] headers@[i]).0@ == cors_headers()[i].0
                    && headers@[i].1@ == cors_headers()[i].1,
    {
        let mut headers: Vec<(&'static str, &'static str)> = Vec::new();
        headers.push(("Access-Control-Allow-Origin", "*"));
        headers.push(("Access-Control-Allow-Methods", "POST, GET, OPTIONS"));
        headers.push(("Access-Control-Allow-Headers", "Content-Type"));
        headers
    }
}

} // verus!
