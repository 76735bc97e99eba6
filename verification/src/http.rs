//! What the logging rules read of the web server: its methods, routes, requests and responses,
//! as plain values.

use vstd::prelude::*;

verus! {

/// An HTTP method.
#[derive(Clone, Copy, Debug, PartialEq, Eq, Structural)]
pub enum Method {
    Get,
    Put,
    Post,
    Delete,
    Options,
    Head,
    Trace,
    Connect,
    Patch,
}

impl Method {
    /// The name of the method, as requests carry it.
    pub open spec fn name(self) -> Seq<char> {
        match self {
            Method::Get => "GET"@,
            Method::Put => "PUT"@,
            Method::Post => "POST"@,
            Method::Delete => "DELETE"@,
            Method::Options => "OPTIONS"@,
            Method::Head => "HEAD"@,
            Method::Trace => "TRACE"@,
            Method::Connect => "CONNECT"@,
            Method::Patch => "PATCH"@,
        }
    }

    /// Returns the name of the method.
    pub fn as_str(self) -> (name: &'static str)
        ensures
            name@ == self.name(),
    {
        match self {
            Method::Get => "GET",
            Method::Put => "PUT",
            Method::Post => "POST",
            Method::Delete => "DELETE",
            Method::Options => "OPTIONS",
            Method::Head => "HEAD",
            Method::Trace => "TRACE",
            Method::Connect => "CONNECT",
            Method::Patch => "PATCH",
        }
    }
}

/// A route of the server's route table.
#[derive(Debug)]
pub struct Route {
    /// The method that the route answers.
    pub method: Method,
    /// The name of the handler, where it has one.
    pub name: Option<String>,
    /// The path of the route before it was mounted.
    pub unmounted: String,
    /// The path pattern of the route, with the base that it is mounted at.
    pub path: String,
    /// The whole URI pattern of the route: its path pattern and its query pattern.
    pub uri: String,
    /// The rank of the route.
    pub rank: isize,
    /// The media type that the route is limited to, where there is one.
    pub format: Option<String>,
}

/// An error catcher of the server.
#[derive(Debug)]
pub struct Catcher {
    /// The name of the handler, where it has one.
    pub name: Option<String>,
    /// The status code that it catches; none for a default catcher.
    pub code: Option<u16>,
    /// The base that it is registered at.
    pub base: String,
}

/// A request, as far as its log line speaks of it.
#[derive(Debug)]
pub struct RequestDetails {
    pub method: Method,
    /// The whole URI: path and query.
    pub uri: String,
    /// The path alone, without a query.
    pub path: String,
    /// The content type, where the request has one.
    pub content_type: Option<String>,
    /// The values of the user agent header.
    pub user_agents: Vec<String>,
    /// The route that the request was matched to, once it is.
    pub route: Option<Route>,
}

/// A response, as far as its log line speaks of it.
#[derive(Debug)]
pub struct ResponseDetails {
    /// The content type, where the response has one.
    pub content_type: Option<String>,
    /// The status code.
    pub code: u16,
    /// The reason phrase of the status, where it has one.
    pub reason: Option<String>,
}

/// The configuration of a launched server.
#[derive(Debug)]
pub struct LaunchConfig {
    pub log_level: String,
    /// The directory for temporary files; none where its path is not text.
    pub temp_dir: Option<String>,
    pub ident: String,
    pub tls: bool,
    pub limits: String,
    pub keep_alive: u32,
    pub workers: usize,
    pub port: u16,
    pub address: String,
    pub profile: String,
}

} // verus!
