//! The configuration tree: runs of requests with inheritable defaults.
//!
//! These types are the validated input to the plan builder.  They carry no
//! file-format knowledge; loading and deserialising a configuration file is
//! the caller's business.

use vstd::prelude::*;

use crate::jsonval::JsonValue;
use crate::vars::VarMap;

verus! {

/// An HTTP method.
#[derive(Clone, Copy, Debug, PartialEq, Eq, Structural)]
pub enum Method {
    Get,
    Post,
    Put,
    Delete,
    Patch,
}

/// The method's transport-level name.
pub open spec fn method_text(m: Method) -> Seq<char> {
    match m {
        Method::Get => "GET"@,
        Method::Post => "POST"@,
        Method::Put => "PUT"@,
        Method::Delete => "DELETE"@,
        Method::Patch => "PATCH"@,
    }
}

impl Method {
    /// The method's transport-level name.
    pub fn as_text(&self) -> (r: String)
        ensures
            r@ == method_text(*self),
    {
        match self {
            Method::Get => String::from_str("GET"),
            Method::Post => String::from_str("POST"),
            Method::Put => String::from_str("PUT"),
            Method::Delete => String::from_str("DELETE"),
            Method::Patch => String::from_str("PATCH"),
        }
    }
}

/// A URL scheme.
#[derive(Clone, Copy, Debug, PartialEq, Eq, Structural)]
pub enum Scheme {
    Http,
    Https,
}

/// The scheme as it stands in a URL.
pub open spec fn scheme_text(s: Scheme) -> Seq<char> {
    match s {
        Scheme::Http => "http"@,
        Scheme::Https => "https"@,
    }
}

impl Scheme {
    /// The scheme as it stands in a URL.
    pub fn as_text(&self) -> (r: String)
        ensures
            r@ == scheme_text(*self),
    {
        match self {
            Scheme::Http => String::from_str("http"),
            Scheme::Https => String::from_str("https"),
        }
    }
}

/// A map from JSON pointer paths to expected values, in declaration order.
pub type AssertMap = Vec<(String, JsonValue)>;

/// A declarative assertion over one response.
pub struct Assert {
    /// Whether a failure halts the remainder of the run.
    pub breaking: bool,
    /// The expected status code, if any.
    pub status: Option<u16>,
    /// Exact match: these paths and values, and no other leaf paths.
    pub body_matches: Option<AssertMap>,
    /// Subset match: these paths exist and hold these values.
    pub subset_matches: Option<AssertMap>,
    /// These paths merely exist.
    pub subset_includes: Option<Vec<String>>,
    /// These paths hold strings matching these patterns.
    pub subset_regex: Option<AssertMap>,
}

/// A single request, before inheritance from its run is applied.
pub struct Request {
    pub name: String,
    pub headers: Option<VarMap>,
    pub method: Option<Method>,
    pub scheme: Option<Scheme>,
    pub host: Option<String>,
    pub port: Option<u16>,
    pub path: Option<String>,
    pub body: Option<String>,
    /// Variable name to response pattern: values captured after the call.
    pub capture: Option<VarMap>,
    pub assertion: Option<Assert>,
}

/// A named, ordered group of requests sharing inheritable defaults.
pub struct Run {
    pub name: String,
    pub headers: Option<VarMap>,
    pub method: Option<Method>,
    pub scheme: Option<Scheme>,
    pub host: Option<String>,
    pub port: Option<u16>,
    pub path: Option<String>,
    pub body: Option<String>,
    pub request: Vec<Request>,
}

/// A priming request of the capture phase; every field is its own, there is
/// no enclosing run to inherit from.
pub struct CaptureRequest {
    pub name: Option<String>,
    pub headers: Option<VarMap>,
    pub method: Method,
    pub scheme: Scheme,
    pub host: String,
    pub port: Option<u16>,
    pub path: Option<String>,
    pub body: Option<String>,
    pub capture: Option<VarMap>,
}

/// The capture phase: environment variables to resolve and priming
/// requests to issue before any run starts.
pub struct Capture {
    /// A dot-env file to read, relative to the configuration file.
    pub env_file: Option<String>,
    /// Internal variable name to system environment variable name.
    pub environment_variables: Option<VarMap>,
    pub request: Option<Vec<CaptureRequest>>,
}

/// A whole configuration: an optional capture phase and the runs.
pub struct Config {
    pub capture: Option<Capture>,
    pub run: Vec<Run>,
}

} // verus!
