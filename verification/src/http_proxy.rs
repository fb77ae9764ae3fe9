//! Request building through an optional forwarding proxy.
//!
//! With a proxy configured, every request is sent to the proxy endpoint
//! with the real target URL in `X-Forwarded-For` and the credential in
//! `X-Authorization`; without one, requests go directly to their URL.
//! Callers should not replace these headers.

use vstd::prelude::*;

use crate::http_client::{
    GhostClient, MAX_DEFAULT_HEADERS, UA, builder_build, builder_default_headers,
    builder_user_agent, header_map_of, is_valid_header_value, new_client_builder,
};

verus! {

#[verifier::external_type_specification]
#[verifier::external_body]
pub struct ExReqwestMethod(reqwest::Method);

#[verifier::external_type_specification]
#[verifier::external_body]
pub struct ExReqwestRequestBuilder(reqwest::RequestBuilder);

/// Whether a string parses as an absolute URL.
pub uninterp spec fn is_valid_url(s: Seq<char>) -> bool;

/// Relies on reqwest::Url::parse: whether the string is a valid absolute
/// URL; the result depends on the characters alone.
#[verifier::external_body]
fn url_parse_ok(s: &str) -> (r: bool)
    ensures
        r == is_valid_url(s@),
{
    reqwest::Url::parse(s).is_ok()
}

/// Relies on reqwest::header::HeaderValue::from_str: whether the string
/// is a valid header value; the result depends on the characters alone.
#[verifier::external_body]
fn header_value_ok(s: &str) -> (r: bool)
    ensures
        r == is_valid_header_value(s@),
{
    <reqwest::header::HeaderValue as core::str::FromStr>::from_str(s).is_ok()
}

/// Relies on reqwest::Client::request: starts building a request with the
/// given method and target URL.
#[verifier::external_body]
fn client_request(c: &reqwest::Client, method: reqwest::Method, url: &str) -> reqwest::RequestBuilder {
    c.request(method, url)
}

/// Relies on reqwest::RequestBuilder::header: adds one header.
#[verifier::external_body]
fn request_header(b: reqwest::RequestBuilder, name: &str, value: &str) -> reqwest::RequestBuilder {
    b.header(name, value)
}

/// Relies on reqwest::Method::GET.
#[verifier::external_body]
fn method_get() -> reqwest::Method {
    reqwest::Method::GET
}

/// Relies on reqwest::Method::POST.
#[verifier::external_body]
fn method_post() -> reqwest::Method {
    reqwest::Method::POST
}

/// Relies on reqwest::Method::HEAD.
#[verifier::external_body]
fn method_head() -> reqwest::Method {
    reqwest::Method::HEAD
}

/// Relies on reqwest::Method::PUT.
#[verifier::external_body]
fn method_put() -> reqwest::Method {
    reqwest::Method::PUT
}

/// Relies on reqwest::Method::DELETE.
#[verifier::external_body]
fn method_delete() -> reqwest::Method {
    reqwest::Method::DELETE
}

/// Relies on reqwest::Method::PATCH.
#[verifier::external_body]
fn method_patch() -> reqwest::Method {
    reqwest::Method::PATCH
}

/// Why the proxied client could not be built.
#[derive(Clone, Copy, PartialEq, Eq, Structural, Debug)]
pub enum ProxyError {
    InvalidEndpoint,
    InvalidAuthorization,
    Build,
}

/// A forwarding proxy: its endpoint and the credential presented to it.
pub struct Proxy {
    pub endpoint: String,
    pub authorization: String,
}

/// A client that routes its requests through an optional proxy.
pub struct ProxiedClient {
    pub proxy: Option<Proxy>,
    pub inner: reqwest::Client,
}

/// Where one request must go: the target URL actually connected to, and
/// the headers that carry the real URL and the credential when a proxy is
/// in play.
pub struct RequestPlan {
    pub target: String,
    pub forwarded_for: Option<String>,
    pub authorization: Option<String>,
}

impl ProxiedClient {
    /// A client behind the given proxy. The endpoint must be a valid URL
    /// and the credential a valid header value; each is rejected
    /// otherwise.
    pub fn new(endpoint: &str, authorization: &str) -> (r: Result<ProxiedClient, ProxyError>)
        ensures
            !is_valid_url(endpoint@) ==> r == Err::<ProxiedClient, ProxyError>(
                ProxyError::InvalidEndpoint,
            ),
            is_valid_url(endpoint@) && !is_valid_header_value(authorization@) ==> r == Err::<
                ProxiedClient,
                ProxyError,
            >(ProxyError::InvalidAuthorization),
            r matches Ok(c) ==> is_valid_url(endpoint@) && is_valid_header_value(authorization@)
                && (c.proxy matches Some(p) && p.endpoint@ == endpoint@ && p.authorization@
                == authorization@),
            is_valid_url(endpoint@) && is_valid_header_value(authorization@) ==> (r is Ok || r
                == Err::<ProxiedClient, ProxyError>(ProxyError::Build)),
    {
        if !url_parse_ok(endpoint) {
            return Err(ProxyError::InvalidEndpoint);
        }
        if !header_value_ok(authorization) {
            return Err(ProxyError::InvalidAuthorization);
        }
        let b = builder_user_agent(new_client_builder(), UA);
        match builder_build(b) {
            Ok(inner) => Ok(
                ProxiedClient {
                    proxy: Some(
                        Proxy {
                            endpoint: String::from_str(endpoint),
                            authorization: String::from_str(authorization),
                        },
                    ),
                    inner,
                },
            ),
            Err(_) => Err(ProxyError::Build),
        }
    }

    /// A client with no proxy: requests go directly to their URL.
    pub fn direct() -> (r: Result<ProxiedClient, ProxyError>)
        ensures
            r matches Ok(c) ==> c.proxy is None,
            r matches Err(e) ==> e == ProxyError::Build,
    {
        let b = builder_user_agent(new_client_builder(), UA);
        match builder_build(b) {
            Ok(inner) => Ok(ProxiedClient { proxy: None, inner }),
            Err(_) => Err(ProxyError::Build),
        }
    }

    /// The same routing over a fresh underlying client whose default
    /// headers are exactly the parseable pairs of the given list; a pair
    /// whose name or value does not parse is skipped.
    pub fn with_default_headers(self, headers: &Vec<(String, String)>) -> (r: Result<
        ProxiedClient,
        ProxyError,
    >)
        requires
            headers@.len() < MAX_DEFAULT_HEADERS,
        ensures
            r matches Ok(c) ==> c.proxy == self.proxy,
            r matches Err(e) ==> e == ProxyError::Build,
    {
        let m = header_map_of(headers);
        let b = builder_default_headers(builder_user_agent(new_client_builder(), UA), m);
        match builder_build(b) {
            Ok(inner) => Ok(ProxiedClient { proxy: self.proxy, inner }),
            Err(_) => Err(ProxyError::Build),
        }
    }

    /// Where a request for `url` goes: with a proxy, to the proxy
    /// endpoint, carrying the real URL and the credential in the two
    /// dedicated headers; without one, directly to `url` with no extra
    /// headers.
    pub fn request_plan(&self, url: &str) -> (r: RequestPlan)
        ensures
            self.proxy matches Some(p) ==> (r.target@ == p.endpoint@ && (r.forwarded_for
                matches Some(f) && f@ == url@) && (r.authorization matches Some(a) && a@
                == p.authorization@)),
            self.proxy is None ==> r.target@ == url@ && r.forwarded_for is None
                && r.authorization is None,
    {
        match &self.proxy {
            Some(p) => RequestPlan {
                target: p.endpoint.clone(),
                forwarded_for: Some(String::from_str(url)),
                authorization: Some(p.authorization.clone()),
            },
            None => RequestPlan {
                target: String::from_str(url),
                forwarded_for: None,
                authorization: None,
            },
        }
    }

    /// Builds the request described by the plan for `url` with the given
    /// method.
    pub fn request(&self, method: reqwest::Method, url: &str) -> reqwest::RequestBuilder {
        let plan = self.request_plan(url);
        let mut b = client_request(&self.inner, method, plan.target.as_str());
        match &plan.forwarded_for {
            Some(f) => {
                b = request_header(b, "X-Forwarded-For", f.as_str());
            }
            None => {}
        }
        match &plan.authorization {
            Some(a) => {
                b = request_header(b, "X-Authorization", a.as_str());
            }
            None => {}
        }
        b
    }

    /// A GET request through the proxy routing.
    pub fn get(&self, url: &str) -> reqwest::RequestBuilder {
        self.request(method_get(), url)
    }

    /// A POST request through the proxy routing.
    pub fn post(&self, url: &str) -> reqwest::RequestBuilder {
        self.request(method_post(), url)
    }

    /// A HEAD request through the proxy routing.
    pub fn head(&self, url: &str) -> reqwest::RequestBuilder {
        self.request(method_head(), url)
    }

    /// A PUT request through the proxy routing.
    pub fn put(&self, url: &str) -> reqwest::RequestBuilder {
        self.request(method_put(), url)
    }

    /// A DELETE request through the proxy routing.
    pub fn delete(&self, url: &str) -> reqwest::RequestBuilder {
        self.request(method_delete(), url)
    }

    /// A PATCH request through the proxy routing.
    pub fn patch(&self, url: &str) -> reqwest::RequestBuilder {
        self.request(method_patch(), url)
    }
}

/// Uniform request building over the clients of this crate.
pub trait HttpRequestBuilder {
    fn get_builder(&self, url: &str) -> reqwest::RequestBuilder;

    fn post_builder(&self, url: &str) -> reqwest::RequestBuilder;
}

impl HttpRequestBuilder for ProxiedClient {
    fn get_builder(&self, url: &str) -> reqwest::RequestBuilder {
        self.get(url)
    }

    fn post_builder(&self, url: &str) -> reqwest::RequestBuilder {
        self.post(url)
    }
}

impl HttpRequestBuilder for GhostClient {
    fn get_builder(&self, url: &str) -> reqwest::RequestBuilder {
        client_request(self.client(), method_get(), url)
    }

    fn post_builder(&self, url: &str) -> reqwest::RequestBuilder {
        client_request(self.client(), method_post(), url)
    }
}

} // verus!
