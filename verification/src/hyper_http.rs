//! The transport configuration, its builder, and the preparation of one
//! HTTP exchange. A configuration is immutable once built; every exchange
//! it prepares carries the rendered target, the JSON payload, the exact
//! headers and the configured deadline, so the HTTP collaborator only has
//! to move bytes.

use vstd::prelude::*;
use vstd::string::*;
use vstd::utf8::encode_utf8;
use crate::Error;
use crate::auth::{base64_chars, basic_auth_value, cookie_auth_value, pass_bytes};
use crate::codec::{
    array_value, encode_json, json_array, json_bytes, json_encodable, json_items, json_readable,
    json_value,
};
use crate::endpoint::{
    dec_digits, dec_val, fmt_u64, host_of, path_of, port_text_of, rendered_target, valid_url,
    Endpoint,
};

verus! {

/// One fully prepared HTTP exchange: everything the HTTP collaborator
/// needs to POST the payload, and nothing it must compute itself.
pub struct HttpCall {
    /// The rendered target URL.
    pub url: String,
    /// The JSON payload.
    pub body: Vec<u8>,
    /// The headers to send, in order.
    pub headers: Vec<(String, String)>,
    /// The bound on the whole exchange, in milliseconds from its start.
    pub timeout_ms: u64,
}

/// The view of an optional header value.
pub open spec fn opt_view(a: Option<String>) -> Option<Seq<char>> {
    match a {
        Some(s) => Some(s@),
        None => None,
    }
}

/// The headers of every exchange: content type, exact content length,
/// close-on-completion, and the configured authorization value, if any.
pub open spec fn headers_ok(
    h: Seq<(String, String)>,
    content_len: int,
    auth: Option<Seq<char>>,
) -> bool {
    &&& h.len() == (if auth is Some {
        4int
    } else {
        3int
    })
    &&& h[0].0@ == "Content-Type"@ && h[0].1@ == "application/json"@
    &&& h[1].0@ == "Content-Length"@ && h[1].1@ == dec_digits(content_len)
    &&& h[2].0@ == "Connection"@ && h[2].1@ == "Close"@
    &&& (auth is Some ==> h[3].0@ == "Authorization"@ && h[3].1@ == auth->Some_0)
}

/// Builds the headers for a payload of `content_len` bytes.
fn request_headers(auth: &Option<String>, content_len: u64) -> (r: Vec<(String, String)>)
    ensures
        headers_ok(r@, content_len as int, opt_view(*auth)),
{
    let mut h: Vec<(String, String)> = Vec::new();
    h.push((String::from_str("Content-Type"), String::from_str("application/json")));
    h.push((String::from_str("Content-Length"), fmt_u64(content_len)));
    h.push((String::from_str("Connection"), String::from_str("Close")));
    match auth {
        Some(a) => {
            h.push((String::from_str("Authorization"), a.clone()));
        },
        None => {},
    }
    h
}

/// An HTTP transport configuration: the validated endpoint, the deadline
/// for one exchange, and the optional precomputed authorization value.
#[derive(Clone, Debug)]
pub struct HyperTransport {
    endpoint: Endpoint,
    timeout_ms: u64,
    basic_auth: Option<String>,
}

impl HyperTransport {
    /// The configured host.
    pub closed spec fn spec_host(self) -> Seq<char> {
        self.endpoint.host@
    }

    /// The configured port.
    pub closed spec fn spec_port(self) -> u16 {
        self.endpoint.port
    }

    /// The configured path.
    pub closed spec fn spec_path(self) -> Seq<char> {
        self.endpoint.path@
    }

    /// The configured bound on one exchange, in milliseconds.
    pub closed spec fn spec_timeout_ms(self) -> u64 {
        self.timeout_ms
    }

    /// The configured authorization value, if any.
    pub closed spec fn spec_auth(self) -> Option<Seq<char>> {
        opt_view(self.basic_auth)
    }

    /// Every constructed configuration holds a well-formed endpoint.
    pub closed spec fn wf(self) -> bool {
        self.endpoint.wf()
    }
}

/// The configuration every builder starts from: localhost's usual RPC
/// port, a two-second deadline, no authorization.
pub open spec fn is_default_config(t: HyperTransport) -> bool {
    &&& t.wf()
    &&& t.spec_host() == "127.0.0.1"@
    &&& t.spec_port() == 8332
    &&& t.spec_path() == ""@
    &&& t.spec_timeout_ms() == 2000
    &&& t.spec_auth() is None
}

/// One prepared exchange against one configuration: the rendered target,
/// the given payload with its exact headers, and the configured deadline.
pub open spec fn call_ok(c: HttpCall, t: HyperTransport, body: Seq<u8>) -> bool {
    &&& c.url@ == rendered_target(t.spec_host(), t.spec_port() as int, t.spec_path())
    &&& c.body@ == body
    &&& headers_ok(c.headers@, body.len() as int, t.spec_auth())
    &&& c.timeout_ms == t.spec_timeout_ms()
}

impl HyperTransport {
    /// The default configuration.
    pub fn new() -> (r: HyperTransport)
        ensures
            is_default_config(r),
    {
        let host = String::from_str("127.0.0.1");
        let path = String::from_str("");
        proof {
            reveal_strlit("127.0.0.1");
            reveal_strlit("");
            assert forall|i: int| 0 <= i < host@.len() implies crate::endpoint::is_host_char(
                host@[i],
            ) by {
                let c = host@[i];
                assert(c == '1' || c == '2' || c == '7' || c == '0' || c == '.');
            }
            assert(path@.len() == 0);
        }
        HyperTransport { endpoint: Endpoint { host, port: 8332, path }, timeout_ms: 2000, basic_auth: None }
    }

    /// Renders the configured target for diagnostics: `http://host:port`
    /// and the path, and in particular no authorization value.
    pub fn describe_target(&self) -> (r: String)
        ensures
            r@ == rendered_target(self.spec_host(), self.spec_port() as int, self.spec_path()),
    {
        self.endpoint.describe()
    }

    /// Prepares one exchange for a single request envelope. Succeeds
    /// exactly when the envelope is encodable, and fails with
    /// `Serialization` otherwise; for an envelope within the parser's
    /// recursion depth the payload parses back to the envelope.
    pub fn prepare_request(&self, req: &serde_json::Value) -> (r: Result<HttpCall, Error>)
        ensures
            r is Ok <==> json_encodable(*req),
            r is Ok ==> call_ok(r->Ok_0, *self, json_bytes(*req)),
            r is Ok && json_readable(*req) ==> json_value(r->Ok_0.body@) == Some(*req),
            r is Err ==> r->Err_0 == Error::Serialization,
    {
        let body = match encode_json(req) {
            Ok(b) => b,
            Err(e) => {
                return Err(e);
            },
        };
        let headers = request_headers(&self.basic_auth, body.len() as u64);
        Ok(HttpCall { url: self.describe_target(), body, headers, timeout_ms: self.timeout_ms })
    }

    /// Prepares one exchange for an ordered batch of request envelopes:
    /// the payload is one JSON array holding exactly the requests, in
    /// their given order. Succeeds exactly when that array value is
    /// encodable, and fails with `Serialization` otherwise; for a batch
    /// within the parser's recursion depth the payload parses back to the
    /// array.
    pub fn prepare_batch(&self, reqs: Vec<serde_json::Value>) -> (r: Result<HttpCall, Error>)
        ensures
            r is Ok <==> json_encodable(json_array(reqs@)),
            r is Ok ==> call_ok(r->Ok_0, *self, r->Ok_0.body@),
            r is Ok ==> r->Ok_0.body@ == json_bytes(json_array(reqs@)),
            r is Ok ==> json_items(json_array(reqs@)) == Some(reqs@),
            r is Ok && json_readable(json_array(reqs@)) ==> json_value(r->Ok_0.body@) == Some(
                json_array(reqs@),
            ),
            r is Err ==> r->Err_0 == Error::Serialization,
    {
        let ghost reqs_view = reqs@;
        let batch = array_value(reqs);
        let body = match encode_json(&batch) {
            Ok(b) => b,
            Err(e) => {
                return Err(e);
            },
        };
        let headers = request_headers(&self.basic_auth, body.len() as u64);
        Ok(HttpCall { url: self.describe_target(), body, headers, timeout_ms: self.timeout_ms })
    }
}

/// Accepts exactly the success statuses of one exchange: any status
/// outside the 2xx range is a transport fault, surfaced before the body
/// is decoded.
pub fn check_status(code: u16) -> (r: Result<(), Error>)
    ensures
        r is Ok <==> 200 <= code < 300,
        r is Err ==> r->Err_0 == Error::Transport(crate::TransportFault::Status),
{
    if 200 <= code && code < 300 {
        Ok(())
    } else {
        Err(Error::Transport(crate::TransportFault::Status))
    }
}

/// Accumulates a configuration and produces the immutable transport.
#[derive(Clone, Debug)]
pub struct Builder {
    transport: HyperTransport,
}

impl Builder {
    /// The configuration accumulated so far.
    pub closed spec fn spec_transport(self) -> HyperTransport {
        self.transport
    }

    /// Starts from the default configuration.
    pub fn new() -> (r: Builder)
        ensures
            is_default_config(r.spec_transport()),
    {
        Builder { transport: HyperTransport::new() }
    }

    /// Replaces the bound on one exchange, in milliseconds.
    pub fn timeout(self, timeout_ms: u64) -> (r: Builder)
        ensures
            r.spec_transport().spec_timeout_ms() == timeout_ms,
            r.spec_transport().spec_host() == self.spec_transport().spec_host(),
            r.spec_transport().spec_port() == self.spec_transport().spec_port(),
            r.spec_transport().spec_path() == self.spec_transport().spec_path(),
            r.spec_transport().spec_auth() == self.spec_transport().spec_auth(),
            self.spec_transport().wf() ==> r.spec_transport().wf(),
    {
        let mut transport = self.transport;
        transport.timeout_ms = timeout_ms;
        Builder { transport }
    }

    /// Replaces the endpoint, accepting exactly the strings of
    /// `valid_url`; this is the only fallible builder step, and it fails
    /// immediately with `InvalidEndpoint`.
    pub fn url(self, url: &str) -> (r: Result<Builder, Error>)
        ensures
            r is Ok <==> valid_url(url@),
            r is Ok ==> ({
                let t = r->Ok_0.spec_transport();
                &&& t.wf()
                &&& t.spec_host() == host_of(url@)
                &&& t.spec_port() as int == dec_val(port_text_of(url@))
                &&& t.spec_path() == path_of(url@)
                &&& t.spec_timeout_ms() == self.spec_transport().spec_timeout_ms()
                &&& t.spec_auth() == self.spec_transport().spec_auth()
            }),
            r is Err ==> r->Err_0 == Error::InvalidEndpoint,
    {
        let endpoint = match Endpoint::parse(url) {
            Ok(e) => e,
            Err(e) => {
                return Err(e);
            },
        };
        let mut transport = self.transport;
        transport.endpoint = endpoint;
        Ok(Builder { transport })
    }

    /// Stores the `Basic` value for user/password credentials, replacing
    /// any authorization configured before; the credentials are consumed
    /// and kept only in encoded form.
    pub fn auth(self, user: &str, pass: Option<&str>) -> (r: Builder)
        ensures
            r.spec_transport().spec_auth() == Some(
                "Basic "@ + base64_chars(user.spec_bytes() + seq![58u8] + pass_bytes(pass)),
            ),
            r.spec_transport().spec_host() == self.spec_transport().spec_host(),
            r.spec_transport().spec_port() == self.spec_transport().spec_port(),
            r.spec_transport().spec_path() == self.spec_transport().spec_path(),
            r.spec_transport().spec_timeout_ms() == self.spec_transport().spec_timeout_ms(),
            self.spec_transport().wf() ==> r.spec_transport().wf(),
    {
        let mut transport = self.transport;
        transport.basic_auth = Some(basic_auth_value(user, pass));
        Builder { transport }
    }

    /// Stores the `Basic` value for a single-token cookie scheme,
    /// replacing any authorization configured before.
    pub fn cookie_auth(self, cookie: &str) -> (r: Builder)
        ensures
            r.spec_transport().spec_auth() == Some("Basic "@ + base64_chars(cookie.spec_bytes())),
            r.spec_transport().spec_host() == self.spec_transport().spec_host(),
            r.spec_transport().spec_port() == self.spec_transport().spec_port(),
            r.spec_transport().spec_path() == self.spec_transport().spec_path(),
            r.spec_transport().spec_timeout_ms() == self.spec_transport().spec_timeout_ms(),
            self.spec_transport().wf() ==> r.spec_transport().wf(),
    {
        let mut transport = self.transport;
        transport.basic_auth = Some(cookie_auth_value(cookie));
        Builder { transport }
    }

    /// Produces the immutable transport; pure and infallible on an
    /// already validated configuration.
    pub fn build(self) -> (r: HyperTransport)
        ensures
            r == self.spec_transport(),
    {
        self.transport
    }
}

/// The owning client: it holds one transport configuration.
pub struct Client {
    transport: HyperTransport,
}

impl Client {
    /// The transport the client owns.
    pub closed spec fn spec_transport(self) -> HyperTransport {
        self.transport
    }

    /// The transport the client holds.
    pub fn transport(&self) -> (r: &HyperTransport)
        ensures
            *r == self.spec_transport(),
    {
        &self.transport
    }

    /// Wraps an already built transport.
    pub fn with_transport(transport: HyperTransport) -> (r: Client)
        ensures
            r.spec_transport() == transport,
    {
        Client { transport }
    }

    /// Builds a client over an HTTP transport from a URL and optional
    /// basic-auth credentials, with the default deadline.
    pub fn hyper_http(url: &str, user: Option<String>, pass: Option<String>) -> (r: Result<
        Client,
        Error,
    >)
        ensures
            r is Ok <==> valid_url(url@),
            r is Ok ==> ({
                let t = r->Ok_0.spec_transport();
                &&& t.wf()
                &&& t.spec_host() == host_of(url@)
                &&& t.spec_port() as int == dec_val(port_text_of(url@))
                &&& t.spec_path() == path_of(url@)
                &&& t.spec_timeout_ms() == 2000
                &&& t.spec_auth() == (match user {
                    Some(u) => Some(
                        "Basic "@ + base64_chars(
                            encode_utf8(u@) + seq![58u8] + (match pass {
                                Some(p) => encode_utf8(p@),
                                None => Seq::<u8>::empty(),
                            }),
                        ),
                    ),
                    None => None,
                })
            }),
            r is Err ==> r->Err_0 == Error::InvalidEndpoint,
    {
        let builder = match Builder::new().url(url) {
            Ok(b) => b,
            Err(e) => {
                return Err(e);
            },
        };
        let builder = match &user {
            Some(u) => {
                let p: Option<&str> = match &pass {
                    Some(p) => Some(p.as_str()),
                    None => None,
                };
                builder.auth(u.as_str(), p)
            },
            None => builder,
        };
        Ok(Client::with_transport(builder.build()))
    }
}

} // verus!
