//! The JSON-RPC dispatcher: envelope validation, method routing, parameter
//! checks for forwarded methods, and the portal reachability probe.

use vstd::prelude::*;

use crate::error::{ServerError, CODE_INVALID_REQUEST, CODE_METHOD_NOT_FOUND};
use crate::strutil::{push_char, spec_decimal, str_eq, u64_to_string};

verus! {

/// The JSON-RPC methods the server answers.
#[derive(Clone, Copy, PartialEq, Eq, Structural, Debug)]
pub enum Method {
    /// `sandbox.start`.
    SandboxStart,
    /// `sandbox.stop`.
    SandboxStop,
    /// `sandbox.metrics.get`.
    SandboxMetricsGet,
    /// `sandbox.repl.run`.
    SandboxReplRun,
    /// `sandbox.command.run`.
    SandboxCommandRun,
}

/// The wire name of each method.
pub open spec fn method_name(m: Method) -> Seq<char> {
    match m {
        Method::SandboxStart => "sandbox.start"@,
        Method::SandboxStop => "sandbox.stop"@,
        Method::SandboxMetricsGet => "sandbox.metrics.get"@,
        Method::SandboxReplRun => "sandbox.repl.run"@,
        Method::SandboxCommandRun => "sandbox.command.run"@,
    }
}

/// Parses a method name; yields exactly the method whose wire name matches.
pub fn parse_method(s: &str) -> (r: Option<Method>)
    ensures
        match r {
            Some(m) => s@ == method_name(m),
            None => forall|m: Method| s@ != method_name(m),
        },
{
    if str_eq(s, "sandbox.start") {
        Some(Method::SandboxStart)
    } else if str_eq(s, "sandbox.stop") {
        Some(Method::SandboxStop)
    } else if str_eq(s, "sandbox.metrics.get") {
        Some(Method::SandboxMetricsGet)
    } else if str_eq(s, "sandbox.repl.run") {
        Some(Method::SandboxReplRun)
    } else if str_eq(s, "sandbox.command.run") {
        Some(Method::SandboxCommandRun)
    } else {
        proof {
            assert forall|m: Method| s@ != method_name(m) by {
                match m {
                    Method::SandboxStart => {}
                    Method::SandboxStop => {}
                    Method::SandboxMetricsGet => {}
                    Method::SandboxReplRun => {}
                    Method::SandboxCommandRun => {}
                }
            }
        }
        None
    }
}

/// How a request is routed after envelope validation.
pub enum RpcRoute {
    /// The `jsonrpc` field is not `"2.0"`: reject with the invalid-request
    /// code.
    InvalidRequest,
    /// The method is unknown: reject with the method-not-found code.
    MethodNotFound,
    /// Handled by the lifecycle manager.
    Lifecycle(Method),
    /// Forwarded to the sandbox's portal.
    Forward(Method),
}

/// Whether a method is forwarded to the portal rather than handled by the
/// lifecycle manager.
pub open spec fn is_forwarded(m: Method) -> bool {
    m == Method::SandboxReplRun || m == Method::SandboxCommandRun
}

/// Routes one request from its envelope: a `jsonrpc` field other than
/// `"2.0"` is an invalid request; an unknown method is not found; the REPL
/// and command methods are forwarded to the portal; the rest go to the
/// lifecycle manager.
pub fn route_request(jsonrpc: &str, method: &str) -> (r: RpcRoute)
    ensures
        jsonrpc@ != "2.0"@ ==> r is InvalidRequest,
        jsonrpc@ == "2.0"@ && (forall|m: Method| method@ != method_name(m))
            ==> r is MethodNotFound,
        jsonrpc@ == "2.0"@ ==> forall|m: Method| method@ == method_name(m) ==> if is_forwarded(
            m,
        ) {
            r == RpcRoute::Forward(m)
        } else {
            r == RpcRoute::Lifecycle(m)
        },
{
    if !str_eq(jsonrpc, "2.0") {
        return RpcRoute::InvalidRequest;
    }
    match parse_method(method) {
        None => RpcRoute::MethodNotFound,
        Some(m) => {
            proof {
                reveal_strlit("sandbox.start");
                reveal_strlit("sandbox.stop");
                reveal_strlit("sandbox.metrics.get");
                reveal_strlit("sandbox.repl.run");
                reveal_strlit("sandbox.command.run");
                assert forall|m2: Method| method@ == method_name(m2) implies m2 == m by {
                    assert(method@ == method_name(m));
                    if m2 != m {
                        assert("sandbox.start"@.len() == 13);
                        assert("sandbox.stop"@.len() == 12);
                        assert("sandbox.metrics.get"@.len() == 19);
                        assert("sandbox.repl.run"@.len() == 16);
                        assert("sandbox.command.run"@.len() == 19);
                        assert("sandbox.metrics.get"@[8] != "sandbox.command.run"@[8]);
                        assert(method_name(m2) != method_name(m));
                    }
                }
            }
            match m {
                Method::SandboxReplRun => RpcRoute::Forward(m),
                Method::SandboxCommandRun => RpcRoute::Forward(m),
                _ => RpcRoute::Lifecycle(m),
            }
        }
    }
}

/// The JSON-RPC error a rejected envelope surfaces as: a bad `jsonrpc`
/// field gets the invalid-request code, an unknown method the
/// method-not-found code; routed requests produce no envelope error.
pub fn envelope_error(route: &RpcRoute, method: &str) -> (e: Option<(i64, String)>)
    ensures
        route is InvalidRequest ==> (e matches Some(p)
            && p.0 == CODE_INVALID_REQUEST
            && p.1@ == "Invalid or missing jsonrpc version field"@),
        route is MethodNotFound ==> (e matches Some(p)
            && p.0 == CODE_METHOD_NOT_FOUND
            && p.1@ == "Method not found: "@ + method@),
        route is Lifecycle || route is Forward ==> e is None,
{
    match route {
        RpcRoute::InvalidRequest => Some((
            CODE_INVALID_REQUEST,
            "Invalid or missing jsonrpc version field".to_owned(),
        )),
        RpcRoute::MethodNotFound => {
            let mut m = "Method not found: ".to_owned();
            m.append(method);
            Some((CODE_METHOD_NOT_FOUND, m))
        }
        RpcRoute::Lifecycle(_) => None,
        RpcRoute::Forward(_) => None,
    }
}

/// Extracts the sandbox and namespace parameters a forwarded method must
/// carry; fails with a validation error when either is missing.
pub fn forward_params(sandbox: Option<String>, namespace: Option<String>) -> (r: Result<
    (String, String),
    ServerError,
>)
    ensures
        match r {
            Ok(p) => sandbox == Some(p.0) && namespace == Some(p.1),
            Err(e) => (sandbox is None || namespace is None) && e is InvalidInput,
        },
{
    let s = match sandbox {
        Some(s) => s,
        None => {
            return Err(ServerError::InvalidInput(
                "missing required 'sandbox' parameter for portal request".to_owned(),
            ));
        }
    };
    let n = match namespace {
        Some(n) => n,
        None => {
            return Err(ServerError::InvalidInput(
                "missing required 'namespace' parameter for portal request".to_owned(),
            ));
        }
    };
    Ok((s, n))
}

/// The portal's JSON-RPC endpoint for a given host port:
/// `http://127.0.0.1:<port>/api/v1/rpc`.
pub open spec fn spec_portal_rpc_url(port: u16) -> Seq<char> {
    "http://127.0.0.1:"@ + spec_decimal(port as nat) + "/api/v1/rpc"@
}

/// Builds the portal JSON-RPC URL for a host port.
pub fn portal_rpc_url(port: u16) -> (r: String)
    ensures
        r@ == spec_portal_rpc_url(port),
{
    let mut u = "http://127.0.0.1:".to_owned();
    let d = u64_to_string(port as u64);
    u.append(d.as_str());
    u.append("/api/v1/rpc");
    u
}

/// The bound on portal reachability probes.
pub const MAX_PORTAL_RETRIES: u32 = 10000;

/// What the forwarder does after one reachability probe.
#[derive(Clone, Copy, PartialEq, Eq, Structural, Debug)]
pub enum ProbeStep {
    /// The portal answered (any HTTP status): forward the request.
    Reachable,
    /// No answer yet: probe again.
    Retry,
    /// The retry bound is exhausted: report the portal unreachable.
    Unreachable,
}

/// The forwarder's reachability probe: counts attempts up to the retry
/// bound.
pub struct PortalProbe {
    attempts: u32,
}

impl PortalProbe {
    /// Number of probes made so far.
    pub closed spec fn spec_attempts(self) -> u32 {
        self.attempts
    }

    /// A fresh probe with no attempts made.
    pub fn new() -> (r: PortalProbe)
        ensures
            r.spec_attempts() == 0,
    {
        PortalProbe { attempts: 0 }
    }

    /// Records the outcome of one probe. Any response means the portal is
    /// reachable; otherwise the forwarder retries until the bound is
    /// exhausted, then gives up.
    pub fn observe(&mut self, got_response: bool) -> (r: ProbeStep)
        requires
            old(self).spec_attempts() < MAX_PORTAL_RETRIES,
        ensures
            final(self).spec_attempts() == old(self).spec_attempts() + 1,
            got_response ==> r == ProbeStep::Reachable,
            !got_response && old(self).spec_attempts() + 1 < MAX_PORTAL_RETRIES
                ==> r == ProbeStep::Retry,
            !got_response && old(self).spec_attempts() + 1 == MAX_PORTAL_RETRIES
                ==> r == ProbeStep::Unreachable,
    {
        self.attempts = self.attempts + 1;
        if got_response {
            ProbeStep::Reachable
        } else if self.attempts < MAX_PORTAL_RETRIES {
            ProbeStep::Retry
        } else {
            ProbeStep::Unreachable
        }
    }
}

/// The error reported when the portal answers a forwarded request with a
/// non-success HTTP status: internal, with the status and body inlined.
pub fn portal_error(status: u16, body: &str) -> (r: ServerError)
    ensures
        r matches ServerError::Internal(m) && m@ == "portal returned error status "@
            + spec_decimal(status as nat) + ": "@ + body@,
{
    let mut m = "portal returned error status ".to_owned();
    let d = u64_to_string(status as u64);
    m.append(d.as_str());
    m.append(": ");
    m.append(body);
    ServerError::Internal(m)
}

/// Resolves the server's API key at startup: an explicit key is kept, a
/// missing key is allowed only in development mode.
pub fn resolve_server_key(key: Option<String>, dev_mode: bool) -> (r: Result<
    Option<String>,
    ServerError,
>)
    ensures
        key is Some ==> r == Ok::<Option<String>, ServerError>(key),
        key is None && dev_mode ==> r == Ok::<Option<String>, ServerError>(None),
        key is None && !dev_mode ==> (r is Err && r->Err_0 is InvalidInput),
{
    match key {
        Some(k) => Ok(Some(k)),
        None => {
            if dev_mode {
                Ok(None)
            } else {
                Err(ServerError::InvalidInput(
                    "no key provided: a key is required when not in dev mode".to_owned(),
                ))
            }
        }
    }
}

} // verus!
