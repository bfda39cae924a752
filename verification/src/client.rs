//! The client core: configuration held for the client's lifetime, and the
//! per-call request plan.
//!
//! A client owns its base address components, its default headers, and the
//! trust decision built once at construction; all of it is immutable
//! afterwards, which is what makes one client instance safe to share between
//! concurrent calls. Planning a request resolves the endpoint against the
//! base and merges the per-call header overlay over the defaults; sending
//! the plan is transport plumbing outside the library.

use vstd::prelude::*;

use crate::errors::{ConfigError, TransferError};
use crate::headers::{merge_headers, merged_headers};
use crate::trust::{build_trust, pem_bundle_of, policy_of, TlsConfig, TrustDecision, TrustPolicy};
use crate::urls::{parse_url, parsed_url_of, resolve_endpoint, spec_resolved, str_eq, UrlParts};

verus! {

/// The request methods the client issues.
#[derive(Debug, Clone, Copy, PartialEq, Eq, Structural)]
pub enum Method {
    Get,
    Post,
    Put,
    Patch,
    Delete,
}

impl Method {
    pub open spec fn spec_str(&self) -> Seq<char> {
        match self {
            Method::Get => "GET"@,
            Method::Post => "POST"@,
            Method::Put => "PUT"@,
            Method::Patch => "PATCH"@,
            Method::Delete => "DELETE"@,
        }
    }

    /// The method's name on the wire.
    pub fn as_str(&self) -> (r: &'static str)
        ensures
            r@ == self.spec_str(),
    {
        match self {
            Method::Get => "GET",
            Method::Post => "POST",
            Method::Put => "PUT",
            Method::Patch => "PATCH",
            Method::Delete => "DELETE",
        }
    }
}

/// One planned request: the resolved absolute address, the merged headers,
/// and the method. The body (none, JSON, or a multipart plan) rides beside
/// it at the call site.
pub struct RequestPlan {
    pub method: Method,
    pub url: UrlParts,
    pub headers: Vec<(String, String)>,
}

/// The caller opted into skipping verification.
pub open spec fn spec_is_insecure(tls: Option<TlsConfig>) -> bool {
    match tls {
        Some(c) => c.insecure == Some(true),
        None => false,
    }
}

/// The PEM payload of an active custom-root policy, if any.
pub open spec fn spec_custom_chain(tls: Option<TlsConfig>) -> Option<Seq<u8>> {
    match tls {
        Some(c) => if c.insecure == Some(true) {
            None
        } else {
            match c.private_chain_bytes {
                Some(b) => Some(b@),
                None => None,
            }
        },
        None => None,
    }
}

pub open spec fn spec_is_https(scheme: Seq<char>) -> bool {
    scheme == "https"@
}

/// The immutable core of a client: base address, default headers, and the
/// trust decision built once at construction.
#[derive(Debug, Clone)]
pub struct ClientCore {
    pub base: UrlParts,
    pub default_headers: Vec<(String, String)>,
    pub trust: TrustDecision,
}

impl ClientCore {
    /// Build a client core from a base address string, an optional TLS
    /// configuration, and default headers. The base must parse as an
    /// absolute URL. For an `https` base the TLS configuration resolves to
    /// exactly one policy — explicit insecure opt-in wins, then a supplied
    /// certificate chain, then the system default — and bad certificate
    /// material fails construction with `InvalidCertificate` rather than
    /// falling back. For any other scheme the policy is ignored.
    pub fn new(base_url: &str, tls: Option<TlsConfig>, default_headers: Vec<(String, String)>)
        -> (r: Result<ClientCore, ConfigError>)
        ensures
            match r {
                Ok(c) => {
                    &&& parsed_url_of(base_url@) is Some
                    &&& c.base.model() == parsed_url_of(base_url@).unwrap()
                    &&& c.default_headers.deep_view() == default_headers.deep_view()
                    &&& {
                        let https = spec_is_https(c.base.scheme@);
                        &&& !https ==> c.trust is Plaintext
                        &&& https && spec_is_insecure(tls) ==> c.trust is AcceptAnyCertificate
                        &&& https && !spec_is_insecure(tls) && spec_custom_chain(tls) is None
                            ==> c.trust is SystemRoots
                        &&& https ==> (spec_custom_chain(tls) matches Some(pem) ==> (
                        c.trust matches TrustDecision::SoleRoots(certs)
                            && pem_bundle_of(pem) matches Some(n) && n > 0 && certs@.len() == n))
                    }
                },
                Err(e) => match e {
                    ConfigError::InvalidBaseAddress => parsed_url_of(base_url@) is None,
                    ConfigError::InvalidCertificate => {
                        &&& parsed_url_of(base_url@) is Some
                        &&& spec_is_https(parsed_url_of(base_url@).unwrap().0)
                        &&& spec_custom_chain(tls) matches Some(pem) && (pem_bundle_of(pem)
                            is None || pem_bundle_of(pem) == Some(0nat))
                    },
                },
            },
    {
        let base = match parse_url(base_url) {
            Ok(base) => base,
            Err(_) => {
                return Err(ConfigError::InvalidBaseAddress);
            },
        };
        let encrypted = str_eq(base.scheme.as_str(), "https");
        let policy = match &tls {
            Some(cfg) => policy_of(cfg),
            None => TrustPolicy::SystemDefault,
        };
        let trust = match build_trust(&policy, encrypted) {
            Ok(trust) => trust,
            Err(e) => {
                return Err(e);
            },
        };
        Ok(ClientCore { base, default_headers, trust })
    }

    /// Plan one request: resolve the endpoint against the base address and
    /// merge the per-call header overlay over the client defaults (overlay
    /// wins on a name collision, both sides otherwise preserved). Fails
    /// exactly when the endpoint does not resolve on the client's scheme.
    pub fn plan_request(
        &self,
        method: Method,
        endpoint: &str,
        extra_headers: &Vec<(String, String)>,
    ) -> (r: Result<RequestPlan, TransferError>)
        ensures
            match r {
                Ok(plan) => {
                    &&& plan.method == method
                    &&& spec_resolved(self.base.model(), endpoint@) == Some(plan.url.model())
                    &&& plan.headers.deep_view() == merged_headers(
                        self.default_headers.deep_view(),
                        extra_headers.deep_view(),
                    )
                },
                Err(e) => e is Resolve && spec_resolved(self.base.model(), endpoint@) is None,
            },
    {
        let url = match resolve_endpoint(&self.base, endpoint) {
            Ok(url) => url,
            Err(e) => {
                return Err(e);
            },
        };
        let headers = merge_headers(&self.default_headers, extra_headers);
        Ok(RequestPlan { method, url, headers })
    }
}

} // verus!
