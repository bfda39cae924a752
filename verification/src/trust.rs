//! TLS trust establishment from a declarative policy.
//!
//! A `TlsConfig` (two optional knobs, as callers supply it) is first resolved
//! into a closed `TrustPolicy`, so exactly one policy is active by
//! construction. For an encrypted scheme the policy is then built into a
//! `TrustDecision`, the transport-level trust context: system roots, accept
//! anything (an explicit caller opt-in, never a default), or the supplied
//! certificates as the sole roots with no fallback. Bad certificate material
//! is a recoverable `ConfigError`, detected once, at construction.

use vstd::prelude::*;

use crate::errors::ConfigError;
use crate::extract::clone_bytes;

verus! {

/// A parsed root certificate of the transport library, carried opaquely.
#[verifier::external_type_specification]
#[verifier::external_body]
pub struct ExCertificate(reqwest::Certificate);

/// The error type of the transport library, carried opaquely.
#[verifier::external_type_specification]
#[verifier::external_body]
pub struct ExReqwestError(reqwest::Error);

/// What parsing a PEM bundle yields: `None` when the bytes are malformed,
/// otherwise the number of certificates found (possibly zero).
pub uninterp spec fn pem_bundle_of(pem: Seq<u8>) -> Option<nat>;

/// Relies on `reqwest::Certificate::from_pem_bundle`: success and the number
/// of certificates parsed are functions of the PEM bytes alone.
#[verifier::external_body]
fn certificates_from_pem(pem: &Vec<u8>) -> (r: Result<Vec<reqwest::Certificate>, reqwest::Error>)
    ensures
        r is Ok <==> pem_bundle_of(pem@) is Some,
        r matches Ok(certs) ==> certs@.len() == pem_bundle_of(pem@).unwrap(),
{
    reqwest::Certificate::from_pem_bundle(pem.as_slice())
}

/// The caller-facing TLS configuration: two optional knobs. `insecure`
/// set to true wins over any supplied certificate chain.
#[derive(Debug, Clone)]
pub struct TlsConfig {
    pub insecure: Option<bool>,
    pub private_chain_bytes: Option<Vec<u8>>,
}

/// The closed trust policy: exactly one variant is active.
#[derive(Debug)]
pub enum TrustPolicy {
    /// Use the platform or library default root store.
    SystemDefault,
    /// Accept any server certificate without chain or hostname validation;
    /// an explicit, caller-opted-in downgrade.
    InsecureSkipVerify,
    /// Trust only the certificates in this PEM payload.
    CustomRootCertificate(Vec<u8>),
}

/// Resolve the two optional knobs into the single active policy: an explicit
/// `insecure = Some(true)` wins; otherwise a supplied chain selects custom
/// roots; otherwise the system default. Skipping verification is never the
/// default.
pub fn policy_of(cfg: &TlsConfig) -> (r: TrustPolicy)
    ensures
        (r is InsecureSkipVerify) <==> (cfg.insecure == Some(true)),
        (r is SystemDefault) <==> (cfg.insecure != Some(true)
            && cfg.private_chain_bytes is None),
        r matches TrustPolicy::CustomRootCertificate(pem) ==> (cfg.insecure != Some(true)
            && cfg.private_chain_bytes is Some && pem@ == cfg.private_chain_bytes.unwrap()@),
        (cfg.insecure != Some(true) && cfg.private_chain_bytes is Some)
            ==> r is CustomRootCertificate,
{
    match cfg.insecure {
        Some(true) => TrustPolicy::InsecureSkipVerify,
        _ => match &cfg.private_chain_bytes {
            Some(bytes) => TrustPolicy::CustomRootCertificate(clone_bytes(bytes)),
            None => TrustPolicy::SystemDefault,
        },
    }
}

/// Verification is only ever skipped when the caller explicitly asked for
/// it: the resolved policy is `InsecureSkipVerify` exactly when the
/// configuration set `insecure` to true.
pub proof fn lemma_insecure_is_opt_in(r: TrustPolicy, cfg: TlsConfig)
    requires
        call_ensures(policy_of, (&cfg,), r),
    ensures
        (r is InsecureSkipVerify) <==> (cfg.insecure == Some(true)),
{
}

/// The transport-level trust context a policy builds to.
#[derive(Debug, Clone)]
pub enum TrustDecision {
    /// The scheme is not encrypted: a plain transport, the policy is
    /// ignored.
    Plaintext,
    /// Validate chains against the platform or library default root store.
    SystemRoots,
    /// Accept any server certificate without validation.
    AcceptAnyCertificate,
    /// Validate chains against exactly these roots; no fallback to system
    /// roots.
    SoleRoots(Vec<reqwest::Certificate>),
}

/// Build the trust context for a policy and a scheme. For a plaintext scheme
/// the policy is irrelevant. For an encrypted scheme, a custom-root policy
/// succeeds exactly when the PEM payload parses to at least one certificate,
/// and those certificates become the sole roots; zero certificates or
/// malformed data are an `InvalidCertificate` error, never a silent fallback
/// to system roots.
pub fn build_trust(policy: &TrustPolicy, encrypted: bool) -> (r: Result<
    TrustDecision,
    ConfigError,
>)
    ensures
        !encrypted ==> (r matches Ok(d) && d is Plaintext),
        encrypted && policy is SystemDefault ==> (r matches Ok(d) && d is SystemRoots),
        encrypted && policy is InsecureSkipVerify ==> (r matches Ok(d)
            && d is AcceptAnyCertificate),
        encrypted ==> (policy matches TrustPolicy::CustomRootCertificate(pem) ==> (match pem_bundle_of(
            pem@,
        ) {
            Some(n) => if n > 0 {
                r matches Ok(d) && d matches TrustDecision::SoleRoots(certs) && certs@.len() == n
            } else {
                r matches Err(e) && e is InvalidCertificate
            },
            None => r matches Err(e) && e is InvalidCertificate,
        })),
{
    if !encrypted {
        return Ok(TrustDecision::Plaintext);
    }
    match policy {
        TrustPolicy::SystemDefault => Ok(TrustDecision::SystemRoots),
        TrustPolicy::InsecureSkipVerify => Ok(TrustDecision::AcceptAnyCertificate),
        TrustPolicy::CustomRootCertificate(pem) => match certificates_from_pem(pem) {
            Err(_) => Err(ConfigError::InvalidCertificate),
            Ok(certs) => {
                if certs.len() == 0 {
                    Err(ConfigError::InvalidCertificate)
                } else {
                    Ok(TrustDecision::SoleRoots(certs))
                }
            },
        },
    }
}

/// A custom-root policy never falls back: whatever building the trust
/// context returns for it on an encrypted scheme is either the supplied
/// roots alone or an `InvalidCertificate` error — never the system root
/// store, and never the insecure context.
pub proof fn lemma_custom_roots_never_fall_back(
    r: Result<TrustDecision, ConfigError>,
    policy: TrustPolicy,
    encrypted: bool,
)
    requires
        call_ensures(build_trust, (&policy, encrypted), r),
        encrypted,
        policy is CustomRootCertificate,
    ensures
        r matches Ok(d) ==> d is SoleRoots,
        r matches Err(e) ==> e is InvalidCertificate,
{
}

} // verus!
