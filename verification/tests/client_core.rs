//! Client construction, trust decisions, endpoint resolution, header
//! merging, and transfer classification.

use transfer_client::client::{ClientCore, Method};
use transfer_client::download::{download_outcome, persist_decision};
use transfer_client::errors::{ConfigError, TransferError};
use transfer_client::status::classify_response;
use transfer_client::trust::{policy_of, TrustDecision, TrustPolicy};
use transfer_client::upload::{file_base_name, plan_file_upload};
use transfer_client::urls::url_string;
use transfer_client::TlsConfig;

fn headers(v: &[(&str, &str)]) -> Vec<(String, String)> {
    v.iter().map(|(a, b)| (a.to_string(), b.to_string())).collect()
}

#[test]
fn plaintext_scheme_ignores_tls_policy() {
    let core = ClientCore::new(
        "http://localhost:3000",
        Some(TlsConfig { insecure: Some(true), private_chain_bytes: None }),
        Vec::new(),
    )
    .unwrap();
    assert!(matches!(core.trust, TrustDecision::Plaintext));
}

#[test]
fn https_insecure_is_explicit_opt_in() {
    let core = ClientCore::new(
        "https://localhost:3000",
        Some(TlsConfig { insecure: Some(true), private_chain_bytes: None }),
        Vec::new(),
    )
    .unwrap();
    assert!(matches!(core.trust, TrustDecision::AcceptAnyCertificate));
}

#[test]
fn https_defaults_to_system_roots() {
    let none = ClientCore::new("https://localhost:3000", None, Vec::new()).unwrap();
    assert!(matches!(none.trust, TrustDecision::SystemRoots));
    let off = ClientCore::new(
        "https://localhost:3000",
        Some(TlsConfig { insecure: Some(false), private_chain_bytes: None }),
        Vec::new(),
    )
    .unwrap();
    assert!(matches!(off.trust, TrustDecision::SystemRoots));
}

#[test]
fn https_custom_roots_are_sole_roots() {
    // A syntactically valid PEM block; the transport library defers chain
    // validation, so framing is what construction checks.
    let pem = b"-----BEGIN CERTIFICATE-----\nMIIBszCCAVmgAwIBAgIUfQ==\n-----END CERTIFICATE-----\n"
        .to_vec();
    let core = ClientCore::new(
        "https://localhost:3000",
        Some(TlsConfig { insecure: None, private_chain_bytes: Some(pem) }),
        Vec::new(),
    )
    .unwrap();
    match core.trust {
        TrustDecision::SoleRoots(certs) => assert_eq!(certs.len(), 1),
        _ => panic!("expected sole custom roots"),
    }
}

#[test]
fn https_bad_certificate_fails_construction() {
    let r = ClientCore::new(
        "https://localhost:3000",
        Some(TlsConfig { insecure: None, private_chain_bytes: Some(b"no pem here".to_vec()) }),
        Vec::new(),
    );
    assert!(matches!(r, Err(ConfigError::InvalidCertificate)));
}

#[test]
fn bad_base_address_fails_construction() {
    let r = ClientCore::new("not a url", None, Vec::new());
    assert!(matches!(r, Err(ConfigError::InvalidBaseAddress)));
}

#[test]
fn insecure_policy_requires_true() {
    let on = policy_of(&TlsConfig { insecure: Some(true), private_chain_bytes: None });
    assert!(matches!(on, TrustPolicy::InsecureSkipVerify));
    let off = policy_of(&TlsConfig { insecure: Some(false), private_chain_bytes: None });
    assert!(matches!(off, TrustPolicy::SystemDefault));
    let chain = policy_of(&TlsConfig {
        insecure: Some(false),
        private_chain_bytes: Some(vec![1, 2, 3]),
    });
    assert!(matches!(chain, TrustPolicy::CustomRootCertificate(b) if b == vec![1, 2, 3]));
}

#[test]
fn plan_request_resolves_relative_endpoints() {
    let core = ClientCore::new("http://h.example/api/v1?base=1", None, Vec::new()).unwrap();
    let plan = core.plan_request(Method::Get, "items?q=2", &Vec::new()).unwrap();
    assert_eq!(url_string(&plan.url), "http://h.example/api/items?q=2");
    let rooted = core.plan_request(Method::Get, "/top", &Vec::new()).unwrap();
    assert_eq!(url_string(&rooted.url), "http://h.example/top");
}

#[test]
fn plan_request_empty_reference_keeps_base_path_and_query() {
    let core = ClientCore::new("http://h.example/a/b?x=1", None, Vec::new()).unwrap();
    let same = core.plan_request(Method::Get, "", &Vec::new()).unwrap();
    assert_eq!(url_string(&same.url), "http://h.example/a/b?x=1");
    let new_query = core.plan_request(Method::Get, "?y=2", &Vec::new()).unwrap();
    assert_eq!(url_string(&new_query.url), "http://h.example/a/b?y=2");
}

#[test]
fn plan_request_takes_absolute_same_scheme_endpoint() {
    let core = ClientCore::new("http://h.example/", None, Vec::new()).unwrap();
    let plan = core.plan_request(Method::Post, "http://other.example/x", &Vec::new()).unwrap();
    assert_eq!(url_string(&plan.url), "http://other.example/x");
}

#[test]
fn plan_request_rejects_cross_scheme_endpoint() {
    let core = ClientCore::new("http://h.example/", None, Vec::new()).unwrap();
    let r = core.plan_request(Method::Get, "https://h.example/x", &Vec::new());
    assert!(matches!(r, Err(TransferError::Resolve)));
}

#[test]
fn plan_request_merges_headers_overlay_wins() {
    let core = ClientCore::new(
        "http://h.example/",
        None,
        headers(&[("accept", "json"), ("x-token", "default"), ("keep", "yes")]),
    )
    .unwrap();
    let plan = core
        .plan_request(Method::Get, "/", &headers(&[("x-token", "override"), ("extra", "1")]))
        .unwrap();
    assert_eq!(
        plan.headers,
        headers(&[("accept", "json"), ("keep", "yes"), ("x-token", "override"), ("extra", "1")])
    );
}

#[test]
fn classification_is_exactly_2xx() {
    assert!(classify_response(200).is_ok());
    assert!(classify_response(204).is_ok());
    assert!(classify_response(299).is_ok());
    assert!(matches!(classify_response(199), Err(TransferError::Status(199))));
    assert!(matches!(classify_response(300), Err(TransferError::Status(300))));
    assert!(matches!(classify_response(404), Err(TransferError::Status(404))));
    assert!(matches!(classify_response(500), Err(TransferError::Status(500))));
}

#[test]
fn download_distinguishes_empty_success_from_failure() {
    assert_eq!(download_outcome(200, b"abc".to_vec()).unwrap(), Some(b"abc".to_vec()));
    assert_eq!(download_outcome(200, Vec::new()).unwrap(), None);
    assert!(matches!(download_outcome(503, b"abc".to_vec()), Err(TransferError::Status(503))));
}

#[test]
fn second_fetch_fully_replaces_destination() {
    let longer = b"a longer first payload".to_vec();
    let shorter = b"short".to_vec();
    let mut destination: Vec<u8> = b"pre-existing".to_vec();
    if let Some(w) = persist_decision(Some(longer)) {
        destination = w.contents;
    }
    if let Some(w) = persist_decision(Some(shorter.clone())) {
        destination = w.contents;
    }
    assert_eq!(destination, shorter);
    // A fetch with no payload writes nothing at all.
    assert!(persist_decision(None).is_none());
}

#[test]
fn upload_plan_defaults_field_name() {
    let plan = plan_file_upload("notes.txt".to_string(), vec![1, 2, 3], None);
    assert_eq!(plan.field_name, "file");
    assert_eq!(plan.file_name, "notes.txt");
    assert_eq!(plan.content_type, "application/octet-stream");
    assert_eq!(plan.bytes, vec![1, 2, 3]);
    let named = plan_file_upload("n".to_string(), Vec::new(), Some("upload".to_string()));
    assert_eq!(named.field_name, "upload");
}

#[test]
fn base_name_is_last_segment() {
    assert_eq!(file_base_name("/tmp/work/report.pdf").unwrap(), "report.pdf");
    assert_eq!(file_base_name("plain.txt").unwrap(), "plain.txt");
    assert!(file_base_name("/tmp/dir/").is_none());
    assert!(file_base_name("").is_none());
}

#[test]
fn method_names_on_the_wire() {
    assert_eq!(Method::Get.as_str(), "GET");
    assert_eq!(Method::Post.as_str(), "POST");
    assert_eq!(Method::Put.as_str(), "PUT");
    assert_eq!(Method::Patch.as_str(), "PATCH");
    assert_eq!(Method::Delete.as_str(), "DELETE");
}

#[test]
fn errors_have_messages() {
    assert_eq!(ConfigError::InvalidCertificate.message(), "invalid certificate material");
    assert_eq!(
        TransferError::Status(404).message(),
        "non-success status code"
    );
}

#[test]
fn url_rendering_includes_query() {
    let core = ClientCore::new("https://user.example:8443/a/b?q=1", None, Vec::new()).unwrap();
    assert_eq!(url_string(&core.base), "https://user.example:8443/a/b?q=1");
}
