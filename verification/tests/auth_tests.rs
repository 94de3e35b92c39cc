use openmcp::auth::{
    deny_response_json, extract_credential, key_verify_layer, settle_verdict, ApiKeyVerifier,
    AuthOutcome, Denial, KeyVerifier, LookupOutcome, TspKeyVerifier,
};
use openmcp::tsp::TrustEndpoint;

fn deny_parts(out: AuthOutcome) -> (u16, String) {
    match out {
        AuthOutcome::Allow => panic!("expected a denial"),
        AuthOutcome::Deny(d) => (d.code, d.message),
    }
}

#[test]
fn missing_header_is_401() {
    let r = extract_credential(None);
    match r {
        Ok(_) => panic!("expected a denial"),
        Err(d) => {
            assert_eq!(d.code, 401);
            assert_eq!(d.message, "Missing Authorization header");
        }
    }
}

#[test]
fn wrong_scheme_is_400() {
    let header = b"Token abc".to_vec();
    let r = extract_credential(Some(&header));
    match r {
        Ok(_) => panic!("expected a denial"),
        Err(d) => {
            assert_eq!(d.code, 400);
            assert_eq!(d.message, "Invalid Authorization format");
        }
    }
}

#[test]
fn non_text_header_is_400() {
    let header = vec![66u8, 101, 97, 114, 101, 114, 32, 0xFF, 0xFE];
    let r = extract_credential(Some(&header));
    match r {
        Ok(_) => panic!("expected a denial"),
        Err(d) => {
            assert_eq!(d.code, 400);
            assert_eq!(d.message, "Invalid Authorization header encoding");
        }
    }
}

#[test]
fn delete_byte_is_not_text() {
    let header = vec![66u8, 101, 97, 114, 101, 114, 32, 127];
    let d = extract_credential(Some(&header)).unwrap_err();
    assert_eq!(d.code, 400);
    assert_eq!(d.message, "Invalid Authorization header encoding");
}

#[test]
fn prefix_is_case_sensitive_and_needs_its_space() {
    let lower = b"bearer k1".to_vec();
    let d = extract_credential(Some(&lower)).unwrap_err();
    assert_eq!(d.message, "Invalid Authorization format");
    let bare = b"Bearer".to_vec();
    let d2 = extract_credential(Some(&bare)).unwrap_err();
    assert_eq!(d2.code, 400);
    assert_eq!(d2.message, "Invalid Authorization format");
}

#[test]
fn bearer_credential_is_extracted_unmodified() {
    let header = b"Bearer did:example:peer1".to_vec();
    let r = extract_credential(Some(&header));
    assert_eq!(r.ok(), Some("did:example:peer1".to_string()));
}

#[test]
fn bearer_with_empty_credential() {
    let header = b"Bearer ".to_vec();
    let r = extract_credential(Some(&header));
    assert_eq!(r.ok(), Some(String::new()));
}

#[test]
fn lookup_success_statuses_allow() {
    assert!(ApiKeyVerifier::decide(&LookupOutcome::Status(200)).is_ok());
    assert!(ApiKeyVerifier::decide(&LookupOutcome::Status(204)).is_ok());
    assert!(ApiKeyVerifier::decide(&LookupOutcome::Status(299)).is_ok());
}

#[test]
fn lookup_failure_status_denies_naming_it() {
    let r = ApiKeyVerifier::decide(&LookupOutcome::Status(403));
    let msg = r.unwrap_err();
    assert!(msg.contains("403"));
    assert_eq!(msg, "Invalid API key (HTTP 403)");
    let r500 = ApiKeyVerifier::decide(&LookupOutcome::Status(500));
    assert_eq!(r500.unwrap_err(), "Invalid API key (HTTP 500)");
}

#[test]
fn lookup_transport_failure_denies_with_description() {
    let r = ApiKeyVerifier::decide(&LookupOutcome::TransportError(
        "connection refused".to_string(),
    ));
    assert_eq!(r.unwrap_err(), "Request error: connection refused");
}

#[test]
fn lookup_url_and_body() {
    let v = ApiKeyVerifier::new("http://127.0.0.1:8081".to_string());
    assert_eq!(v.lookup_url(), "http://127.0.0.1:8081/reverse-lookup");
    assert_eq!(
        ApiKeyVerifier::lookup_request_body("k1"),
        "{\"api_key\":\"k1\"}"
    );
}

#[test]
fn forwarded_when_upstream_approves() {
    // Scenario: header `Authorization: Bearer k1`, remote lookup configured,
    // the upstream answers 200: the request is forwarded.
    let header = b"Bearer k1".to_vec();
    let key = extract_credential(Some(&header)).expect("well-formed header");
    assert_eq!(key, "k1");
    let verdict = ApiKeyVerifier::decide(&LookupOutcome::Status(200));
    let out = settle_verdict(verdict);
    assert!(matches!(out, AuthOutcome::Allow));
}

#[test]
fn wrong_scheme_answers_exact_json() {
    let header = b"Token abc".to_vec();
    let d = extract_credential(Some(&header)).unwrap_err();
    let body = deny_response_json(&d);
    assert_eq!(body, "{\"code\":400,\"message\":\"Invalid Authorization format\"}");
}

#[test]
fn missing_header_answers_exact_json() {
    let d = extract_credential(None).unwrap_err();
    let body = deny_response_json(&d);
    assert_eq!(
        body,
        "{\"code\":401,\"message\":\"Missing Authorization header\"}"
    );
}

#[test]
fn deny_body_escapes_message_characters() {
    let d = Denial {
        code: 401,
        message: "a \"quoted\" \\ back\nslash\ttab".to_string(),
    };
    let body = deny_response_json(&d);
    assert_eq!(
        body,
        "{\"code\":401,\"message\":\"a \\\"quoted\\\" \\\\ back\\nslash\\ttab\"}"
    );
}

#[test]
fn deny_body_escapes_control_characters() {
    let d = Denial {
        code: 400,
        message: "a\u{1}b".to_string(),
    };
    assert_eq!(deny_response_json(&d), "{\"code\":400,\"message\":\"a\\u0001b\"}");
}

#[test]
fn never_contacted_peer_is_denied_end_to_end() {
    // Scenario: relationship mode, the peer never contacted the endpoint.
    let ep = TrustEndpoint::new("did:example:self".to_string());
    let v = TspKeyVerifier::new(ep.store, "did:example:self".to_string());
    let header = b"Bearer did:example:peer1".to_vec();
    let out = key_verify_layer(&v, Some(&header));
    let (code, message) = deny_parts(out);
    assert_eq!(code, 401);
    assert_eq!(message, "Relation is not bidirectional");
}

#[test]
fn middleware_allows_bidirectional_peer() {
    let mut ep = TrustEndpoint::new("did:example:self".to_string());
    ep.store.set_bidirectional("did:example:peer1");
    let v = TspKeyVerifier::new(ep.store, "did:example:self".to_string());
    let header = b"Bearer did:example:peer1".to_vec();
    let out = key_verify_layer(&v, Some(&header));
    assert!(matches!(out, AuthOutcome::Allow));
}

#[test]
fn unknown_identity_is_a_store_error_denial() {
    let ep = TrustEndpoint::new("did:example:self".to_string());
    let v = TspKeyVerifier::new(ep.store, "did:example:other".to_string());
    let r = v.verify("did:example:peer1");
    assert_eq!(
        r.unwrap_err(),
        "Failed to get relation status: unknown local identity"
    );
}
