use acdp::error::{AcdpError, AuthorizationFault, CheckFault, RevocationMember, SchemaFault};
use acdp::key_revocation::{
    effective_boundary, is_sha256_fingerprint, DidChecks, KeyRevocation, RevocationTrustClass,
    MAX_REASON_CHARS,
};
use acdp::time::{parse_canonical_ms, Timestamp};
use acdp::types::{
    AgentDid, Body, ContentHash, ContextType, CtxId, LineageId, PublishRequest, Signature,
    Visibility,
};
use serde_json::Value;

const PR_PRODUCER_DID: &str = "did:web:agents.example.com:pr-test-producer";
const PR_COMPROMISED_SINCE: &str = "2026-05-01T00:00:00.000Z";

fn text(t: &str) -> Value {
    Value::String(t.to_string())
}

fn pr_valid_metadata() -> serde_json::Map<String, Value> {
    let mut m = serde_json::Map::new();
    m.insert(
        "revoked_key_fingerprint".to_string(),
        text(&format!("sha256:{}", "a".repeat(64))),
    );
    m.insert("compromised_since".to_string(), text(PR_COMPROMISED_SINCE));
    m
}

fn metadata_with(name: &str, value: Value) -> Option<Value> {
    let mut m = pr_valid_metadata();
    m.insert(name.to_string(), value);
    Some(Value::Object(m))
}

fn metadata_without(name: &str) -> Option<Value> {
    let mut m = pr_valid_metadata();
    m.remove(name);
    Some(Value::Object(m))
}

fn valid_metadata() -> Option<Value> {
    Some(Value::Object(pr_valid_metadata()))
}

fn publish_request_with_metadata(metadata: Option<Value>) -> PublishRequest {
    PublishRequest {
        agent_id: AgentDid::new(PR_PRODUCER_DID),
        context_type: ContextType::KeyRevocation,
        visibility: Visibility::Public,
        metadata,
        data_refs: vec![],
        supersedes: None,
        content_hash: ContentHash("sha256:0".to_string()),
        signature: Signature {
            algorithm: "ed25519".to_string(),
            key_id: format!("{PR_PRODUCER_DID}#key-1"),
        },
    }
}

fn body_from_pr_request(req: &PublishRequest) -> Body {
    Body {
        ctx_id: CtxId(
            "acdp://registry.example.com/00000000-0000-4000-8000-000000000000".to_string(),
        ),
        lineage_id: LineageId(format!("lin:sha256:{}", "0".repeat(64))),
        version: 1,
        agent_id: req.agent_id.clone(),
        context_type: ContextType::KeyRevocation,
        visibility: req.visibility,
        metadata: req.metadata.clone(),
        data_refs: vec![],
        derived_from: vec![],
        content_hash: req.content_hash.clone(),
        signature: Signature {
            algorithm: req.signature.algorithm.clone(),
            key_id: req.signature.key_id.clone(),
        },
    }
}

/// The checks of a request whose controller, if any, is a valid identity and
/// whose signing key is not derived from its identity.
fn no_dids() -> DidChecks {
    DidChecks { controller: Ok(()), signer_fingerprint: None }
}

fn schema_fault(r: Result<KeyRevocation, AcdpError>) -> SchemaFault<String> {
    match r {
        Err(AcdpError::SchemaViolation(f)) => f,
        other => panic!("expected a schema violation, got {other:?}"),
    }
}

#[test]
fn from_publish_request_valid_case_is_accepted() {
    let req = publish_request_with_metadata(valid_metadata());
    let rev = KeyRevocation::from_publish_request(&req, &no_dids())
        .expect("shape-conformant request must parse");
    assert_eq!(rev.trust_class, RevocationTrustClass::ProducerSigned);
    assert_eq!(rev.publisher.as_str(), PR_PRODUCER_DID);
    assert_eq!(rev.revoked_key_controller.as_str(), PR_PRODUCER_DID);
}

#[test]
fn a_valid_request_is_read_member_by_member() {
    let mut m = pr_valid_metadata();
    m.insert("reason".to_string(), text("laptop stolen"));
    m.insert("revoked_key_id".to_string(), text("did:web:a.example#key-1"));
    let req = publish_request_with_metadata(Some(Value::Object(m)));
    let rev = KeyRevocation::from_publish_request(&req, &no_dids()).unwrap();
    assert_eq!(rev.revoked_key_fingerprint, format!("sha256:{}", "a".repeat(64)));
    assert_eq!(rev.compromised_since, Timestamp { secs: 1_777_593_600, nanos: 0 });
    assert_eq!(rev.reason.as_deref(), Some("laptop stolen"));
    assert_eq!(rev.revoked_key_id.as_deref(), Some("did:web:a.example#key-1"));
}

#[test]
fn from_publish_request_wrong_context_type_rejected() {
    let mut req = publish_request_with_metadata(valid_metadata());
    req.context_type = ContextType::Standard("analysis".to_string());
    assert_eq!(
        schema_fault(KeyRevocation::from_publish_request(&req, &no_dids())),
        SchemaFault::NotKeyRevocation { context_type: "analysis".to_string() }
    );
}

#[test]
fn from_publish_request_non_public_visibility_rejected() {
    let mut req = publish_request_with_metadata(valid_metadata());
    req.visibility = Visibility::Restricted;
    assert_eq!(
        schema_fault(KeyRevocation::from_publish_request(&req, &no_dids())),
        SchemaFault::NotPublic
    );
}

#[test]
fn from_publish_request_missing_metadata_rejected() {
    let req = publish_request_with_metadata(None);
    assert_eq!(
        schema_fault(KeyRevocation::from_publish_request(&req, &no_dids())),
        SchemaFault::NoMetadataObject
    );
}

#[test]
fn metadata_that_is_no_object_is_rejected() {
    for value in [Value::Null, text("x"), Value::Array(vec![])] {
        let req = publish_request_with_metadata(Some(value));
        assert_eq!(
            schema_fault(KeyRevocation::from_publish_request(&req, &no_dids())),
            SchemaFault::NoMetadataObject
        );
    }
}

#[test]
fn from_publish_request_missing_fingerprint_rejected() {
    let req = publish_request_with_metadata(metadata_without("revoked_key_fingerprint"));
    assert_eq!(
        schema_fault(KeyRevocation::from_publish_request(&req, &no_dids())),
        SchemaFault::MemberRequired(RevocationMember::Fingerprint)
    );
}

#[test]
fn from_publish_request_malformed_fingerprint_rejected() {
    let req = publish_request_with_metadata(metadata_with(
        "revoked_key_fingerprint",
        text("not-a-fingerprint"),
    ));
    assert_eq!(
        schema_fault(KeyRevocation::from_publish_request(&req, &no_dids())),
        SchemaFault::MalformedFingerprint("not-a-fingerprint".to_string())
    );
}

#[test]
fn from_publish_request_missing_compromised_since_rejected() {
    let req = publish_request_with_metadata(metadata_without("compromised_since"));
    assert_eq!(
        schema_fault(KeyRevocation::from_publish_request(&req, &no_dids())),
        SchemaFault::MemberRequired(RevocationMember::CompromisedSince)
    );
}

#[test]
fn from_publish_request_non_canonical_compromised_since_rejected() {
    let req = publish_request_with_metadata(metadata_with(
        "compromised_since",
        text("2026-05-01T00:00:00Z"),
    ));
    assert_eq!(
        schema_fault(KeyRevocation::from_publish_request(&req, &no_dids())),
        SchemaFault::NonCanonicalTimestamp("2026-05-01T00:00:00Z".to_string())
    );
}

#[test]
fn from_publish_request_reason_over_limit_rejected() {
    let req = publish_request_with_metadata(metadata_with(
        "reason",
        text(&"x".repeat(MAX_REASON_CHARS + 1)),
    ));
    assert_eq!(
        schema_fault(KeyRevocation::from_publish_request(&req, &no_dids())),
        SchemaFault::ReasonTooLong
    );
}

#[test]
fn the_reason_is_measured_in_characters() {
    let req =
        publish_request_with_metadata(metadata_with("reason", text(&"é".repeat(MAX_REASON_CHARS))));
    assert!(KeyRevocation::from_publish_request(&req, &no_dids()).is_ok());
}

#[test]
fn from_body_and_from_publish_request_agree_on_equivalent_input() {
    let req = publish_request_with_metadata(valid_metadata());
    let body = body_from_pr_request(&req);
    assert_eq!(
        KeyRevocation::from_publish_request(&req, &no_dids()).unwrap(),
        KeyRevocation::from_body(&body, &no_dids()).unwrap()
    );
}

#[test]
fn from_body_and_from_publish_request_agree_on_error_message() {
    let mut req = publish_request_with_metadata(valid_metadata());
    req.visibility = Visibility::Restricted;
    let body = body_from_pr_request(&req);
    let pr_err = KeyRevocation::from_publish_request(&req, &no_dids()).unwrap_err();
    let body_err = KeyRevocation::from_body(&body, &no_dids()).unwrap_err();
    assert!(matches!(pr_err, AcdpError::SchemaViolation(_)));
    assert_eq!(pr_err, body_err);

    let req = publish_request_with_metadata(metadata_with(
        "revoked_key_fingerprint",
        text("not-a-fingerprint"),
    ));
    let body = body_from_pr_request(&req);
    let pr_err = KeyRevocation::from_publish_request(&req, &no_dids()).unwrap_err();
    let body_err = KeyRevocation::from_body(&body, &no_dids()).unwrap_err();
    assert!(matches!(pr_err, AcdpError::SchemaViolation(_)));
    assert_eq!(pr_err, body_err);
}

#[test]
fn from_publish_request_controller_equal_to_agent_id_is_producer_signed() {
    let req = publish_request_with_metadata(metadata_with(
        "revoked_key_controller",
        text(PR_PRODUCER_DID),
    ));
    let rev = KeyRevocation::from_publish_request(&req, &no_dids()).unwrap();
    assert_eq!(rev.trust_class, RevocationTrustClass::ProducerSigned);
    assert_eq!(rev.revoked_key_controller.as_str(), PR_PRODUCER_DID);
}

#[test]
fn from_publish_request_controller_different_from_agent_id_is_registry_attested() {
    const OTHER_PRODUCER: &str = "did:web:agents.example.com:other-producer";
    let req =
        publish_request_with_metadata(metadata_with("revoked_key_controller", text(OTHER_PRODUCER)));
    let rev = KeyRevocation::from_publish_request(&req, &no_dids()).unwrap();
    assert_eq!(rev.trust_class, RevocationTrustClass::RegistryAttested);
    assert_eq!(rev.revoked_key_controller.as_str(), OTHER_PRODUCER);
    assert_eq!(rev.publisher.as_str(), PR_PRODUCER_DID);
}

#[test]
fn from_publish_request_controller_not_a_string_rejected() {
    let req = publish_request_with_metadata(metadata_with(
        "revoked_key_controller",
        Value::Number(serde_json::Number::from(42)),
    ));
    assert_eq!(
        schema_fault(KeyRevocation::from_publish_request(&req, &no_dids())),
        SchemaFault::MemberNotText(RevocationMember::Controller)
    );
}

#[test]
fn from_publish_request_controller_invalid_did_rejected() {
    let req =
        publish_request_with_metadata(metadata_with("revoked_key_controller", text("not-a-did")));
    let dids = DidChecks {
        controller: Err(CheckFault::Schema("not a DID: not-a-did".to_string())),
        signer_fingerprint: None,
    };
    assert!(matches!(
        KeyRevocation::from_publish_request(&req, &dids),
        Err(AcdpError::SchemaViolation(_))
    ));
}

const DID_KEY_ID: &str = "did:key:z6MkonlySigner#z6MkonlySigner";
const DID_KEY_FINGERPRINT: &str =
    "sha256:139e3940e64b5491722088d9a0d741628fc826e09475d341a780acde3c4b8070";

#[test]
fn from_publish_request_did_key_self_revocation_rejected() {
    let mut req = publish_request_with_metadata(metadata_with(
        "revoked_key_fingerprint",
        text(DID_KEY_FINGERPRINT),
    ));
    req.signature.key_id = DID_KEY_ID.to_string();
    let dids = DidChecks {
        controller: Ok(()),
        signer_fingerprint: Some(DID_KEY_FINGERPRINT.to_string()),
    };
    assert!(matches!(
        KeyRevocation::from_publish_request(&req, &dids),
        Err(AcdpError::KeyNotAuthorized(_))
    ));
}

#[test]
fn from_publish_request_did_key_different_key_accepted() {
    let mut req = publish_request_with_metadata(valid_metadata());
    req.signature.key_id = DID_KEY_ID.to_string();
    let dids = DidChecks {
        controller: Ok(()),
        signer_fingerprint: Some(DID_KEY_FINGERPRINT.to_string()),
    };
    let rev = KeyRevocation::from_publish_request(&req, &dids)
        .expect("did:key signer whose fingerprint differs from the revoked key must pass");
    assert_eq!(rev.trust_class, RevocationTrustClass::ProducerSigned);
}

#[test]
fn from_publish_request_malformed_did_key_key_id_not_rejected_here() {
    let mut req = publish_request_with_metadata(metadata_with(
        "revoked_key_fingerprint",
        text(DID_KEY_FINGERPRINT),
    ));
    req.signature.key_id = format!("{DID_KEY_ID}-not-the-msi");
    let rev = KeyRevocation::from_publish_request(&req, &no_dids()).expect(
        "malformed did:key key_id is left for signature verification, not rejected here",
    );
    assert_eq!(rev.trust_class, RevocationTrustClass::ProducerSigned);
}

fn registry_attested_rev(publisher: &str) -> KeyRevocation {
    KeyRevocation {
        revoked_key_fingerprint: format!("sha256:{}", "a1".repeat(32)),
        compromised_since: parse_canonical_ms("2026-05-01T00:00:00.000Z").unwrap(),
        reason: None,
        revoked_key_id: None,
        revoked_key_controller: AgentDid::new("did:web:agents.example.com:producer"),
        publisher: AgentDid::new(publisher),
        trust_class: RevocationTrustClass::RegistryAttested,
    }
}

#[test]
fn cross_check_registry_binding_success_and_both_failure_directions() {
    let rev = registry_attested_rev("did:web:registry.example.com");

    rev.cross_check_registry_binding("registry.example.com", "did:web:registry.example.com")
        .expect("serving authority and capabilities.registry_did both match publisher");

    assert_eq!(
        rev.cross_check_registry_binding("hostile.example", "did:web:registry.example.com"),
        Err(AcdpError::KeyNotAuthorized(AuthorizationFault::PublisherNotServing {
            publisher: "did:web:registry.example.com".to_string(),
            expected: "did:web:hostile.example".to_string(),
        }))
    );

    assert_eq!(
        rev.cross_check_registry_binding("registry.example.com", "did:web:other.example"),
        Err(AcdpError::KeyNotAuthorized(AuthorizationFault::PublisherNotRegistry {
            publisher: "did:web:registry.example.com".to_string(),
            registry_did: "did:web:other.example".to_string(),
        }))
    );
}

#[test]
fn cross_check_registry_binding_percent_encoded_port_authority() {
    let rev = registry_attested_rev("did:web:localhost%3A8443");

    rev.cross_check_registry_binding("localhost:8443", "did:web:localhost%3A8443")
        .expect("host:port authority round-trips through authority_to_did_web");

    assert!(matches!(
        rev.cross_check_registry_binding("localhost", "did:web:localhost%3A8443"),
        Err(AcdpError::KeyNotAuthorized(_))
    ));
}

#[test]
fn fingerprint_form_edges() {
    assert!(is_sha256_fingerprint(&format!("sha256:{}", "a1".repeat(32))));
    assert!(!is_sha256_fingerprint(&format!("sha256:{}", "A1".repeat(32))));
    assert!(!is_sha256_fingerprint(&format!("sha512:{}", "a1".repeat(32))));
    assert!(!is_sha256_fingerprint(&format!("sha256:{}", "a1".repeat(31))));
    assert!(!is_sha256_fingerprint("sha256:"));
    assert!(!is_sha256_fingerprint(&"a1".repeat(32)));
}

#[test]
fn canonical_ms_timestamp_edges() {
    assert!(parse_canonical_ms("2026-05-01T00:00:00.000Z").is_some());
    for bad in [
        "2026-05-01T00:00:00Z",
        "2026-05-01T00:00:00.0Z",
        "2026-05-01T00:00:00.000000Z",
        "2026-05-01T00:00:00.000+00:00",
        "2026-05-01 00:00:00.000Z",
        "not-a-time",
    ] {
        assert!(parse_canonical_ms(bad).is_none(), "{bad:?} must be rejected");
    }
}

#[test]
fn a_canonical_timestamp_gives_its_instant() {
    assert_eq!(
        parse_canonical_ms("1970-01-01T00:00:01.500Z"),
        Some(Timestamp { secs: 1, nanos: 500_000_000 })
    );
    assert_eq!(
        parse_canonical_ms("1969-12-31T23:59:59.999Z"),
        Some(Timestamp { secs: -1, nanos: 999_000_000 })
    );
}

const EB_FP: &str = "sha256:139e3940e64b5491722088d9a0d741628fc826e09475d341a780acde3c4b8070";
const EB_OTHER_FP: &str = "sha256:3097e2dee2cb4a34b53840cdb705aed71067c36f68db0e0f559c3f3fa043315f";

fn eb_rev(fp: &str, t: &str) -> KeyRevocation {
    KeyRevocation {
        revoked_key_fingerprint: fp.to_string(),
        compromised_since: parse_canonical_ms(t).unwrap(),
        reason: None,
        revoked_key_id: None,
        revoked_key_controller: AgentDid::new("did:web:agents.example.com:p"),
        publisher: AgentDid::new("did:web:agents.example.com:p"),
        trust_class: RevocationTrustClass::ProducerSigned,
    }
}

#[test]
fn effective_boundary_empty_slice_is_none() {
    let revs: Vec<KeyRevocation> = vec![];
    assert_eq!(effective_boundary(&revs, EB_FP), None);
}

#[test]
fn effective_boundary_single_match() {
    let revs = vec![eb_rev(EB_FP, "2026-05-01T00:00:00.000Z")];
    assert_eq!(
        effective_boundary(&revs, EB_FP),
        Some(parse_canonical_ms("2026-05-01T00:00:00.000Z").unwrap())
    );
}

#[test]
fn effective_boundary_min_folds_across_multiple_entries_same_fingerprint() {
    let revs = vec![
        eb_rev(EB_FP, "2026-06-01T00:00:00.000Z"),
        eb_rev(EB_FP, "2026-04-01T00:00:00.000Z"),
        eb_rev(EB_FP, "2026-05-01T00:00:00.000Z"),
    ];
    assert_eq!(
        effective_boundary(&revs, EB_FP),
        Some(parse_canonical_ms("2026-04-01T00:00:00.000Z").unwrap())
    );
}

#[test]
fn effective_boundary_ignores_non_matching_fingerprints() {
    let revs = vec![
        eb_rev(EB_OTHER_FP, "2026-01-01T00:00:00.000Z"),
        eb_rev(EB_FP, "2026-05-01T00:00:00.000Z"),
        eb_rev(EB_OTHER_FP, "2026-02-01T00:00:00.000Z"),
    ];
    assert_eq!(
        effective_boundary(&revs, EB_FP),
        Some(parse_canonical_ms("2026-05-01T00:00:00.000Z").unwrap())
    );
    const UNRELATED_FP: &str =
        "sha256:aaaaaaaaaaaaaaaaaaaaaaaaaaaaaaaaaaaaaaaaaaaaaaaaaaaaaaaaaaaaaaaa";
    assert_eq!(effective_boundary(&revs, UNRELATED_FP), None);
}

#[test]
fn a_boundary_over_a_union_is_the_earlier_one() {
    let early = vec![eb_rev(EB_FP, "2026-04-01T00:00:00.000Z")];
    let late = vec![eb_rev(EB_FP, "2026-06-01T00:00:00.000Z")];
    let both = vec![
        eb_rev(EB_FP, "2026-06-01T00:00:00.000Z"),
        eb_rev(EB_FP, "2026-04-01T00:00:00.000Z"),
    ];
    assert_eq!(effective_boundary(&both, EB_FP), effective_boundary(&early, EB_FP));
    assert_ne!(effective_boundary(&both, EB_FP), effective_boundary(&late, EB_FP));
}

#[test]
fn order_and_repetition_do_not_move_the_boundary() {
    let once = vec![
        eb_rev(EB_FP, "2026-06-01T00:00:00.000Z"),
        eb_rev(EB_FP, "2026-04-01T00:00:00.000Z"),
    ];
    let again = vec![
        eb_rev(EB_FP, "2026-04-01T00:00:00.000Z"),
        eb_rev(EB_FP, "2026-04-01T00:00:00.000Z"),
        eb_rev(EB_FP, "2026-06-01T00:00:00.000Z"),
    ];
    assert_eq!(effective_boundary(&once, EB_FP), effective_boundary(&again, EB_FP));
}

#[test]
fn a_revocation_signed_by_its_own_key_is_refused() {
    let rev = eb_rev(EB_FP, PR_COMPROMISED_SINCE);
    assert!(rev.revokes(EB_FP));
    assert!(!rev.revokes(EB_OTHER_FP));
    assert_eq!(
        rev.check_not_self_signed(EB_FP),
        Err(AcdpError::KeyNotAuthorized(AuthorizationFault::SelfSigned(EB_FP.to_string())))
    );
    assert_eq!(rev.check_not_self_signed(EB_OTHER_FP), Ok(()));
}

#[test]
fn the_lenient_self_check_reads_only_the_fingerprint() {
    let own = publish_request_with_metadata(metadata_with("revoked_key_fingerprint", text(EB_FP)));
    assert!(matches!(
        KeyRevocation::check_not_self_signed_lenient(&own, EB_FP),
        Err(AcdpError::KeyNotAuthorized(_))
    ));
    assert_eq!(KeyRevocation::check_not_self_signed_lenient(&own, EB_OTHER_FP), Ok(()));
    let shapeless = publish_request_with_metadata(None);
    assert_eq!(KeyRevocation::check_not_self_signed_lenient(&shapeless, EB_FP), Ok(()));
}

#[test]
fn the_lenient_self_check_of_a_did_key_needs_its_fingerprint() {
    let mut own =
        publish_request_with_metadata(metadata_with("revoked_key_fingerprint", text(EB_FP)));
    assert_eq!(
        KeyRevocation::check_not_self_signed_did_key_lenient(&own, &Some(EB_FP.to_string())),
        Ok(())
    );
    own.signature.key_id = DID_KEY_ID.to_string();
    assert!(matches!(
        KeyRevocation::check_not_self_signed_did_key_lenient(&own, &Some(EB_FP.to_string())),
        Err(AcdpError::KeyNotAuthorized(_))
    ));
    assert_eq!(KeyRevocation::check_not_self_signed_did_key_lenient(&own, &None), Ok(()));
}
