use acdp::error::{
    AcdpError, AuthorizationFault, CheckFault, KeyFault, SchemaFault, SupersessionFault,
};
use acdp::key_revocation::{DidChecks, KeyRevocation, RevocationTrustClass, MAX_REASON_CHARS};
use acdp::types::{
    AgentDid, Body, CapabilitiesDocument, ContentHash, ContextType, CtxId, DataRef, EmbeddedCheck,
    Limits, LineageId, PublishRequest, Signature, Visibility,
};
use acdp::validator::{
    advertises_0_5_0_or_higher, assign_identifiers, check_revocation_supersession, identifiers_for,
    is_interim_key_revocation_form, is_well_formed_version, key_revocation_gate_applies,
    key_revocation_retirement_gate_applies, PublishChecks, PublishValidator, ValidatedPublish,
};
use serde_json::Value;

fn test_caps() -> CapabilitiesDocument {
    CapabilitiesDocument {
        acdp_version: "0.1.0".to_string(),
        registry_did: "did:web:registry.example.com".to_string(),
        supported_signature_algorithms: vec!["ed25519".to_string()],
        supported_did_methods: vec!["did:web".to_string()],
        profiles: vec!["acdp-registry-core".to_string()],
        limits: Limits { max_payload_bytes: 1_048_576, max_embedded_bytes: 65_536 },
    }
}

fn caps_of_version(version: &str) -> CapabilitiesDocument {
    let mut caps = test_caps();
    caps.acdp_version = version.to_string();
    caps
}

const TEST_PRODUCER_DID: &str = "did:web:agents.example.com:test-producer";
const STORED_HASH: &str = "sha256:abcd";

fn request_of(agent_did: &str, context_type: ContextType, metadata: Option<Value>) -> PublishRequest {
    PublishRequest {
        agent_id: AgentDid::new(agent_did),
        context_type,
        visibility: Visibility::Public,
        metadata,
        data_refs: vec![],
        supersedes: None,
        content_hash: ContentHash(STORED_HASH.to_string()),
        signature: Signature {
            algorithm: "ed25519".to_string(),
            key_id: format!("{agent_did}#key-1"),
        },
    }
}

fn test_request() -> PublishRequest {
    request_of(TEST_PRODUCER_DID, ContextType::Standard("data_snapshot".to_string()), None)
}

fn no_dids() -> DidChecks {
    DidChecks { controller: Ok(()), signer_fingerprint: None }
}

/// The checks of a request in which the shape is right and the content hash
/// is the stored one.
fn good_checks() -> PublishChecks {
    PublishChecks {
        schema: Ok(()),
        content_hash: Ok(ContentHash(STORED_HASH.to_string())),
        dids: no_dids(),
    }
}

fn validate(caps: &CapabilitiesDocument, req: &PublishRequest) -> Result<ValidatedPublish, AcdpError> {
    PublishValidator::new(caps).validate_post_schema(req, 1024, &good_checks())
}

#[test]
fn happy_path_validates() {
    let caps = test_caps();
    let validated = validate(&caps, &test_request()).unwrap();
    assert_eq!(validated.recomputed_hash, ContentHash(STORED_HASH.to_string()));
}

#[test]
fn the_older_name_validates_alike() {
    let caps = test_caps();
    let v = PublishValidator::new(&caps);
    let req = test_request();
    assert!(v.validate_structural(&req, 1024, &good_checks()).is_ok());
    assert_eq!(
        v.validate_structural(&req, 1_048_577, &good_checks()).unwrap_err(),
        v.validate_post_schema(&req, 1_048_577, &good_checks()).unwrap_err()
    );
}

#[test]
fn a_shape_fault_comes_before_everything_else() {
    let mut caps = test_caps();
    caps.limits.max_payload_bytes = 10;
    let fault = AcdpError::SchemaViolation(SchemaFault::Reported("title missing".to_string()));
    let checks = PublishChecks {
        schema: Err(CheckFault::Schema("title missing".to_string())),
        ..good_checks()
    };
    assert_eq!(
        PublishValidator::new(&caps).validate_post_schema(&test_request(), 1024, &checks).unwrap_err(),
        fault
    );
}

#[test]
fn a_fault_that_a_collaborator_finds_is_the_failure_of_the_request() {
    let caps = test_caps();
    let t = || "t".to_string();
    let faults: Vec<(CheckFault, AcdpError)> = vec![
        (CheckFault::Schema(t()), AcdpError::SchemaViolation(SchemaFault::Reported(t()))),
        (
            CheckFault::HashMismatch { stored: t(), recomputed: t() },
            AcdpError::HashMismatch { stored: t(), recomputed: t() },
        ),
        (
            CheckFault::EmbeddedTooLarge { bytes: 2, limit: 1 },
            AcdpError::EmbeddedTooLarge { bytes: 2, limit: 1 },
        ),
        (CheckFault::KeyResolution(t()), AcdpError::KeyResolution(KeyFault::Reported(t()))),
        (CheckFault::Serialization(t()), AcdpError::Serialization(t())),
        (
            CheckFault::Other { code: t(), message: t(), transient: true },
            AcdpError::Wire { code: t(), message: t(), transient: true },
        ),
    ];
    for (fault, failure) in faults {
        assert_eq!(fault.to_error(), failure);
        let checks = PublishChecks { content_hash: Err(fault), ..good_checks() };
        assert_eq!(
            PublishValidator::new(&caps)
                .validate_post_schema(&test_request(), 1024, &checks)
                .unwrap_err(),
            failure
        );
    }
}

#[test]
fn payload_too_large_rejected() {
    let mut caps = test_caps();
    caps.limits.max_payload_bytes = 10;
    let err = validate(&caps, &test_request()).unwrap_err();
    assert_eq!(
        err,
        AcdpError::SchemaViolation(SchemaFault::PayloadOverLimit { bytes: 1024, limit: 10 })
    );
}

#[test]
fn a_payload_of_exactly_the_limit_passes() {
    let mut caps = test_caps();
    caps.limits.max_payload_bytes = 1024;
    assert!(validate(&caps, &test_request()).is_ok());
}

#[test]
fn unsupported_algorithm_rejected() {
    let mut caps = test_caps();
    caps.supported_signature_algorithms = vec!["secp256k1".to_string()];
    let err = validate(&caps, &test_request()).unwrap_err();
    assert_eq!(
        err,
        AcdpError::SchemaViolation(SchemaFault::UnsupportedAlgorithm("ed25519".to_string()))
    );
}

#[test]
fn an_unsupported_identity_method_is_rejected() {
    let caps = test_caps();
    let mut req = test_request();
    req.agent_id = AgentDid::new("did:key:z6Mk");
    req.signature.key_id = "did:key:z6Mk#z6Mk".to_string();
    assert_eq!(
        validate(&caps, &req).unwrap_err(),
        AcdpError::KeyResolution(KeyFault::UnsupportedMethod("did:key".to_string()))
    );
}

#[test]
fn key_id_without_fragment_rejected() {
    let caps = test_caps();
    let mut req = test_request();
    req.signature.key_id = TEST_PRODUCER_DID.to_string();
    assert_eq!(
        validate(&caps, &req).unwrap_err(),
        AcdpError::KeyResolution(KeyFault::NoFragment(TEST_PRODUCER_DID.to_string()))
    );
}

#[test]
fn key_id_did_must_match_agent_id() {
    let caps = test_caps();
    let mut req = test_request();
    req.signature.key_id = "did:web:other.example.com:attacker#key-1".to_string();
    assert_eq!(
        validate(&caps, &req).unwrap_err(),
        AcdpError::KeyNotAuthorized(AuthorizationFault::ForeignKey {
            did: "did:web:other.example.com:attacker".to_string(),
            agent_id: TEST_PRODUCER_DID.to_string(),
        })
    );
}

#[test]
fn tampered_hash_detected() {
    let caps = test_caps();
    let v = PublishValidator::new(&caps);
    let checks = PublishChecks {
        content_hash: Ok(ContentHash("sha256:ef01".to_string())),
        ..good_checks()
    };
    assert_eq!(
        v.validate_post_schema(&test_request(), 1024, &checks).unwrap_err(),
        AcdpError::HashMismatch {
            stored: STORED_HASH.to_string(),
            recomputed: "sha256:ef01".to_string(),
        }
    );
}

#[test]
fn embedded_data_is_limited_and_hashed() {
    let caps = test_caps();
    let embedded = |decoded: Result<usize, CheckFault>, hash: Result<(), CheckFault>| {
        let mut req = test_request();
        req.data_refs = vec![DataRef {
            location: None,
            content_hash: None,
            embedded: Some(EmbeddedCheck { decoded, hash }),
        }];
        req
    };
    assert!(validate(&caps, &embedded(Ok(65_536), Ok(()))).is_ok());
    assert_eq!(
        validate(&caps, &embedded(Ok(65_537), Ok(()))).unwrap_err(),
        AcdpError::EmbeddedTooLarge { bytes: 65_537, limit: 65_536 }
    );
    let bad = AcdpError::SchemaViolation(SchemaFault::Reported("not base64".to_string()));
    let fault = CheckFault::Schema("not base64".to_string());
    assert_eq!(validate(&caps, &embedded(Err(fault), Ok(()))).unwrap_err(), bad);
    let mismatch =
        AcdpError::HashMismatch { stored: "a".to_string(), recomputed: "b".to_string() };
    let fault =
        CheckFault::HashMismatch { stored: "a".to_string(), recomputed: "b".to_string() };
    assert_eq!(validate(&caps, &embedded(Ok(1), Err(fault))).unwrap_err(), mismatch);
}

fn validated() -> ValidatedPublish {
    ValidatedPublish { recomputed_hash: ContentHash(STORED_HASH.to_string()) }
}

#[test]
fn assign_identifiers_first_version_derives_lineage_from_new_id() {
    let ids = assign_identifiers("registry.example.com", &None, None, &validated()).unwrap();
    assert_eq!(ids.lineage_source, ids.ctx_id);
}

#[test]
fn assign_identifiers_supersession_uses_v1_ctx_id() {
    let v1 = CtxId("acdp://registry.example.com/12345678-1234-4321-8123-123456781234".to_string());
    let supersedes = Some(CtxId(
        "acdp://registry.example.com/12345678-1234-4321-8123-123456781299".to_string(),
    ));
    let ids =
        assign_identifiers("registry.example.com", &supersedes, Some(&v1), &validated()).unwrap();
    assert_eq!(ids.lineage_source, v1);
    assert_ne!(ids.ctx_id, v1);
}

#[test]
fn assign_identifiers_supersession_without_v1_id_rejected() {
    let supersedes = Some(CtxId("acdp://x/y".to_string()));
    let err =
        assign_identifiers("registry.example.com", &supersedes, None, &validated()).unwrap_err();
    assert_eq!(err, AcdpError::SchemaViolation(SchemaFault::FirstVersionUnknown));
}

#[test]
fn an_assigned_identifier_holds_a_fresh_uuid() {
    let one = assign_identifiers("registry.example.com", &None, None, &validated()).unwrap();
    let two = assign_identifiers("registry.example.com", &None, None, &validated()).unwrap();
    assert_ne!(one.ctx_id, two.ctx_id);
    assert_eq!(one.ctx_id.authority(), "registry.example.com");
    let uuid = one.ctx_id.as_str().strip_prefix("acdp://registry.example.com/").unwrap();
    assert_eq!(uuid.len(), 36);
    for (i, c) in uuid.chars().enumerate() {
        match i {
            8 | 13 | 18 | 23 => assert_eq!(c, '-'),
            14 => assert_eq!(c, '4'),
            19 => assert!(matches!(c, '8' | '9' | 'a' | 'b')),
            _ => assert!(c.is_ascii_digit() || ('a'..='f').contains(&c)),
        }
    }
}

#[test]
fn identifiers_are_built_from_the_uuid() {
    let ids = identifiers_for(
        "registry.example.com",
        "12345678-1234-4321-8123-123456781234",
        &None,
        None,
    )
    .unwrap();
    assert_eq!(
        ids.ctx_id.as_str(),
        "acdp://registry.example.com/12345678-1234-4321-8123-123456781234"
    );
}

fn superseding(target: &str) -> PublishRequest {
    let mut req = test_request();
    req.supersedes = Some(CtxId(target.to_string()));
    req
}

#[test]
fn cross_registry_supersession_rejected() {
    let caps = test_caps();
    let v = PublishValidator::for_authority(&caps, "registry.example.com");
    let req = superseding("acdp://other.example.com/12345678-1234-4321-8123-123456781234");
    assert_eq!(
        v.validate_post_schema(&req, 1024, &good_checks()).unwrap_err(),
        AcdpError::SupersededTarget(SupersessionFault::CrossRegistrySupersessionUnsupported {
            target_authority: "other.example.com".to_string(),
            own_authority: "registry.example.com".to_string(),
        })
    );
}

#[test]
fn same_registry_supersession_passes_authority_check() {
    let caps = test_caps();
    let v = PublishValidator::for_authority(&caps, "registry.example.com");
    let req = superseding("acdp://registry.example.com/12345678-1234-4321-8123-123456781234");
    v.validate_post_schema(&req, 1024, &good_checks()).unwrap();
}

#[test]
fn without_an_own_authority_any_target_passes() {
    let caps = test_caps();
    let req = superseding("acdp://other.example.com/12345678-1234-4321-8123-123456781234");
    assert!(validate(&caps, &req).is_ok());
}

#[test]
fn an_own_authority_only_confines_supersession() {
    let caps = test_caps();
    let plain = PublishValidator::new(&caps);
    let confined = PublishValidator::for_authority(&caps, "registry.example.com");
    let own = superseding("acdp://registry.example.com/12345678-1234-4321-8123-123456781234");
    let foreign = superseding("acdp://other.example.com/12345678-1234-4321-8123-123456781234");
    let checks = good_checks();
    for req in [test_request(), own] {
        assert_eq!(
            plain.validate_post_schema(&req, 1024, &checks),
            confined.validate_post_schema(&req, 1024, &checks)
        );
    }
    assert!(plain.validate_post_schema(&foreign, 1024, &checks).is_ok());
    assert!(confined.validate_post_schema(&foreign, 1024, &checks).is_err());
    let refused = plain.validate_post_schema(&foreign, usize::MAX, &checks);
    assert!(matches!(refused, Err(AcdpError::SchemaViolation(_))));
    assert_eq!(refused, confined.validate_post_schema(&foreign, usize::MAX, &checks));
}

const REVOCATION_PRODUCER_DID: &str = "did:web:agents.example.com:test-producer";
const REVOCATION_OTHER_PRODUCER_DID: &str = "did:web:agents.example.com:other-producer";
const REVOCATION_FP: &str =
    "sha256:aaaaaaaaaaaaaaaaaaaaaaaaaaaaaaaaaaaaaaaaaaaaaaaaaaaaaaaaaaaaaaaa";
const REVOCATION_SINCE: &str = "2026-05-01T00:00:00.000Z";
const REGISTRY_DID: &str = "did:web:registry.example.com";

fn text(t: &str) -> Value {
    Value::String(t.to_string())
}

fn metadata(change: impl Fn(&mut serde_json::Map<String, Value>)) -> Option<Value> {
    let mut m = serde_json::Map::new();
    m.insert("revoked_key_fingerprint".to_string(), text(REVOCATION_FP));
    m.insert("compromised_since".to_string(), text(REVOCATION_SINCE));
    change(&mut m);
    Some(Value::Object(m))
}

fn valid_revocation_metadata() -> Option<Value> {
    metadata(|_| {})
}

fn metadata_with(name: &'static str, value: &str) -> Option<Value> {
    metadata(|m| {
        m.insert(name.to_string(), text(value));
    })
}

fn metadata_without(name: &'static str) -> Option<Value> {
    metadata(|m| {
        m.remove(name);
    })
}

fn build_revocation_request(agent_did: &str, metadata: Option<Value>) -> PublishRequest {
    request_of(agent_did, ContextType::KeyRevocation, metadata)
}

fn interim() -> ContextType {
    ContextType::Custom(ContextType::interim_name().to_string())
}

fn schema_fault(r: Result<ValidatedPublish, AcdpError>) -> SchemaFault<String> {
    match r {
        Err(AcdpError::SchemaViolation(f)) => f,
        other => panic!("expected a schema violation, got {other:?}"),
    }
}

#[test]
fn revocation_arm1_absent_controller_accepted_at_0_3_0() {
    let req = build_revocation_request(REVOCATION_PRODUCER_DID, valid_revocation_metadata());
    validate(&caps_of_version("0.3.0"), &req).unwrap();
}

#[test]
fn revocation_arm2_explicit_matching_controller_accepted_at_0_3_0() {
    let meta = metadata_with("revoked_key_controller", REVOCATION_PRODUCER_DID);
    let req = build_revocation_request(REVOCATION_PRODUCER_DID, meta);
    validate(&caps_of_version("0.3.0"), &req).unwrap();
}

#[test]
fn revocation_arm3_registry_attested_accepted_at_0_3_0() {
    let caps = caps_of_version("0.3.0");
    let meta = metadata_with("revoked_key_controller", REVOCATION_PRODUCER_DID);
    let req = build_revocation_request(&caps.registry_did, meta);
    validate(&caps, &req).unwrap();
}

#[test]
fn revocation_arm4_mismatched_controller_rejected_at_0_3_0() {
    let meta = metadata_with("revoked_key_controller", REVOCATION_OTHER_PRODUCER_DID);
    let req = build_revocation_request(REVOCATION_PRODUCER_DID, meta);
    assert_eq!(
        schema_fault(validate(&caps_of_version("0.3.0"), &req)),
        SchemaFault::ForeignController {
            controller: REVOCATION_OTHER_PRODUCER_DID.to_string(),
            agent_id: REVOCATION_PRODUCER_DID.to_string(),
            registry_did: REGISTRY_DID.to_string(),
        }
    );
}

#[test]
fn revocation_arm4_accepted_at_0_2_0_positive_control() {
    let meta = metadata_with("revoked_key_controller", REVOCATION_OTHER_PRODUCER_DID);
    let req = build_revocation_request(REVOCATION_PRODUCER_DID, meta);
    validate(&caps_of_version("0.2.0"), &req).unwrap();
}

#[test]
fn revocation_arm5_absent_controller_under_registry_did_rejected_at_0_3_0() {
    let caps = caps_of_version("0.3.0");
    let req = build_revocation_request(&caps.registry_did, valid_revocation_metadata());
    assert_eq!(
        schema_fault(validate(&caps, &req)),
        SchemaFault::ControllerMissing { registry_did: REGISTRY_DID.to_string() }
    );
}

#[test]
fn revocation_arm5_accepted_at_0_2_0_positive_control() {
    let caps = caps_of_version("0.2.0");
    let req = build_revocation_request(&caps.registry_did, valid_revocation_metadata());
    validate(&caps, &req).unwrap();
}

#[test]
fn revocation_non_public_visibility_rejected_at_0_3_0() {
    let mut req = build_revocation_request(REVOCATION_PRODUCER_DID, valid_revocation_metadata());
    req.visibility = Visibility::Restricted;
    assert_eq!(
        schema_fault(validate(&caps_of_version("0.3.0"), &req)),
        SchemaFault::NotPublic
    );
}

#[test]
fn revocation_non_public_visibility_accepted_at_0_2_0_positive_control() {
    let mut req = build_revocation_request(REVOCATION_PRODUCER_DID, valid_revocation_metadata());
    req.visibility = Visibility::Restricted;
    validate(&caps_of_version("0.2.0"), &req).unwrap();
}

#[test]
fn revocation_missing_fingerprint_rejected_at_0_3_0() {
    let meta = metadata_without("revoked_key_fingerprint");
    let req = build_revocation_request(REVOCATION_PRODUCER_DID, meta);
    let err = validate(&caps_of_version("0.3.0"), &req).unwrap_err();
    assert!(matches!(err, AcdpError::SchemaViolation(_)));
}

#[test]
fn revocation_missing_fingerprint_accepted_at_0_2_0_positive_control() {
    let meta = metadata_without("revoked_key_fingerprint");
    let req = build_revocation_request(REVOCATION_PRODUCER_DID, meta);
    validate(&caps_of_version("0.2.0"), &req).unwrap();
}

#[test]
fn revocation_missing_compromised_since_rejected_at_0_3_0() {
    let meta = metadata_without("compromised_since");
    let req = build_revocation_request(REVOCATION_PRODUCER_DID, meta);
    let err = validate(&caps_of_version("0.3.0"), &req).unwrap_err();
    assert!(matches!(err, AcdpError::SchemaViolation(_)));
}

#[test]
fn revocation_missing_compromised_since_accepted_at_0_2_0_positive_control() {
    let meta = metadata_without("compromised_since");
    let req = build_revocation_request(REVOCATION_PRODUCER_DID, meta);
    validate(&caps_of_version("0.2.0"), &req).unwrap();
}

#[test]
fn revocation_malformed_fingerprint_rejected_at_0_3_0() {
    let meta = metadata_with("revoked_key_fingerprint", "not-a-fingerprint");
    let req = build_revocation_request(REVOCATION_PRODUCER_DID, meta);
    let err = validate(&caps_of_version("0.3.0"), &req).unwrap_err();
    assert!(matches!(err, AcdpError::SchemaViolation(_)));
}

#[test]
fn revocation_malformed_fingerprint_accepted_at_0_2_0_positive_control() {
    let meta = metadata_with("revoked_key_fingerprint", "not-a-fingerprint");
    let req = build_revocation_request(REVOCATION_PRODUCER_DID, meta);
    validate(&caps_of_version("0.2.0"), &req).unwrap();
}

#[test]
fn revocation_non_canonical_compromised_since_rejected_at_0_3_0() {
    let meta = metadata_with("compromised_since", "2026-05-01T00:00:00Z");
    let req = build_revocation_request(REVOCATION_PRODUCER_DID, meta);
    let err = validate(&caps_of_version("0.3.0"), &req).unwrap_err();
    assert!(matches!(err, AcdpError::SchemaViolation(_)));
}

#[test]
fn revocation_non_canonical_compromised_since_accepted_at_0_2_0_positive_control() {
    let meta = metadata_with("compromised_since", "2026-05-01T00:00:00Z");
    let req = build_revocation_request(REVOCATION_PRODUCER_DID, meta);
    validate(&caps_of_version("0.2.0"), &req).unwrap();
}

#[test]
fn revocation_reason_over_limit_rejected_at_0_3_0() {
    let meta = metadata_with("reason", &"x".repeat(MAX_REASON_CHARS + 1));
    let req = build_revocation_request(REVOCATION_PRODUCER_DID, meta);
    let err = validate(&caps_of_version("0.3.0"), &req).unwrap_err();
    assert!(matches!(err, AcdpError::SchemaViolation(_)));
}

#[test]
fn revocation_reason_over_limit_accepted_at_0_2_0_positive_control() {
    let meta = metadata_with("reason", &"x".repeat(MAX_REASON_CHARS + 1));
    let req = build_revocation_request(REVOCATION_PRODUCER_DID, meta);
    validate(&caps_of_version("0.2.0"), &req).unwrap();
}

#[test]
fn revocation_reason_at_exactly_the_limit_accepted_at_0_3_0() {
    let meta = metadata_with("reason", &"x".repeat(MAX_REASON_CHARS));
    let req = build_revocation_request(REVOCATION_PRODUCER_DID, meta);
    validate(&caps_of_version("0.3.0"), &req)
        .expect("a reason of exactly MAX_REASON_CHARS must be accepted, not rejected");
}

#[test]
fn revocation_gate_fails_closed_on_unparseable_acdp_version() {
    let meta = metadata_without("revoked_key_fingerprint");
    let req = build_revocation_request(REVOCATION_PRODUCER_DID, meta);
    let err = validate(&caps_of_version("not-a-version"), &req).unwrap_err();
    assert!(matches!(err, AcdpError::SchemaViolation(_)));
}

#[test]
fn revocation_gate_fails_closed_on_empty_acdp_version() {
    let meta = metadata_without("revoked_key_fingerprint");
    let req = build_revocation_request(REVOCATION_PRODUCER_DID, meta);
    let err = validate(&caps_of_version(""), &req).unwrap_err();
    assert!(matches!(err, AcdpError::SchemaViolation(_)));
}

#[test]
fn non_key_revocation_body_unaffected_by_gate_at_0_3_0() {
    validate(&caps_of_version("0.3.0"), &test_request()).unwrap();
}

#[test]
fn key_revocation_gate_truth_table() {
    let cases: &[(&str, bool)] = &[
        ("0.3x.0", true),
        ("0. 3.0", true),
        ("0.2.0 ", true),
        ("0.2.0;", true),
        ("0.x.1", true),
        ("0.\u{0663}.0", true),
        ("not-a-version", true),
        ("", true),
        ("0.3.0", true),
        ("0.4.0", true),
        ("1.0.0", true),
        ("0.2.9", false),
        ("0.2.0", false),
    ];
    for (input, expected) in cases {
        assert_eq!(
            key_revocation_gate_applies(input),
            *expected,
            "input {input:?} should gate {}",
            if *expected { "ON" } else { "OFF" }
        );
    }
}

#[test]
fn a_malformed_version_turns_gates_on_but_is_no_later_version() {
    for v in ["", "0.5", "0.5.0.0", "v0.5.0", "0..0", "99999999999999999999.0.0x"] {
        assert!(!is_well_formed_version(v), "{v:?}");
        assert!(key_revocation_gate_applies(v));
        assert!(key_revocation_retirement_gate_applies(v));
        assert!(!advertises_0_5_0_or_higher(v));
    }
    for (v, later) in [("0.4.99", false), ("0.5.0", true), ("0.10.0", true), ("1.0.0", true)] {
        assert!(is_well_formed_version(v));
        assert_eq!(key_revocation_retirement_gate_applies(v), later);
        assert_eq!(advertises_0_5_0_or_higher(v), later);
    }
}

#[test]
fn only_the_interim_spelling_is_the_interim_form() {
    assert!(is_interim_key_revocation_form(&interim()));
    assert!(!is_interim_key_revocation_form(&ContextType::KeyRevocation));
    assert!(!is_interim_key_revocation_form(&ContextType::Standard(
        "acdp:key-revocation".to_string()
    )));
    assert!(!is_interim_key_revocation_form(&ContextType::Custom("acme:other".to_string())));
}

#[test]
fn revocation_interim_custom_type_valid_body_accepted_at_0_3_0() {
    let req = request_of(REVOCATION_PRODUCER_DID, interim(), valid_revocation_metadata());
    validate(&caps_of_version("0.3.0"), &req).unwrap();
}

#[test]
fn revocation_interim_custom_type_violation_rejected_at_0_3_0() {
    let meta = metadata_without("revoked_key_fingerprint");
    let req = request_of(REVOCATION_PRODUCER_DID, interim(), meta);
    let err = validate(&caps_of_version("0.3.0"), &req).unwrap_err();
    assert!(matches!(err, AcdpError::SchemaViolation(_)));
}

#[test]
fn revocation_interim_custom_type_rejected_unconditionally_at_0_5_0() {
    let req = request_of(REVOCATION_PRODUCER_DID, interim(), valid_revocation_metadata());
    assert_eq!(
        schema_fault(validate(&caps_of_version("0.5.0"), &req)),
        SchemaFault::InterimFormRetired
    );
}

#[test]
fn revocation_interim_custom_type_rejected_with_supersedes_at_0_5_0() {
    let mut req = request_of(REVOCATION_PRODUCER_DID, interim(), valid_revocation_metadata());
    req.supersedes = Some(CtxId(
        "acdp://registry.example.com/00000000-0000-4000-8000-000000000002".to_string(),
    ));
    assert_eq!(
        schema_fault(validate(&caps_of_version("0.5.0"), &req)),
        SchemaFault::InterimFormRetired
    );
}

#[test]
fn revocation_standard_type_still_accepted_at_0_5_0() {
    let req = build_revocation_request(REVOCATION_PRODUCER_DID, valid_revocation_metadata());
    validate(&caps_of_version("0.5.0"), &req).expect(
        "the standard key-revocation type is not retired, only the interim spelling is",
    );
}

const PREV_CTX_ID: &str = "acdp://registry.example.com/00000000-0000-4000-8000-000000000001";

fn body_from_request(req: PublishRequest) -> Body {
    Body {
        ctx_id: CtxId(PREV_CTX_ID.to_string()),
        lineage_id: LineageId(format!("lin:sha256:{}", "0".repeat(64))),
        version: 1,
        agent_id: req.agent_id,
        context_type: req.context_type,
        visibility: req.visibility,
        metadata: req.metadata,
        data_refs: req.data_refs,
        derived_from: vec![],
        content_hash: req.content_hash,
        signature: req.signature,
    }
}

fn supersede(prev: PublishRequest, req: &PublishRequest, version: &str) -> Result<(), AcdpError> {
    check_revocation_supersession(&body_from_request(prev), &no_dids(), req, &no_dids(), version)
}

#[test]
fn revocation_supersession_same_class_allowed_t_earlier() {
    let prev = build_revocation_request(REVOCATION_PRODUCER_DID, valid_revocation_metadata());
    let req = build_revocation_request(
        REVOCATION_PRODUCER_DID,
        metadata_with("compromised_since", "2026-04-01T00:00:00.000Z"),
    );
    supersede(prev, &req, "0.3.0")
        .expect("same signer class supersession must be allowed regardless of T direction");
}

#[test]
fn revocation_supersession_different_class_rejected() {
    let prev = build_revocation_request(REVOCATION_PRODUCER_DID, valid_revocation_metadata());
    let req = build_revocation_request(
        REGISTRY_DID,
        metadata_with("revoked_key_controller", REVOCATION_PRODUCER_DID),
    );
    assert_eq!(
        supersede(prev, &req, "0.3.0"),
        Err(AcdpError::SchemaViolation(SchemaFault::ClassChanged {
            ctx_id: PREV_CTX_ID.to_string(),
            class: RevocationTrustClass::ProducerSigned,
            agent_id: REGISTRY_DID.to_string(),
            incoming_class: RevocationTrustClass::RegistryAttested,
        }))
    );
}

#[test]
fn revocation_superseded_by_non_revocation_rejected() {
    let prev = build_revocation_request(REVOCATION_PRODUCER_DID, valid_revocation_metadata());
    let err = supersede(prev, &test_request(), "0.3.0").unwrap_err();
    assert!(matches!(err, AcdpError::SchemaViolation(_)));
}

#[test]
fn revocation_superseded_by_non_revocation_rejected_as_revocation_type_mismatch_at_0_5_0() {
    let prev = build_revocation_request(REVOCATION_PRODUCER_DID, valid_revocation_metadata());
    assert_eq!(
        supersede(prev, &test_request(), "0.5.0"),
        Err(AcdpError::SupersededTarget(SupersessionFault::RevocationTypeMismatch {
            ctx_id: PREV_CTX_ID.to_string(),
            agent_id: TEST_PRODUCER_DID.to_string(),
            context_type: "data_snapshot".to_string(),
        }))
    );
}

#[test]
fn revocation_superseded_by_non_revocation_still_schema_violation_below_0_5_0() {
    let prev = build_revocation_request(REVOCATION_PRODUCER_DID, valid_revocation_metadata());
    assert_eq!(
        supersede(prev, &test_request(), "0.4.9"),
        Err(AcdpError::SchemaViolation(SchemaFault::SupersededByOtherType {
            ctx_id: PREV_CTX_ID.to_string(),
            agent_id: TEST_PRODUCER_DID.to_string(),
            context_type: "data_snapshot".to_string(),
        }))
    );
}

#[test]
fn revocation_superseded_by_non_revocation_rejected_as_revocation_type_mismatch_interim_predecessor_at_0_5_0(
) {
    let prev = request_of(REVOCATION_PRODUCER_DID, interim(), valid_revocation_metadata());
    let err = supersede(prev, &test_request(), "0.5.0").unwrap_err();
    assert!(
        matches!(
            err,
            AcdpError::SupersededTarget(SupersessionFault::RevocationTypeMismatch { .. })
        ),
        "an interim-typed predecessor must trigger the same rejection as a \
         standard-typed one, got {err:?}"
    );
}

#[test]
fn revocation_supersession_same_class_allowed_at_0_5_0() {
    let prev = build_revocation_request(REVOCATION_PRODUCER_DID, valid_revocation_metadata());
    let req = build_revocation_request(
        REVOCATION_PRODUCER_DID,
        metadata_with("compromised_since", "2026-04-01T00:00:00.000Z"),
    );
    supersede(prev, &req, "0.5.0")
        .expect("a same-class key-revocation supersession must still be allowed at 0.5.0");
}

#[test]
fn non_revocation_predecessor_superseded_by_revocation_allowed() {
    let req = build_revocation_request(REVOCATION_PRODUCER_DID, valid_revocation_metadata());
    supersede(test_request(), &req, "0.3.0")
        .expect("a predecessor that is no revocation is out of scope");
}

#[test]
fn revocation_supersession_same_class_narrowing_t_allowed_at_publish() {
    let prev = build_revocation_request(
        REVOCATION_PRODUCER_DID,
        metadata_with("compromised_since", "2026-05-01T00:00:00.000Z"),
    );
    let req = build_revocation_request(
        REVOCATION_PRODUCER_DID,
        metadata_with("compromised_since", "2026-06-01T00:00:00.000Z"),
    );
    supersede(prev, &req, "0.3.0")
        .expect("narrowing the compromise window is allowed at publish time");
}

#[test]
fn revocation_supersession_malformed_predecessor_skips_class_comparison() {
    let prev = body_from_request(build_revocation_request(REVOCATION_PRODUCER_DID, None));
    assert!(
        KeyRevocation::from_body(&prev, &no_dids()).is_err(),
        "fixture must actually fail from_body, or this test proves nothing"
    );
    let req = build_revocation_request(REVOCATION_OTHER_PRODUCER_DID, valid_revocation_metadata());
    check_revocation_supersession(&prev, &no_dids(), &req, &no_dids(), "0.3.0").expect(
        "a malformed predecessor skips the class comparison but a \
         well-formed key-revocation successor is still allowed",
    );
}

#[test]
fn revocation_supersession_malformed_predecessor_still_blocks_non_revocation_successor() {
    let prev = body_from_request(build_revocation_request(REVOCATION_PRODUCER_DID, None));
    assert!(
        KeyRevocation::from_body(&prev, &no_dids()).is_err(),
        "fixture must actually fail from_body, or this test proves nothing"
    );
    let err =
        check_revocation_supersession(&prev, &no_dids(), &test_request(), &no_dids(), "0.3.0")
            .unwrap_err();
    assert!(
        matches!(err, AcdpError::SchemaViolation(_)),
        "the type rule must still reject a non-revocation successor"
    );
}

#[test]
fn revocation_supersession_same_did_class_flip_rejected() {
    let caps = caps_of_version("0.3.0");
    let v = PublishValidator::new(&caps);

    let prev_req = build_revocation_request(
        &caps.registry_did,
        metadata_with("revoked_key_controller", REGISTRY_DID),
    );
    let prev_revocation = KeyRevocation::from_publish_request(&prev_req, &no_dids()).unwrap();
    assert_eq!(prev_revocation.trust_class, RevocationTrustClass::ProducerSigned);
    v.check_revocation_controller(&prev_req, &prev_revocation)
        .expect("PREV fixture must be a legitimately publishable revocation");

    let req = build_revocation_request(
        &caps.registry_did,
        metadata_with("revoked_key_controller", REVOCATION_PRODUCER_DID),
    );
    let in_revocation = KeyRevocation::from_publish_request(&req, &no_dids()).unwrap();
    assert_eq!(in_revocation.trust_class, RevocationTrustClass::RegistryAttested);
    v.check_revocation_controller(&req, &in_revocation)
        .expect("IN fixture must be a legitimately publishable revocation");

    let err = supersede(prev_req, &req, "0.3.0").unwrap_err();
    assert!(
        matches!(err, AcdpError::SchemaViolation(_)),
        "same agent_id on both sides must NOT be enough to allow this supersession"
    );
}

#[test]
fn revocation_supersession_cross_did_same_class_allowed() {
    let prev = build_revocation_request(REVOCATION_PRODUCER_DID, valid_revocation_metadata());
    let req = build_revocation_request(REVOCATION_OTHER_PRODUCER_DID, valid_revocation_metadata());
    supersede(prev, &req, "0.3.0")
        .expect("cross-DID, same signer class must be allowed: the criterion is class, not DID");
}
