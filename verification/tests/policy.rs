use acdp::error::AcdpError;
use acdp::key_revocation::{KeyRevocation, RevocationTrustClass};
use acdp::policy::{
    DiscoveryFailurePolicy, HistoricalKeyPolicy, ReceiptPolicy, RevocationDiscovery,
    RevocationPolicy, VerificationPolicy,
};
use acdp::time::{Span, Timestamp};
use acdp::types::AgentDid;

#[test]
fn strict_v0_1_0_preserves_v0_1_0_semantics() {
    let strict = VerificationPolicy::strict_v0_1_0();
    assert!(strict.validate_body_schema);
    assert!(strict.allow_unknown_status);
    assert_eq!(strict.receipts, ReceiptPolicy::Ignore);
    assert_eq!(strict.historical_keys, HistoricalKeyPolicy::Reject);
    assert!(
        strict.revocations.known.is_empty(),
        "a consumer pinned to the first version is unaffected by revocations"
    );
    assert_ne!(
        strict,
        VerificationPolicy::default(),
        "the default is receipt-aware; the strict profile is not"
    );
}

#[test]
fn the_default_policy_checks_receipts_that_are_there() {
    let policy = VerificationPolicy::default();
    assert!(policy.validate_body_schema);
    assert!(policy.allow_unknown_status);
    assert_eq!(policy.receipts, ReceiptPolicy::VerifyIfPresent);
    assert_eq!(policy.historical_keys, HistoricalKeyPolicy::AcceptWithReceipt);
    assert_eq!(policy.lineage_head.receipts, ReceiptPolicy::VerifyIfPresent);
    assert_eq!(policy.lineage_head.max_clock_skew_seconds, 120);
    assert_eq!(policy.lineage_head.max_age_seconds, Some(300));
}

#[test]
fn revocation_policy_default_is_unchanged() {
    let policy = RevocationPolicy::default();
    assert!(policy.known.is_empty());
    assert!(policy.discover.is_none());
}

#[test]
fn revocation_policy_new_leaves_discovery_off() {
    let policy = RevocationPolicy::new(vec![]);
    assert!(policy.known.is_empty());
    assert!(policy.discover.is_none());
}

#[test]
fn discovery_is_switched_on_beside_the_known_revocations() {
    let known = KeyRevocation {
        revoked_key_fingerprint: "sha256:aaaa".to_string(),
        compromised_since: Timestamp { secs: 1, nanos: 0 },
        reason: None,
        revoked_key_id: None,
        revoked_key_controller: AgentDid::new("did:web:p"),
        publisher: AgentDid::new("did:web:p"),
        trust_class: RevocationTrustClass::ProducerSigned,
    };
    let policy = RevocationPolicy::new(vec![known.clone()])
        .with_discovery(RevocationDiscovery::all_trust_classes());
    assert_eq!(policy.known, vec![known]);
    assert_eq!(policy.discover, Some(RevocationDiscovery::all_trust_classes()));
}

#[test]
fn discovery_failure_policy_defaults_to_fail_closed() {
    assert_eq!(
        DiscoveryFailurePolicy::default(),
        DiscoveryFailurePolicy::FailClosed
    );
}

#[test]
fn revocation_discovery_constructors_set_the_right_trust_classes() {
    let producer_only = RevocationDiscovery::producer_signed_only();
    assert!(!producer_only.include_registry_attested);
    assert_eq!(producer_only.on_failure, DiscoveryFailurePolicy::FailClosed);
    assert_eq!(producer_only.total_timeout, Span::from_secs(30));

    let all = RevocationDiscovery::all_trust_classes();
    assert!(all.include_registry_attested);
    assert_eq!(all.on_failure, DiscoveryFailurePolicy::FailClosed);
    assert_eq!(all.total_timeout, Span::from_secs(30));
}

/// `RevocationDiscovery` has no `Default`: whoever asks for a search names the
/// classes to search for. The two constructors differ in just that.
#[test]
fn revocation_discovery_has_no_default_by_design() {
    let producer_only = RevocationDiscovery::producer_signed_only();
    let all = RevocationDiscovery::all_trust_classes();
    assert_ne!(producer_only, all);
    assert_eq!(RevocationDiscovery { include_registry_attested: true, ..producer_only }, all);
}

#[test]
fn revocation_discovery_failed_delegates_is_transient_to_source() {
    let transient = AcdpError::RevocationDiscoveryFailed {
        source: Box::new(AcdpError::KeyResolutionUnreachable(
            "did:web host unreachable".to_string(),
        )),
    };
    assert!(
        transient.is_transient(),
        "a transient source must make the wrapper transient too"
    );

    let permanent = AcdpError::RevocationDiscoveryFailed {
        source: Box::new(AcdpError::InvalidSignature("bad signature".to_string())),
    };
    assert!(
        !permanent.is_transient(),
        "a permanent source must make the wrapper permanent too"
    );
}

#[test]
fn a_report_leaves_the_shape_check_to_itself() {
    let mut policy = VerificationPolicy::default();
    policy.receipts = ReceiptPolicy::Require;
    policy.allow_unknown_status = false;
    let derived = policy.derived_for_report();
    assert!(!derived.validate_body_schema);
    assert_eq!(derived.receipts, ReceiptPolicy::Require);
    assert!(!derived.allow_unknown_status);
}
