use acdp::error::{AcdpError, AuthorizationFault};
use acdp::key_revocation::{KeyRevocation, RevocationTrustClass};
use acdp::policy::KeyAuthorization;
use acdp::revocation::{classify_under_revocation, establish_revocation};
use acdp::time::{parse_canonical_ms, Timestamp};
use acdp::types::AgentDid;

fn rev(fp: &str, t: Timestamp) -> KeyRevocation {
    KeyRevocation {
        revoked_key_fingerprint: fp.to_string(),
        compromised_since: t,
        reason: None,
        revoked_key_id: None,
        revoked_key_controller: AgentDid::new("did:web:agents.example.com:p"),
        publisher: AgentDid::new("did:web:agents.example.com:p"),
        trust_class: RevocationTrustClass::ProducerSigned,
    }
}

fn at(s: &str) -> Timestamp {
    parse_canonical_ms(s).unwrap()
}

const F: &str = "sha256:139e3940e64b5491722088d9a0d741628fc826e09475d341a780acde3c4b8070";

#[test]
fn boundary_is_strict() {
    let t = at("2026-05-01T00:00:00.000Z");
    let revs = vec![rev(F, t)];
    assert_eq!(
        classify_under_revocation(&revs, F, Some(at("2026-04-30T23:59:59.999Z"))).unwrap(),
        Some(KeyAuthorization::HistoricallyAuthorizedPreCompromise)
    );
    assert_eq!(
        classify_under_revocation(&revs, F, Some(t)),
        Err(AcdpError::KeyNotAuthorized(AuthorizationFault::AfterBoundary {
            fingerprint: F.to_string(),
            boundary: t,
            created_at: t,
        }))
    );
}

#[test]
fn no_receipt_fails_closed() {
    let t = at("2026-05-01T00:00:00.000Z");
    let revs = vec![rev(F, t)];
    assert_eq!(
        classify_under_revocation(&revs, F, None),
        Err(AcdpError::KeyNotAuthorized(AuthorizationFault::Unplaceable {
            fingerprint: F.to_string(),
            boundary: t,
        }))
    );
}

#[test]
fn unrelated_fingerprint_is_inert() {
    let revs = vec![rev(F, at("2026-05-01T00:00:00.000Z"))];
    let other = "sha256:3097e2dee2cb4a34b53840cdb705aed71067c36f68db0e0f559c3f3fa043315f";
    assert_eq!(classify_under_revocation(&revs, other, None).unwrap(), None);
    assert_eq!(
        classify_under_revocation(&vec![], F, None).unwrap(),
        None,
        "no known revocations: inert"
    );
}

#[test]
fn earliest_boundary_wins() {
    let early = at("2026-04-01T00:00:00.000Z");
    let late = at("2026-05-01T00:00:00.000Z");
    let revs = vec![rev(F, late), rev(F, early)];
    assert!(matches!(
        classify_under_revocation(&revs, F, Some(at("2026-04-15T00:00:00.000Z"))),
        Err(AcdpError::KeyNotAuthorized(_))
    ));
    assert_eq!(
        classify_under_revocation(&revs, F, Some(at("2026-03-01T00:00:00.000Z"))).unwrap(),
        Some(KeyAuthorization::HistoricallyAuthorizedPreCompromise)
    );
}

#[test]
fn pre_compromise_uses_millis() {
    let t = at("2026-05-01T00:00:00.500Z");
    let revs = vec![rev(F, t)];
    let just_before = at("2026-05-01T00:00:00.499Z");
    assert_eq!(
        classify_under_revocation(&revs, F, Some(just_before)).unwrap(),
        Some(KeyAuthorization::HistoricallyAuthorizedPreCompromise)
    );
}

#[test]
fn a_revocation_counts_only_when_another_key_signed_it() {
    let t = at("2026-05-01T00:00:00.000Z");
    assert_eq!(
        establish_revocation(Ok(()), Ok(rev(F, t)), Ok("sha256:other".to_string())),
        Ok(rev(F, t))
    );
    assert_eq!(
        establish_revocation(Ok(()), Ok(rev(F, t)), Ok(F.to_string())),
        Err(AcdpError::KeyNotAuthorized(AuthorizationFault::SelfSigned(F.to_string())))
    );
}

#[test]
fn a_revocation_that_does_not_verify_does_not_count() {
    let t = at("2026-05-01T00:00:00.000Z");
    let bad = AcdpError::InvalidSignature("bad".to_string());
    assert_eq!(
        establish_revocation(Err(bad.clone()), Ok(rev(F, t)), Ok("sha256:other".to_string())),
        Err(bad)
    );
    let unreachable = AcdpError::KeyResolutionUnreachable("host down".to_string());
    assert_eq!(
        establish_revocation(Ok(()), Ok(rev(F, t)), Err(unreachable.clone())),
        Err(unreachable)
    );
}
