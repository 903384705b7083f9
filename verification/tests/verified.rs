use acdp::error::{
    AcdpError, AuthorizationFault, CheckFault, ReceiptFault, ResolutionFault, SchemaFault,
};
use acdp::key_revocation::{KeyRevocation, RevocationTrustClass};
use acdp::policy::{
    DiscoveryFailurePolicy, DiscoveryOutcome, HistoricalKeyPolicy, KeyAuthorization, ReceiptPolicy,
    RevocationDiscovery, RevocationPolicy, VerificationPolicy,
};
use acdp::report::{
    all_probes_pass, fetch_report_diagnose, fetch_report_inner, probe, wants_fetch,
    DiagnosticProbes,
};
use acdp::time::{parse_canonical_ms, Span, Timestamp};
use acdp::types::{
    AgentDid, Body, ContentHash, ContextType, CtxId, DataRef, EmbeddedCheck, FullContext,
    LineageHeadReceipt, LineageId, RegistryReceipt, RegistryState, Signature, Status, Visibility,
};
use acdp::verified::{
    verify_retrieved, DiscoveryRun, KeyUse, Progress, Retrieval, RetrievalAction, RetrievalEvent,
    RetrievalEvidence, VerifiedContext,
};
use serde_json::Value;

const CTX: &str = "acdp://registry.example.com/00000000-0000-4000-8000-000000000001";
const KEY: &str = "sha256:139e3940e64b5491722088d9a0d741628fc826e09475d341a780acde3c4b8070";
const PRODUCER: &str = "did:web:agents.example.com:p";

fn at(t: &str) -> Timestamp {
    parse_canonical_ms(t).unwrap()
}

fn ctx_id() -> CtxId {
    CtxId(CTX.to_string())
}

fn context() -> FullContext {
    FullContext {
        body: Body {
            ctx_id: ctx_id(),
            lineage_id: LineageId("lin:sha256:0".to_string()),
            version: 1,
            agent_id: AgentDid::new(PRODUCER),
            context_type: ContextType::Standard("data_snapshot".to_string()),
            visibility: Visibility::Public,
            metadata: None,
            data_refs: vec![],
            derived_from: vec![],
            content_hash: ContentHash("sha256:0".to_string()),
            signature: Signature {
                algorithm: "ed25519".to_string(),
                key_id: format!("{PRODUCER}#key-1"),
            },
        },
        registry_state: RegistryState { status: Status::Active },
        registry_receipt: None,
        lineage_head_receipt: None,
    }
}

fn receipted() -> FullContext {
    FullContext { registry_receipt: Some(Value::Bool(true)), ..context() }
}

fn receipt() -> RegistryReceipt {
    RegistryReceipt {
        created_at: at("2026-04-15T00:00:00.000Z"),
        key_fingerprint: KEY.to_string(),
    }
}

fn evidence() -> RetrievalEvidence {
    RetrievalEvidence {
        schema: Ok(()),
        hash: Ok(()),
        receipt_key: Ok(KEY.to_string()),
        receipt: Ok(receipt()),
        discovery: DiscoveryRun::Completed { producer_signed: vec![], registry_attested: vec![] },
        facts: vec![],
        revocation_key: Ok(KEY.to_string()),
        signature: Ok(()),
        historical: Ok(()),
    }
}

fn rotated_out() -> AcdpError {
    AcdpError::KeyNotAuthorized(AuthorizationFault::Reported("not in assertionMethod".to_string()))
}

fn revocation(fp: &str, since: &str, class: RevocationTrustClass) -> KeyRevocation {
    KeyRevocation {
        revoked_key_fingerprint: fp.to_string(),
        compromised_since: at(since),
        reason: None,
        revoked_key_id: None,
        revoked_key_controller: AgentDid::new(PRODUCER),
        publisher: AgentDid::new(PRODUCER),
        trust_class: class,
    }
}

fn verify(
    ctx: FullContext,
    policy: &VerificationPolicy,
    evidence: &RetrievalEvidence,
) -> Result<VerifiedContext, AcdpError> {
    verify_retrieved(ctx, ctx_id(), policy, Some("registry.example.com".to_string()), evidence)
}

#[test]
fn a_good_context_verifies_as_currently_authorized() {
    let v = verify(context(), &VerificationPolicy::default(), &evidence()).unwrap();
    assert_eq!(v.key_status(), KeyAuthorization::CurrentlyAuthorized);
    assert_eq!(v.verified_receipt(), None);
    assert_eq!(v.revocation_discovery(), None);
    assert_eq!(v.body().ctx_id, ctx_id());
    assert!(matches!(v.registry_state().status, Status::Active));
    assert!(v.receipt().is_none());
    assert!(v.lineage_head_receipt().is_none());
    assert_eq!(v.full_context().body.version, 1);
}

#[test]
fn another_context_than_the_one_requested_is_refused() {
    let mut ctx = context();
    ctx.body.ctx_id = CtxId("acdp://registry.example.com/other".to_string());
    assert_eq!(
        verify(ctx, &VerificationPolicy::default(), &evidence()).unwrap_err(),
        AcdpError::ContextIdMismatch {
            requested: CTX.to_string(),
            served: "acdp://registry.example.com/other".to_string(),
        }
    );
}

#[test]
fn nothing_is_asked_for_about_another_context_than_the_one_requested() {
    for policy in [VerificationPolicy::default(), VerificationPolicy::strict_v0_1_0()] {
        let mut served = context();
        served.body.ctx_id = CtxId("acdp://registry.example.com/other".to_string());
        assert!(matches!(
            Retrieval::start(served, ctx_id(), &policy, None),
            Progress::Finished(Err(AcdpError::ContextIdMismatch { .. }))
        ));
    }
}

#[test]
fn each_check_is_asked_for_in_order_and_its_failure_ends_the_verification() {
    let policy = VerificationPolicy::default();
    let mut asked = vec![];
    let known = evidence();
    let mut progress = Retrieval::start(receipted(), ctx_id(), &policy, None);
    loop {
        match progress {
            Progress::Finished(r) => {
                assert!(r.is_ok());
                break;
            }
            Progress::Pending(r) => {
                let action = r.action();
                let event = known.event(&action);
                asked.push(action);
                progress = r.advance(event);
            }
        }
    }
    assert_eq!(
        asked,
        vec![
            RetrievalAction::ValidateBody,
            RetrievalAction::VerifyBodyHash,
            RetrievalAction::FingerprintSigningKey(KeyUse::Receipt),
            RetrievalAction::VerifyReceipt {
                fingerprint: KEY.to_string(),
                serving_authority: "registry.example.com".to_string(),
            },
            RetrievalAction::VerifySignature,
        ]
    );
    let fault = || AcdpError::Http("down".to_string());
    for bad in [
        RetrievalEvidence { schema: Err(fault()), ..evidence() },
        RetrievalEvidence { hash: Err(fault()), ..evidence() },
        RetrievalEvidence { receipt_key: Err(fault()), ..evidence() },
        RetrievalEvidence { receipt: Err(fault()), ..evidence() },
        RetrievalEvidence { signature: Err(fault()), ..evidence() },
    ] {
        assert_eq!(verify(receipted(), &policy, &bad).unwrap_err(), fault());
    }
}

#[test]
fn an_answer_is_taken_as_it_comes() {
    let policy = VerificationPolicy { validate_body_schema: false, ..Default::default() };
    let start = Retrieval::start(context(), ctx_id(), &policy, None);
    let Progress::Pending(r) = start else { panic!("nothing was asked") };
    assert_eq!(r.action(), RetrievalAction::VerifyBodyHash);
    assert_eq!(r.context().body.ctx_id, ctx_id());
    let Progress::Finished(Err(e)) =
        r.advance(RetrievalEvent::Checked(Err(AcdpError::Http("down".to_string()))))
    else {
        panic!("not finished")
    };
    assert_eq!(e, AcdpError::Http("down".to_string()));
}

#[test]
fn receipts_count_as_the_policy_says() {
    let require = VerificationPolicy { receipts: ReceiptPolicy::Require, ..Default::default() };
    assert_eq!(
        verify(context(), &require, &evidence()).unwrap_err(),
        AcdpError::InvalidReceipt(ReceiptFault::RegistryReceiptRequired)
    );
    assert_eq!(
        verify(receipted(), &require, &evidence()).unwrap().verified_receipt(),
        Some(&receipt())
    );
    let strict = VerificationPolicy::strict_v0_1_0();
    let bad = RetrievalEvidence { receipt: Err(rotated_out()), ..evidence() };
    assert_eq!(verify(receipted(), &strict, &bad).unwrap().verified_receipt(), None);
}

#[test]
fn a_key_that_was_rotated_out_needs_a_receipt() {
    let rotated = RetrievalEvidence { signature: Err(rotated_out()), ..evidence() };
    let policy = VerificationPolicy::default();
    let v = verify(receipted(), &policy, &rotated).unwrap();
    assert_eq!(v.key_status(), KeyAuthorization::HistoricallyAuthorized);
    assert_eq!(verify(context(), &policy, &rotated).unwrap_err(), rotated_out());
    let reject =
        VerificationPolicy { historical_keys: HistoricalKeyPolicy::Reject, ..Default::default() };
    assert_eq!(verify(receipted(), &reject, &rotated).unwrap_err(), rotated_out());
    let forged = AcdpError::InvalidSignature("bad".to_string());
    let bad = RetrievalEvidence { signature: Err(forged.clone()), ..evidence() };
    assert_eq!(verify(receipted(), &policy, &bad).unwrap_err(), forged);
}

fn knowing(known: Vec<KeyRevocation>) -> VerificationPolicy {
    VerificationPolicy { revocations: RevocationPolicy::new(known), ..Default::default() }
}

#[test]
fn a_revoked_key_verifies_only_before_its_boundary() {
    let class = RevocationTrustClass::ProducerSigned;
    let later = knowing(vec![revocation(KEY, "2026-05-01T00:00:00.000Z", class)]);
    let v = verify(receipted(), &later, &evidence()).unwrap();
    assert_eq!(v.key_status(), KeyAuthorization::HistoricallyAuthorizedPreCompromise);

    let earlier = knowing(vec![revocation(KEY, "2026-04-01T00:00:00.000Z", class)]);
    assert_eq!(
        verify(receipted(), &earlier, &evidence()).unwrap_err(),
        AcdpError::KeyNotAuthorized(AuthorizationFault::AfterBoundary {
            fingerprint: KEY.to_string(),
            boundary: at("2026-04-01T00:00:00.000Z"),
            created_at: at("2026-04-15T00:00:00.000Z"),
        })
    );
    assert_eq!(
        verify(context(), &later, &evidence()).unwrap_err(),
        AcdpError::KeyNotAuthorized(AuthorizationFault::Unplaceable {
            fingerprint: KEY.to_string(),
            boundary: at("2026-05-01T00:00:00.000Z"),
        })
    );
    let other = knowing(vec![revocation("sha256:other", "2026-04-01T00:00:00.000Z", class)]);
    assert_eq!(
        verify(context(), &other, &evidence()).unwrap().key_status(),
        KeyAuthorization::CurrentlyAuthorized
    );
}

fn discovering(d: RevocationDiscovery) -> VerificationPolicy {
    VerificationPolicy {
        revocations: RevocationPolicy::new(vec![]).with_discovery(d),
        ..Default::default()
    }
}

#[test]
fn what_a_search_finds_counts_like_what_is_known() {
    let producer = RevocationTrustClass::ProducerSigned;
    let attested = RevocationTrustClass::RegistryAttested;
    let found = RetrievalEvidence {
        discovery: DiscoveryRun::Completed {
            producer_signed: vec![revocation(KEY, "2026-05-01T00:00:00.000Z", producer)],
            registry_attested: vec![revocation(KEY, "2026-04-01T00:00:00.000Z", attested)],
        },
        ..evidence()
    };
    let producer_only = discovering(RevocationDiscovery::producer_signed_only());
    let v = verify(receipted(), &producer_only, &found).unwrap();
    assert_eq!(v.key_status(), KeyAuthorization::HistoricallyAuthorizedPreCompromise);
    assert_eq!(
        v.revocation_discovery(),
        Some(Ok(DiscoveryOutcome { producer_signed: 1, registry_attested: None }))
    );
    let all = discovering(RevocationDiscovery::all_trust_classes());
    assert!(matches!(
        verify(receipted(), &all, &found).unwrap_err(),
        AcdpError::KeyNotAuthorized(AuthorizationFault::AfterBoundary { .. })
    ));
    let nothing = verify(receipted(), &all, &evidence()).unwrap();
    assert_eq!(
        nothing.revocation_discovery(),
        Some(Ok(DiscoveryOutcome { producer_signed: 0, registry_attested: Some(0) }))
    );
}

#[test]
fn what_the_cache_remembers_counts_even_if_the_search_finds_nothing() {
    let class = RevocationTrustClass::ProducerSigned;
    let remembered = RetrievalEvidence {
        facts: vec![revocation(KEY, "2026-04-01T00:00:00.000Z", class)],
        ..evidence()
    };
    let policy = discovering(RevocationDiscovery::producer_signed_only());
    assert!(matches!(
        verify(receipted(), &policy, &remembered).unwrap_err(),
        AcdpError::KeyNotAuthorized(AuthorizationFault::AfterBoundary { .. })
    ));
}

#[test]
fn a_failed_search_is_never_silent() {
    let down = AcdpError::Http("down".to_string());
    let failed = RetrievalEvidence { discovery: DiscoveryRun::Failed(down.clone()), ..evidence() };
    let wrapped = AcdpError::RevocationDiscoveryFailed { source: Box::new(down) };
    let closed = discovering(RevocationDiscovery::producer_signed_only());
    assert_eq!(verify(context(), &closed, &failed).unwrap_err(), wrapped);

    let open = discovering(RevocationDiscovery {
        on_failure: DiscoveryFailurePolicy::ProceedWithKnown,
        ..RevocationDiscovery::producer_signed_only()
    });
    let v = verify(context(), &open, &failed).unwrap();
    assert_eq!(v.revocation_discovery_failure(), Some(&wrapped));
    assert_eq!(v.revocation_discovery(), Some(Err(wrapped)));

    let slow = RetrievalEvidence { discovery: DiscoveryRun::TimedOut, ..evidence() };
    assert_eq!(
        verify(context(), &closed, &slow).unwrap_err(),
        AcdpError::RevocationDiscoveryFailed {
            source: Box::new(AcdpError::CrossRegistryResolutionFailed(
                ResolutionFault::DiscoveryTimeout { allowed: Span::from_secs(30) }
            ))
        }
    );
}

#[test]
fn an_unknown_status_counts_as_the_policy_says() {
    let odd = || FullContext {
        registry_state: RegistryState { status: Status::Other("frozen".to_string()) },
        ..context()
    };
    assert!(verify(odd(), &VerificationPolicy::default(), &evidence()).is_ok());
    let policy = VerificationPolicy { allow_unknown_status: false, ..Default::default() };
    assert_eq!(
        verify(odd(), &policy, &evidence()).unwrap_err(),
        AcdpError::SchemaViolation(SchemaFault::UnknownStatus("frozen".to_string()))
    );
}

/// Every way to have a context verified comes to the same end under the same
/// policy, whatever the policy says of receipts, revocations, past keys and
/// unknown statuses.
#[test]
fn verify_retrieved_is_sole_reader_of_authorization_policy_fields() {
    let class = RevocationTrustClass::ProducerSigned;
    let policies = || {
        vec![
            VerificationPolicy::default(),
            VerificationPolicy::strict_v0_1_0(),
            VerificationPolicy { receipts: ReceiptPolicy::Require, ..Default::default() },
            VerificationPolicy {
                historical_keys: HistoricalKeyPolicy::Reject,
                ..Default::default()
            },
            VerificationPolicy { allow_unknown_status: false, ..Default::default() },
            knowing(vec![revocation(KEY, "2026-05-01T00:00:00.000Z", class)]),
            knowing(vec![revocation(KEY, "2026-04-01T00:00:00.000Z", class)]),
            discovering(RevocationDiscovery::all_trust_classes()),
        ]
    };
    let contexts = || {
        vec![
            context(),
            receipted(),
            FullContext {
                registry_state: RegistryState { status: Status::Other("frozen".to_string()) },
                ..receipted()
            },
        ]
    };
    let answers = || {
        vec![
            evidence(),
            RetrievalEvidence { signature: Err(rotated_out()), ..evidence() },
            RetrievalEvidence {
                discovery: DiscoveryRun::Failed(AcdpError::Http("down".to_string())),
                ..evidence()
            },
        ]
    };
    let status = |r: Result<VerifiedContext, AcdpError>| r.map(|v| v.key_status());
    let mut verified = 0;
    let mut refused = 0;
    for policy in policies() {
        for known in answers() {
            for k in 0..contexts().len() {
                let ctx = || contexts().remove(k);
                let authority = || Some("registry.example.com".to_string());
                let expected = status(verify(ctx(), &policy, &known));
                match &expected {
                    Ok(_) => verified += 1,
                    Err(_) => refused += 1,
                }
                assert_eq!(
                    status(VerifiedContext::fetch_with_policy(
                        Ok(ctx()),
                        ctx_id(),
                        &policy,
                        authority(),
                        &known,
                    )),
                    expected
                );
                assert_eq!(
                    status(VerifiedContext::fetch_current_with_policy(
                        Ok(ctx()),
                        &policy,
                        authority(),
                        &known,
                        Ok("did:web:registry.example.com".to_string()),
                        Err(AcdpError::Http("unused".to_string())),
                        at("2026-04-16T00:00:00.000Z"),
                    )),
                    expected
                );
                let report = fetch_report_inner(
                    ctx(),
                    ctx_id(),
                    &policy,
                    authority(),
                    Ok(()),
                    &known,
                    false,
                    &vec![],
                );
                assert_eq!(report.map(|(v, _)| v.key_status()), expected);
                let probes = DiagnosticProbes {
                    structural: Ok(()),
                    hash: Ok(()),
                    signature: known.signature.clone(),
                };
                let (found, diagnosis) = fetch_report_diagnose(
                    ctx(),
                    ctx_id(),
                    &policy,
                    authority(),
                    &probes,
                    &known,
                );
                if probes.signature.is_ok() {
                    assert_eq!(found.map(|v| v.key_status()), expected.clone().ok());
                    assert_eq!(diagnosis.policy_phase_error, expected.err());
                } else {
                    assert!(found.is_none());
                    assert!(!diagnosis.signature_ok);
                }
            }
        }
    }
    assert!(verified > 0);
    assert!(refused > 0);
}

fn headed() -> FullContext {
    FullContext { lineage_head_receipt: Some(Value::Bool(true)), ..context() }
}

fn current(
    ctx: FullContext,
    policy: &VerificationPolicy,
    receipt: Result<LineageHeadReceipt, AcdpError>,
    now: &str,
) -> Result<VerifiedContext, AcdpError> {
    VerifiedContext::fetch_current_with_policy(
        Ok(ctx),
        policy,
        Some("registry.example.com".to_string()),
        &evidence(),
        Ok("did:web:registry.example.com".to_string()),
        receipt,
        at(now),
    )
}

fn head() -> LineageHeadReceipt {
    LineageHeadReceipt { as_of: at("2026-05-01T00:00:00.000Z") }
}

#[test]
fn the_receipt_for_the_head_of_a_lineage_grows_stale() {
    let policy = VerificationPolicy::default();
    let fresh = current(headed(), &policy, Ok(head()), "2026-05-01T00:05:00.000Z").unwrap();
    assert_eq!(fresh.verified_head_receipt(), Some(&head()));
    assert_eq!(fresh.head_receipt_stale(), Some(false));
    let stale = current(headed(), &policy, Ok(head()), "2026-05-01T00:05:00.001Z").unwrap();
    assert_eq!(stale.head_receipt_stale(), Some(true));
    let absent = current(context(), &policy, Ok(head()), "2026-05-01T00:05:00.000Z").unwrap();
    assert_eq!(absent.verified_head_receipt(), None);
    assert_eq!(absent.head_receipt_stale(), None);
}

#[test]
fn a_required_receipt_for_the_head_must_be_there_and_verify() {
    let mut policy = VerificationPolicy::default();
    policy.lineage_head.receipts = ReceiptPolicy::Require;
    let now = "2026-05-01T00:00:00.000Z";
    assert_eq!(
        current(context(), &policy, Ok(head()), now).unwrap_err(),
        AcdpError::InvalidReceipt(ReceiptFault::HeadReceiptRequired)
    );
    let bad = AcdpError::InvalidReceipt(ReceiptFault::Reported("wrong head".to_string()));
    assert_eq!(current(headed(), &policy, Err(bad.clone()), now).unwrap_err(), bad);
}

#[test]
fn a_head_receipt_must_name_this_context() {
    let v = verify(headed(), &VerificationPolicy::default(), &evidence()).unwrap();
    let check = v.head_receipt_check(
        &LineageId("lin:sha256:1".to_string()),
        &None,
        "did:web:registry.example.com",
        &VerificationPolicy::default(),
    );
    assert_eq!(check.lineage_id, LineageId("lin:sha256:1".to_string()));
    assert_eq!(check.ctx_id, ctx_id());
    assert_eq!(check.version, 1);
    assert_eq!(check.status, Status::Active);
    assert_eq!(check.serving_authority, "registry.example.com");
    assert_eq!(check.registry_did, "did:web:registry.example.com");
    assert_eq!(check.max_clock_skew_seconds, 120);
}

#[test]
fn a_receipt_can_be_verified_afterwards() {
    let strict = VerificationPolicy::strict_v0_1_0();
    let v = verify(receipted(), &strict, &evidence()).unwrap();
    assert_eq!(v.verify_receipt(Ok(KEY.to_string()), Ok(receipt())), Ok(Some(receipt())));
    assert_eq!(
        v.receipt_check(KEY.to_string()),
        RetrievalAction::VerifyReceipt {
            fingerprint: KEY.to_string(),
            serving_authority: "registry.example.com".to_string(),
        }
    );
    assert_eq!(v.verify_receipt(Err(rotated_out()), Ok(receipt())), Err(rotated_out()));
    let bare = verify(context(), &strict, &evidence()).unwrap();
    assert_eq!(bare.verify_receipt(Err(rotated_out()), Ok(receipt())), Ok(None));
}

#[test]
fn a_retrieval_that_fails_is_reported_as_it_failed() {
    let missing = AcdpError::Wire {
        code: "not_found".to_string(),
        message: "no such context".to_string(),
        transient: false,
    };
    assert_eq!(
        VerifiedContext::fetch_with_policy(
            Err(missing.clone()),
            ctx_id(),
            &VerificationPolicy::default(),
            None,
            &evidence(),
        )
        .unwrap_err(),
        missing
    );
}

fn data_ref(location: Option<&str>, embedded: Option<EmbeddedCheck>) -> DataRef {
    DataRef {
        location: location.map(str::to_string),
        content_hash: Some(ContentHash("sha256:1".to_string())),
        embedded,
    }
}

#[test]
fn a_report_records_the_data_without_failing_on_it() {
    let bad = AcdpError::HashMismatch { stored: "a".to_string(), recomputed: "b".to_string() };
    let ctx = || {
        let mut ctx = context();
        ctx.body.data_refs = vec![
            data_ref(None, Some(EmbeddedCheck { decoded: Ok(5), hash: Ok(()) })),
            data_ref(
                None,
                Some(EmbeddedCheck {
                    decoded: Ok(7),
                    hash: Err(CheckFault::HashMismatch {
                        stored: "a".to_string(),
                        recomputed: "b".to_string(),
                    }),
                }),
            ),
            data_ref(Some("https://data.example/x"), None),
        ];
        ctx
    };
    let fetched = vec![Ok(1), Ok(2), Err(AcdpError::Http("down".to_string()))];
    let (_, report) = fetch_report_inner(
        ctx(),
        ctx_id(),
        &VerificationPolicy::default(),
        None,
        Ok(()),
        &evidence(),
        true,
        &fetched,
    )
    .unwrap();
    assert_eq!(report.data_ref_embedded, vec![Ok(5), Err(bad.clone()), Ok(0)]);
    assert_eq!(
        report.data_ref_external,
        vec![None, None, Some(Err(AcdpError::Http("down".to_string())))]
    );
    assert!(report.body_hash_ok && report.signature_ok && report.schema_ok && report.ctx_id_ok);
    assert_eq!(report.key_status, Some(KeyAuthorization::CurrentlyAuthorized));
    assert!(wants_fetch(&ctx().body.data_refs[2], true));
    assert!(!wants_fetch(&ctx().body.data_refs[2], false));
    assert!(!wants_fetch(&ctx().body.data_refs[0], true));
}

#[test]
fn a_report_is_not_begun_on_a_body_out_of_shape() {
    let fault = AcdpError::SchemaViolation(SchemaFault::Reported("no title".to_string()));
    let report = |policy: &VerificationPolicy| {
        fetch_report_inner(
            context(),
            ctx_id(),
            policy,
            None,
            Err(fault.clone()),
            &evidence(),
            false,
            &vec![],
        )
        .map(|_| ())
    };
    assert_eq!(report(&VerificationPolicy::default()), Err(fault.clone()));
    let lax = VerificationPolicy { validate_body_schema: false, ..Default::default() };
    assert_eq!(report(&lax), Ok(()));
}

#[test]
fn a_diagnosis_records_every_failure() {
    let bad = || AcdpError::InvalidSignature("bad".to_string());
    let probes =
        DiagnosticProbes { structural: Err(bad()), hash: Err(bad()), signature: Err(bad()) };
    let other = CtxId("acdp://registry.example.com/other".to_string());
    let report = probe(&context(), &other, &VerificationPolicy::default(), &probes);
    assert!(!report.schema_ok && !report.body_hash_ok && !report.signature_ok && !report.ctx_id_ok);
    assert!(!all_probes_pass(&report));
    let (found, report) = fetch_report_diagnose(
        context(),
        other,
        &VerificationPolicy::default(),
        None,
        &probes,
        &evidence(),
    );
    assert!(found.is_none());
    assert_eq!(report.policy_phase_error, None);
    assert_eq!(report.key_status, None);
}
