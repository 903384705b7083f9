//! Verification with a record of what each step found.
//!
//! A report checks the body's shape by itself and records the outcome for
//! each data reference; everything else goes through the same verification as
//! an ordinary retrieval, under [`VerificationPolicy::derived_for_report`].

use vstd::prelude::*;
use crate::error::AcdpError;
use crate::policy::{DiscoveryOutcome, KeyAuthorization, VerificationPolicy};
use crate::types::{CtxId, DataRef, FullContext};
use crate::verified::{
    verify_retrieved, RetrievalAnswers, RetrievalEvidence, RetrievalInputs, VerifiedContext,
    VerifiedContextView,
};

verus! {

/// What each step of a verification found.
#[derive(Debug)]
pub struct VerificationReport {
    /// The recomputed hash is the declared one.
    pub body_hash_ok: bool,
    /// The producer's signature verified.
    pub signature_ok: bool,
    /// The body is in shape, or the policy does not ask.
    pub schema_ok: bool,
    /// For each data reference, the number of embedded bytes whose hash was
    /// confirmed, or what is wrong with them.
    pub data_ref_embedded: Vec<Result<usize, AcdpError>>,
    /// For each data reference, what fetching it gave; `None` where it was
    /// not fetched.
    pub data_ref_external: Vec<Option<Result<usize, AcdpError>>>,
    /// The registry served the context that was requested.
    pub ctx_id_ok: bool,
    /// How the signing key stands, once everything passed.
    pub key_status: Option<KeyAuthorization>,
    /// What the policy's own checks failed with.
    pub policy_phase_error: Option<AcdpError>,
    /// What the search for revocations did.
    pub revocation_discovery: Option<Result<DiscoveryOutcome, AcdpError>>,
}

/// A [`VerificationReport`] as a contract sees it.
pub struct VerificationReportView {
    pub body_hash_ok: bool,
    pub signature_ok: bool,
    pub schema_ok: bool,
    pub data_ref_embedded: Seq<Result<usize, AcdpError<Seq<char>>>>,
    pub data_ref_external: Seq<Option<Result<usize, AcdpError<Seq<char>>>>>,
    pub ctx_id_ok: bool,
    pub key_status: Option<KeyAuthorization>,
    pub policy_phase_error: Option<AcdpError<Seq<char>>>,
    pub revocation_discovery: Option<Result<DiscoveryOutcome, AcdpError<Seq<char>>>>,
}

/// An optional count, or failure, as a contract sees it.
pub open spec fn slot_view(r: Option<Result<usize, AcdpError>>) -> Option<
    Result<usize, AcdpError<Seq<char>>>,
> {
    match r {
        Some(r) => Some(crate::error::checked(r)),
        None => None,
    }
}

/// Counts, or failures, as a contract sees them.
pub open spec fn counts_view(v: Seq<Result<usize, AcdpError>>) -> Seq<
    Result<usize, AcdpError<Seq<char>>>,
> {
    v.map_values(|r: Result<usize, AcdpError>| crate::error::checked(r))
}

/// Optional counts, or failures, as a contract sees them.
pub open spec fn slots_view(v: Seq<Option<Result<usize, AcdpError>>>) -> Seq<
    Option<Result<usize, AcdpError<Seq<char>>>>,
> {
    v.map_values(|r: Option<Result<usize, AcdpError>>| slot_view(r))
}

impl VerificationReport {
    /// The report as a contract sees it.
    pub open spec fn view(&self) -> VerificationReportView {
        VerificationReportView {
            body_hash_ok: self.body_hash_ok,
            signature_ok: self.signature_ok,
            schema_ok: self.schema_ok,
            data_ref_embedded: counts_view(self.data_ref_embedded@),
            data_ref_external: slots_view(self.data_ref_external@),
            ctx_id_ok: self.ctx_id_ok,
            key_status: self.key_status,
            policy_phase_error: match self.policy_phase_error {
                Some(e) => Some(e@),
                None => None,
            },
            revocation_discovery: crate::verified::discovery_view(self.revocation_discovery),
        }
    }
}

/// What checking a data reference's embedded bytes gave: their number where
/// their hash was confirmed. Nothing is confirmed where there are no embedded
/// bytes or no hash is declared.
pub open spec fn embedded_outcome(dr: DataRef) -> Result<usize, AcdpError<Seq<char>>> {
    match (dr.embedded, dr.content_hash) {
        (Some(check), Some(_)) => match check.hash {
            Err(f) => Err(f@.failure()),
            Ok(()) => crate::error::reported(check.decoded),
        },
        _ => Ok(0),
    }
}

/// [`embedded_outcome`] of every data reference.
pub open spec fn embedded_outcomes(refs: Seq<DataRef>) -> Seq<
    Result<usize, AcdpError<Seq<char>>>,
> {
    refs.map_values(|dr: DataRef| embedded_outcome(dr))
}

/// Checks the embedded bytes of every data reference.
pub fn check_embedded_refs(refs: &Vec<DataRef>) -> (outcomes: Vec<Result<usize, AcdpError>>)
    ensures
        counts_view(outcomes@) == embedded_outcomes(refs@),
{
    let mut outcomes: Vec<Result<usize, AcdpError>> = Vec::new();
    let mut i: usize = 0;
    while i < refs.len()
        invariant
            i <= refs.len(),
            outcomes.len() == i,
            forall|k: int|
                0 <= k < i ==> crate::error::checked(#[trigger] outcomes@[k]) == embedded_outcome(
                    refs@[k],
                ),
        decreases refs.len() - i,
    {
        let dr: &DataRef = &refs[i];
        let outcome: Result<usize, AcdpError> = match (&dr.embedded, &dr.content_hash) {
            (Some(check), Some(_)) => match &check.hash {
                Err(f) => Err(f.to_error()),
                Ok(()) => match &check.decoded {
                    Ok(n) => Ok(*n),
                    Err(f) => Err(f.to_error()),
                },
            },
            _ => Ok(0),
        };
        outcomes.push(outcome);
        i = i + 1;
    }
    proof {
        assert(counts_view(outcomes@) =~= embedded_outcomes(refs@));
    }
    outcomes
}

/// Whether a data reference is fetched: it says where it is, and there is
/// something to fetch it with.
pub open spec fn is_fetched(dr: DataRef, has_fetcher: bool) -> bool {
    has_fetcher && dr.location is Some
}

/// Whether a data reference is to be fetched.
pub fn wants_fetch(dr: &DataRef, has_fetcher: bool) -> (yes: bool)
    ensures
        yes == is_fetched(*dr, has_fetcher),
{
    has_fetcher && dr.location.is_some()
}

/// What is recorded of fetching each data reference.
pub open spec fn external_slots(
    refs: Seq<DataRef>,
    has_fetcher: bool,
    fetched: Seq<Result<usize, AcdpError>>,
) -> Seq<Option<Result<usize, AcdpError<Seq<char>>>>> {
    Seq::new(
        refs.len(),
        |k: int|
            if is_fetched(refs[k], has_fetcher) {
                Some(crate::error::checked(fetched[k]))
            } else {
                None
            },
    )
}

fn record_fetches(
    refs: &Vec<DataRef>,
    has_fetcher: bool,
    fetched: &Vec<Result<usize, AcdpError>>,
) -> (slots: Vec<Option<Result<usize, AcdpError>>>)
    requires
        has_fetcher ==> fetched.len() == refs.len(),
    ensures
        slots_view(slots@) == external_slots(refs@, has_fetcher, fetched@),
{
    let mut slots: Vec<Option<Result<usize, AcdpError>>> = Vec::new();
    let mut i: usize = 0;
    while i < refs.len()
        invariant
            i <= refs.len(),
            has_fetcher ==> fetched.len() == refs.len(),
            slots.len() == i,
            forall|k: int|
                0 <= k < i ==> slot_view(#[trigger] slots@[k]) == external_slots(
                    refs@,
                    has_fetcher,
                    fetched@,
                )[k],
        decreases refs.len() - i,
    {
        let slot: Option<Result<usize, AcdpError>> = if wants_fetch(&refs[i], has_fetcher) {
            Some(
                match &fetched[i] {
                    Ok(n) => Ok(*n),
                    Err(e) => Err(e.clone()),
                },
            )
        } else {
            None
        };
        slots.push(slot);
        i = i + 1;
    }
    proof {
        assert(slots_view(slots@) =~= external_slots(refs@, has_fetcher, fetched@));
    }
    slots
}

/// Why a report is not even begun: the registry served another context, or
/// the body is not in shape and the policy asks.
pub open spec fn report_refusal(
    ctx: FullContext,
    ctx_id: Seq<char>,
    policy: VerificationPolicy,
    structural: Result<(), AcdpError<Seq<char>>>,
) -> Option<AcdpError<Seq<char>>> {
    if ctx.body.ctx_id@ != ctx_id {
        Some(AcdpError::ContextIdMismatch { requested: ctx_id, served: ctx.body.ctx_id@ })
    } else if policy.validate_body_schema && structural is Err {
        Some(structural->Err_0)
    } else {
        None
    }
}

/// A verified context and its report, or the first failure.
pub open spec fn report_outcome(
    ctx: FullContext,
    ctx_id: Seq<char>,
    policy: VerificationPolicy,
    structural: Result<(), AcdpError<Seq<char>>>,
    result: Result<VerifiedContextView, AcdpError<Seq<char>>>,
    has_fetcher: bool,
    fetched: Seq<Result<usize, AcdpError>>,
) -> Result<(VerifiedContextView, VerificationReportView), AcdpError<Seq<char>>> {
    match report_refusal(ctx, ctx_id, policy, structural) {
        Some(e) => Err(e),
        None => match result {
            Err(e) => Err(e),
            Ok(v) => Ok(
                (
                    v,
                    VerificationReportView {
                        body_hash_ok: true,
                        signature_ok: true,
                        schema_ok: true,
                        data_ref_embedded: embedded_outcomes(ctx.body.data_refs@),
                        data_ref_external: external_slots(
                            ctx.body.data_refs@,
                            has_fetcher,
                            fetched,
                        ),
                        ctx_id_ok: true,
                        key_status: Some(v.key_status),
                        policy_phase_error: None,
                        revocation_discovery: v.discovery,
                    },
                ),
            ),
        },
    }
}

/// A report as a contract sees it.
pub open spec fn reported(r: Result<(VerifiedContext, VerificationReport), AcdpError>) -> Result<
    (VerifiedContextView, VerificationReportView),
    AcdpError<Seq<char>>,
> {
    match r {
        Ok((v, report)) => Ok((v@, report@)),
        Err(e) => Err(e@),
    }
}

/// The result that a report rests on: that of the ordinary verification,
/// which leaves the body's shape to the report.
pub open spec fn report_basis(
    ctx: FullContext,
    ctx_id: Seq<char>,
    policy: VerificationPolicy,
    authority: Option<Seq<char>>,
    answers: RetrievalAnswers,
) -> Result<VerifiedContextView, AcdpError<Seq<char>>> {
    crate::verified::retrieval_outcome(
        RetrievalInputs {
            ctx,
            expected: ctx_id,
            policy: VerificationPolicy { validate_body_schema: false, ..policy },
            authority,
        },
        answers,
    )
}

/// Checks whether a report can be begun on a retrieved context, given the
/// check of its body's shape, which counts only where the policy asks for it.
pub fn begin_report(
    ctx: &FullContext,
    ctx_id: &CtxId,
    policy: &VerificationPolicy,
    structural: Result<(), AcdpError>,
) -> (r: Result<(), AcdpError>)
    ensures
        crate::error::checked(r) == match report_refusal(
            *ctx,
            ctx_id@,
            *policy,
            crate::error::checked(structural),
        ) {
            Some(e) => Err(e),
            None => Ok(()),
        },
{
    if !ctx.body.ctx_id.same(ctx_id) {
        return Err(
            AcdpError::ContextIdMismatch {
                requested: ctx_id.0.clone(),
                served: ctx.body.ctx_id.0.clone(),
            },
        );
    }
    if policy.validate_body_schema {
        return structural;
    }
    Ok(())
}

/// The report on a verified context.
pub fn report_on(
    verified: &VerifiedContext,
    has_fetcher: bool,
    fetched: &Vec<Result<usize, AcdpError>>,
) -> (report: VerificationReport)
    requires
        has_fetcher ==> fetched.len() == verified@.ctx.body.data_refs.len(),
    ensures
        report@ == (VerificationReportView {
            body_hash_ok: true,
            signature_ok: true,
            schema_ok: true,
            data_ref_embedded: embedded_outcomes(verified@.ctx.body.data_refs@),
            data_ref_external: external_slots(
                verified@.ctx.body.data_refs@,
                has_fetcher,
                fetched@,
            ),
            ctx_id_ok: true,
            key_status: Some(verified@.key_status),
            policy_phase_error: None,
            revocation_discovery: verified@.discovery,
        }),
{
    VerificationReport {
        body_hash_ok: true,
        signature_ok: true,
        schema_ok: true,
        data_ref_embedded: check_embedded_refs(&verified.body().data_refs),
        data_ref_external: record_fetches(&verified.body().data_refs, has_fetcher, fetched),
        ctx_id_ok: true,
        key_status: Some(verified.key_status()),
        policy_phase_error: None,
        revocation_discovery: verified.revocation_discovery(),
    }
}

/// Verifies a retrieved context and reports on it, from recorded answers. Any
/// failure of a step ends the report; a data reference whose bytes are wrong
/// does not. Where there is a fetcher, `fetched` holds what fetching each
/// data reference gave; a slot of one that says not where it is does not
/// count.
pub fn fetch_report_inner(
    ctx: FullContext,
    ctx_id: CtxId,
    policy: &VerificationPolicy,
    authority: Option<String>,
    structural: Result<(), AcdpError>,
    evidence: &RetrievalEvidence,
    has_fetcher: bool,
    fetched: &Vec<Result<usize, AcdpError>>,
) -> (r: Result<(VerifiedContext, VerificationReport), AcdpError>)
    requires
        has_fetcher ==> fetched.len() == ctx.body.data_refs.len(),
    ensures
        reported(r) == report_outcome(
            ctx,
            ctx_id@,
            *policy,
            crate::error::checked(structural),
            report_basis(
                ctx,
                ctx_id@,
                *policy,
                crate::error::opt_text(authority),
                evidence@,
            ),
            has_fetcher,
            fetched@,
        ),
{
    if let Err(e) = begin_report(&ctx, &ctx_id, policy, structural) {
        return Err(e);
    }
    let derived: VerificationPolicy = policy.derived_for_report();
    proof {
        crate::verified::law_equal_policies_equal_results(
            ctx,
            ctx_id@,
            derived,
            VerificationPolicy { validate_body_schema: false, ..*policy },
            crate::error::opt_text(authority),
            evidence@,
        );
        crate::verified::lemma_outcome_keeps_context(
            RetrievalInputs {
                ctx,
                expected: ctx_id@,
                policy: derived,
                authority: crate::error::opt_text(authority),
            },
            evidence@,
        );
    }
    match verify_retrieved(ctx, ctx_id, &derived, authority, evidence) {
        Err(e) => Err(e),
        Ok(verified) => {
            let report: VerificationReport = report_on(&verified, has_fetcher, fetched);
            Ok((verified, report))
        },
    }
}

/// What independent checks of a retrieved context gave.
#[derive(Debug, PartialEq, Eq)]
pub struct DiagnosticProbes {
    /// The body's shape; counts only where the policy asks for it.
    pub structural: Result<(), AcdpError>,
    pub hash: Result<(), AcdpError>,
    /// The signature with a key that is authorized now.
    pub signature: Result<(), AcdpError>,
}

/// What the independent checks alone say.
pub open spec fn probe_report(
    ctx: FullContext,
    ctx_id: Seq<char>,
    policy: VerificationPolicy,
    probes: DiagnosticProbes,
) -> VerificationReportView {
    VerificationReportView {
        body_hash_ok: probes.hash is Ok,
        signature_ok: probes.signature is Ok,
        schema_ok: !policy.validate_body_schema || probes.structural is Ok,
        data_ref_embedded: embedded_outcomes(ctx.body.data_refs@),
        data_ref_external: Seq::new(ctx.body.data_refs@.len(), |k: int| None),
        ctx_id_ok: ctx.body.ctx_id@ == ctx_id,
        key_status: None,
        policy_phase_error: None,
        revocation_discovery: None,
    }
}

/// Whether every independent check passed.
pub open spec fn probes_pass(report: VerificationReportView) -> bool {
    report.schema_ok && report.body_hash_ok && report.signature_ok && report.ctx_id_ok
}

/// The diagnosis of a retrieved context: the independent checks and, where
/// they all pass, the result of the verification. Only a context that passes
/// that too is handed out.
pub open spec fn diagnosis(
    probed: VerificationReportView,
    result: Result<VerifiedContextView, AcdpError<Seq<char>>>,
) -> (Option<VerifiedContextView>, VerificationReportView) {
    if !probes_pass(probed) {
        (None, probed)
    } else {
        match result {
            Ok(v) => (
                Some(v),
                VerificationReportView {
                    key_status: Some(v.key_status),
                    revocation_discovery: v.discovery,
                    ..probed
                },
            ),
            Err(e) => (None, VerificationReportView { policy_phase_error: Some(e), ..probed }),
        }
    }
}

/// A diagnosis as a contract sees it.
pub open spec fn diagnosed(r: (Option<VerifiedContext>, VerificationReport)) -> (
    Option<VerifiedContextView>,
    VerificationReportView,
) {
    (
        match r.0 {
            Some(v) => Some(v@),
            None => None,
        },
        r.1@,
    )
}

/// Records what the independent checks of a retrieved context gave.
pub fn probe(
    ctx: &FullContext,
    ctx_id: &CtxId,
    policy: &VerificationPolicy,
    probes: &DiagnosticProbes,
) -> (report: VerificationReport)
    ensures
        report@ == probe_report(*ctx, ctx_id@, *policy, *probes),
{
    let no_fetches: Vec<Result<usize, AcdpError>> = Vec::new();
    let report: VerificationReport = VerificationReport {
        body_hash_ok: probes.hash.is_ok(),
        signature_ok: probes.signature.is_ok(),
        schema_ok: !policy.validate_body_schema || probes.structural.is_ok(),
        data_ref_embedded: check_embedded_refs(&ctx.body.data_refs),
        data_ref_external: record_fetches(&ctx.body.data_refs, false, &no_fetches),
        ctx_id_ok: ctx.body.ctx_id.same(ctx_id),
        key_status: None,
        policy_phase_error: None,
        revocation_discovery: None,
    };
    proof {
        assert(report@.data_ref_external =~= probe_report(
            *ctx,
            ctx_id@,
            *policy,
            *probes,
        ).data_ref_external);
    }
    report
}

/// Whether every independent check passed, so that the verification is to be
/// run.
pub fn all_probes_pass(report: &VerificationReport) -> (yes: bool)
    ensures
        yes == probes_pass(report@),
{
    report.schema_ok && report.body_hash_ok && report.signature_ok && report.ctx_id_ok
}

/// Completes a diagnosis with the result of the verification, which counts
/// only where every independent check passed.
pub fn conclude_diagnosis(
    probed: VerificationReport,
    result: Result<VerifiedContext, AcdpError>,
) -> (r: (Option<VerifiedContext>, VerificationReport))
    ensures
        diagnosed(r) == diagnosis(probed@, crate::verified::verified_result(result)),
{
    if !all_probes_pass(&probed) {
        return (None, probed);
    }
    let mut report: VerificationReport = probed;
    match result {
        Ok(verified) => {
            report.key_status = Some(verified.key_status());
            report.revocation_discovery = verified.revocation_discovery();
            (Some(verified), report)
        },
        Err(e) => {
            report.policy_phase_error = Some(e);
            (None, report)
        },
    }
}

/// Diagnoses a retrieved context from recorded answers. No failure ends it:
/// each is recorded.
pub fn fetch_report_diagnose(
    ctx: FullContext,
    ctx_id: CtxId,
    policy: &VerificationPolicy,
    authority: Option<String>,
    probes: &DiagnosticProbes,
    evidence: &RetrievalEvidence,
) -> (r: (Option<VerifiedContext>, VerificationReport))
    ensures
        diagnosed(r) == diagnosis(
            probe_report(ctx, ctx_id@, *policy, *probes),
            report_basis(
                ctx,
                ctx_id@,
                *policy,
                crate::error::opt_text(authority),
                evidence@,
            ),
        ),
{
    let probed: VerificationReport = probe(&ctx, &ctx_id, policy, probes);
    if !all_probes_pass(&probed) {
        return (None, probed);
    }
    let derived: VerificationPolicy = policy.derived_for_report();
    proof {
        crate::verified::law_equal_policies_equal_results(
            ctx,
            ctx_id@,
            derived,
            VerificationPolicy { validate_body_schema: false, ..*policy },
            crate::error::opt_text(authority),
            evidence@,
        );
    }
    conclude_diagnosis(probed, verify_retrieved(ctx, ctx_id, &derived, authority, evidence))
}

/// A report and an ordinary retrieval agree: wherever the body is in shape, a
/// report is made exactly if the retrieval verifies, and hands out the same
/// context; where it is not made, both fail alike.
pub proof fn law_report_agrees_with_retrieval(
    ctx: FullContext,
    ctx_id: Seq<char>,
    policy: VerificationPolicy,
    authority: Option<Seq<char>>,
    answers: RetrievalAnswers,
    has_fetcher: bool,
    fetched: Seq<Result<usize, AcdpError>>,
)
    requires
        answers.schema is Ok,
    ensures
        ({
            let report = report_outcome(
                ctx,
                ctx_id,
                policy,
                Ok(()),
                report_basis(ctx, ctx_id, policy, authority, answers),
                has_fetcher,
                fetched,
            );
            let retrieval = crate::verified::retrieval_outcome(
                RetrievalInputs { ctx, expected: ctx_id, policy, authority },
                answers,
            );
            match report {
                Ok((v, _)) => retrieval == Ok::<VerifiedContextView, AcdpError<Seq<char>>>(v),
                Err(e) => retrieval == Err::<VerifiedContextView, AcdpError<Seq<char>>>(e),
            }
        }),
{
    crate::verified::law_equal_policies_equal_results(
        ctx,
        ctx_id,
        policy,
        VerificationPolicy { validate_body_schema: false, ..policy },
        authority,
        answers,
    );
}

/// A diagnosis hands out a context only if every independent check and the
/// whole verification passed, and then reports how the key really stands.
pub proof fn law_diagnosis_hands_out_only_verified(
    probed: VerificationReportView,
    result: Result<VerifiedContextView, AcdpError<Seq<char>>>,
)
    ensures
        diagnosis(probed, result).0 matches Some(v) ==> {
            &&& probes_pass(probed)
            &&& result == Ok::<VerifiedContextView, AcdpError<Seq<char>>>(v)
            &&& diagnosis(probed, result).1.key_status == Some(v.key_status)
        },
        diagnosis(probed, result).0 is None && probes_pass(probed) ==> diagnosis(
            probed,
            result,
        ).1.policy_phase_error is Some,
{
}

/// Whether a report says of every data reference what its bytes gave: how
/// many were confirmed by the declared hash where some are embedded, and what
/// came of fetching it where it says where it is and there is something to
/// fetch it with.
pub open spec fn reports_references(
    report: VerificationReportView,
    refs: Seq<DataRef>,
    has_fetcher: bool,
    fetched: Seq<Result<usize, AcdpError>>,
) -> bool {
    &&& report.data_ref_embedded.len() == refs.len()
    &&& report.data_ref_external.len() == refs.len()
    &&& forall|k: int|
        0 <= k < refs.len() ==> (#[trigger] report.data_ref_embedded[k]) == if refs[k].embedded
            is None || refs[k].content_hash is None {
            Ok(0usize)
        } else if refs[k].embedded->Some_0.hash is Err {
            Err(refs[k].embedded->Some_0.hash->Err_0@.failure())
        } else if refs[k].embedded->Some_0.decoded is Err {
            Err(refs[k].embedded->Some_0.decoded->Err_0@.failure())
        } else {
            Ok(refs[k].embedded->Some_0.decoded->Ok_0)
        }
    &&& forall|k: int|
        0 <= k < refs.len() ==> (#[trigger] report.data_ref_external[k]) == if has_fetcher
            && refs[k].location is Some {
            Some(crate::error::checked(fetched[k]))
        } else {
            None
        }
}

/// A report is given exactly of a context that is the one asked for, is in
/// shape if the policy asks that, and verifies; it says of every data
/// reference what its bytes gave, and repeats how the key stands and what the
/// search came to. A data reference is no reason to give none.
pub proof fn law_what_a_report_says(
    ctx: FullContext,
    ctx_id: Seq<char>,
    policy: VerificationPolicy,
    structural: Result<(), AcdpError<Seq<char>>>,
    result: Result<VerifiedContextView, AcdpError<Seq<char>>>,
    has_fetcher: bool,
    fetched: Seq<Result<usize, AcdpError>>,
)
    ensures
        ({
            let r = report_outcome(
                ctx,
                ctx_id,
                policy,
                structural,
                result,
                has_fetcher,
                fetched,
            );
            &&& r is Ok <==> ctx.body.ctx_id@ == ctx_id && (policy.validate_body_schema
                ==> structural is Ok) && result is Ok
            &&& r is Ok ==> {
                let (v, report) = r->Ok_0;
                &&& v == result->Ok_0
                &&& report.body_hash_ok && report.signature_ok && report.schema_ok
                    && report.ctx_id_ok
                &&& report.key_status == Some(v.key_status)
                &&& report.policy_phase_error is None
                &&& report.revocation_discovery == v.discovery
                &&& reports_references(report, ctx.body.data_refs@, has_fetcher, fetched)
            }
            &&& ctx.body.ctx_id@ != ctx_id ==> r == Err::<
                (VerifiedContextView, VerificationReportView),
                AcdpError<Seq<char>>,
            >(AcdpError::ContextIdMismatch { requested: ctx_id, served: ctx.body.ctx_id@ })
            &&& ctx.body.ctx_id@ == ctx_id && policy.validate_body_schema && structural is Err ==> r
                == Err::<(VerifiedContextView, VerificationReportView), AcdpError<Seq<char>>>(
                structural->Err_0,
            )
            &&& ctx.body.ctx_id@ == ctx_id && (policy.validate_body_schema ==> structural is Ok)
                && result is Err ==> r == Err::<
                (VerifiedContextView, VerificationReportView),
                AcdpError<Seq<char>>,
            >(result->Err_0)
        }),
{
}

/// A diagnosis hands out the context exactly if every independent check
/// passes and it verifies, and always says what each check gave, of every
/// data reference too; what the verification failed for is said where the
/// independent checks all pass.
pub proof fn law_what_a_diagnosis_says(
    ctx: FullContext,
    ctx_id: Seq<char>,
    policy: VerificationPolicy,
    probes: DiagnosticProbes,
    result: Result<VerifiedContextView, AcdpError<Seq<char>>>,
)
    ensures
        ({
            let (handed_out, report) = diagnosis(
                probe_report(ctx, ctx_id, policy, probes),
                result,
            );
            let pass = probes.hash is Ok && probes.signature is Ok && (policy.validate_body_schema
                ==> probes.structural is Ok) && ctx.body.ctx_id@ == ctx_id;
            &&& handed_out is Some <==> pass && result is Ok
            &&& handed_out is Some ==> handed_out->Some_0 == result->Ok_0
            &&& report.body_hash_ok <==> probes.hash is Ok
            &&& report.signature_ok <==> probes.signature is Ok
            &&& report.schema_ok <==> (policy.validate_body_schema ==> probes.structural is Ok)
            &&& report.ctx_id_ok <==> ctx.body.ctx_id@ == ctx_id
            &&& report.key_status == if pass && result is Ok {
                Some(result->Ok_0.key_status)
            } else {
                None
            }
            &&& report.policy_phase_error == if pass && result is Err {
                Some(result->Err_0)
            } else {
                None
            }
            &&& report.revocation_discovery == if pass && result is Ok {
                result->Ok_0.discovery
            } else {
                None
            }
            &&& reports_references(report, ctx.body.data_refs@, false, Seq::empty())
        }),
{
}

/// What a report rests on is the ordinary verification of the same context
/// under the same policy, but for the shape of the body, which it leaves
/// aside.
pub proof fn law_reports_rest_on_the_verification(
    ctx: FullContext,
    ctx_id: Seq<char>,
    policy: VerificationPolicy,
    authority: Option<Seq<char>>,
    answers: RetrievalAnswers,
    schema: Result<(), AcdpError<Seq<char>>>,
)
    ensures
        report_basis(ctx, ctx_id, policy, authority, answers)
            == crate::verified::retrieval_outcome(
            RetrievalInputs { ctx, expected: ctx_id, policy, authority },
            RetrievalAnswers { schema: Ok(()), ..answers },
        ),
        report_basis(ctx, ctx_id, policy, authority, answers) == report_basis(
            ctx,
            ctx_id,
            policy,
            authority,
            RetrievalAnswers { schema, ..answers },
        ),
{
}

} // verus!
