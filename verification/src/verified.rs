//! The verification of a context that a registry served.
//!
//! Verification alternates decisions with work that others do: hashing,
//! resolving identities, checking signatures, searching for revocations. The
//! decisions are a [`Retrieval`]: it says what is to be done next
//! ([`Retrieval::action`]) and goes on with what came of it
//! ([`Retrieval::advance`]) until it gives a [`VerifiedContext`] or a
//! failure.

use vstd::prelude::*;
use crate::error::{copy_check, AcdpError, ReceiptFault, ResolutionFault, SchemaFault};
use crate::key_revocation::{KeyRevocation, KeyRevocationView};
use crate::policy::{
    copy_revocations, DiscoveryFailurePolicy, DiscoveryOutcome, HistoricalKeyPolicy,
    KeyAuthorization, ReceiptPolicy, RevocationDiscovery, VerificationPolicy,
};
use crate::revocation::classify_under_revocation;
use crate::text::starts_with;
use crate::time::Timestamp;
use crate::types::{
    Body, CtxId, FullContext, LineageHeadReceipt, LineageId, RegistryReceipt, RegistryReceiptView,
    RegistryState, Status,
};

verus! {

/// What a search for revocations came to.
#[derive(Debug, PartialEq, Eq)]
pub enum DiscoveryRun {
    /// Every search that was asked for ran to its end.
    Completed {
        producer_signed: Vec<KeyRevocation>,
        /// Counts only where this class was asked for.
        registry_attested: Vec<KeyRevocation>,
    },
    /// A search failed.
    Failed(AcdpError),
    /// The searches took longer than they may.
    TimedOut,
}

/// A [`DiscoveryRun`] as a contract sees it.
pub enum DiscoveryRunView {
    Completed {
        producer_signed: Seq<KeyRevocationView>,
        registry_attested: Seq<KeyRevocationView>,
    },
    Failed(AcdpError<Seq<char>>),
    TimedOut,
}

impl DiscoveryRun {
    /// The run as a contract sees it.
    pub open spec fn view(&self) -> DiscoveryRunView {
        match self {
            DiscoveryRun::Completed { producer_signed, registry_attested } =>
                DiscoveryRunView::Completed {
                producer_signed: crate::key_revocation::revocations_view(producer_signed@),
                registry_attested: crate::key_revocation::revocations_view(registry_attested@),
            },
            DiscoveryRun::Failed(e) => DiscoveryRunView::Failed(e@),
            DiscoveryRun::TimedOut => DiscoveryRunView::TimedOut,
        }
    }
}

/// What a signing key's fingerprint is needed for.
#[derive(Clone, Copy, Debug, PartialEq, Eq, Structural)]
pub enum KeyUse {
    /// To compare it with the key that the receipt attests.
    Receipt,
    /// To look it up among the revocations.
    Revocations,
}

/// What is to be done for a verification to go on.
#[derive(Debug, PartialEq, Eq)]
pub enum RetrievalAction<S = String> {
    /// Check the body's shape and its embedded data.
    ValidateBody,
    /// Recompute the body's hash and compare it with the declared one.
    VerifyBodyHash,
    /// Find the fingerprint of the key that signed the body.
    FingerprintSigningKey(KeyUse),
    /// Verify the registry's receipt against the body, this key and this
    /// authority.
    VerifyReceipt { fingerprint: S, serving_authority: S },
    /// Search for revocations of the producer's keys.
    Discover(RevocationDiscovery),
    /// Verify the signature with a key that is authorized now.
    VerifySignature,
    /// Verify the signature with any key that the producer still lists.
    VerifySignatureHistorical,
}

impl RetrievalAction<String> {
    /// The action with its texts as character sequences.
    pub open spec fn view(&self) -> RetrievalAction<Seq<char>> {
        match self {
            RetrievalAction::ValidateBody => RetrievalAction::ValidateBody,
            RetrievalAction::VerifyBodyHash => RetrievalAction::VerifyBodyHash,
            RetrievalAction::FingerprintSigningKey(u) => RetrievalAction::FingerprintSigningKey(*u),
            RetrievalAction::VerifyReceipt { fingerprint, serving_authority } =>
                RetrievalAction::VerifyReceipt {
                fingerprint: fingerprint@,
                serving_authority: serving_authority@,
            },
            RetrievalAction::Discover(d) => RetrievalAction::Discover(*d),
            RetrievalAction::VerifySignature => RetrievalAction::VerifySignature,
            RetrievalAction::VerifySignatureHistorical =>
                RetrievalAction::VerifySignatureHistorical,
        }
    }
}

/// What came of an action.
#[derive(Debug, PartialEq, Eq)]
pub enum RetrievalEvent {
    /// A check passed or failed.
    Checked(Result<(), AcdpError>),
    /// The fingerprint of the signing key.
    Fingerprint(Result<String, AcdpError>),
    /// The receipt, once verified.
    Receipt(Result<RegistryReceipt, AcdpError>),
    /// The search, and the revocations that an attached cache holds about
    /// the producer.
    Discovered { run: DiscoveryRun, facts: Vec<KeyRevocation> },
}

impl RetrievalEvent {
    /// Whether a check failed, or something could not be had that was needed.
    /// A search that failed is for the policy to judge.
    pub open spec fn fails(self) -> bool {
        match self {
            RetrievalEvent::Checked(r) => r is Err,
            RetrievalEvent::Fingerprint(r) => r is Err,
            RetrievalEvent::Receipt(r) => r is Err,
            RetrievalEvent::Discovered { .. } => false,
        }
    }
}

/// Every answer that the work done for one verification can give. A
/// verification asks for some of them.
pub struct RetrievalAnswers {
    pub schema: Result<(), AcdpError<Seq<char>>>,
    pub hash: Result<(), AcdpError<Seq<char>>>,
    /// The fingerprint of the signing key, for the receipt.
    pub receipt_key: Result<Seq<char>, AcdpError<Seq<char>>>,
    /// The receipt verified against a key and a serving authority.
    pub receipt: spec_fn(Seq<char>, Seq<char>) -> Result<RegistryReceiptView, AcdpError<Seq<char>>>,
    /// A search for revocations.
    pub discovery: spec_fn(RevocationDiscovery) -> DiscoveryRunView,
    /// What an attached cache holds about the producer.
    pub facts: Seq<KeyRevocationView>,
    /// The fingerprint of the signing key, for the revocations.
    pub revocation_key: Result<Seq<char>, AcdpError<Seq<char>>>,
    /// The signature with a key that is authorized now.
    pub signature: Result<(), AcdpError<Seq<char>>>,
    /// The signature with a key that its owner has retained.
    pub historical: Result<(), AcdpError<Seq<char>>>,
}

/// A text, or a failure, as a contract sees it.
pub open spec fn text_result(r: Result<String, AcdpError>) -> Result<
    Seq<char>,
    AcdpError<Seq<char>>,
> {
    match r {
        Ok(t) => Ok(t@),
        Err(e) => Err(e@),
    }
}

/// A receipt, or a failure, as a contract sees it.
pub open spec fn receipt_result(r: Result<RegistryReceipt, AcdpError>) -> Result<
    RegistryReceiptView,
    AcdpError<Seq<char>>,
> {
    match r {
        Ok(t) => Ok(t@),
        Err(e) => Err(e@),
    }
}

/// What a verification works on.
pub struct RetrievalInputs {
    pub ctx: FullContext,
    pub expected: Seq<char>,
    pub policy: VerificationPolicy,
    /// The authority that the registry was reached under, where it has one.
    pub authority: Option<Seq<char>>,
}

impl RetrievalInputs {
    /// The authority that served the context.
    pub open spec fn serving_authority(self) -> Seq<char> {
        match self.authority {
            Some(a) => a,
            None => crate::types::authority_of(self.expected),
        }
    }
}

/// What a successful verification established.
pub struct VerifiedContextView {
    pub ctx: FullContext,
    pub key_status: KeyAuthorization,
    pub receipt: Option<RegistryReceiptView>,
    pub head_receipt: Option<LineageHeadReceipt>,
    pub head_receipt_stale: Option<bool>,
    pub discovery: Option<Result<DiscoveryOutcome, AcdpError<Seq<char>>>>,
}

/// What to do about a receipt.
#[derive(Clone, Copy, Debug, PartialEq, Eq, Structural)]
pub enum ReceiptPlan {
    /// Nothing.
    Skip,
    /// Verify it.
    Verify,
    /// Fail: it is required and absent.
    Refuse,
}

/// What to do about a receipt under a policy.
pub open spec fn receipt_plan(policy: ReceiptPolicy, present: bool) -> ReceiptPlan {
    match policy {
        ReceiptPolicy::Ignore => ReceiptPlan::Skip,
        ReceiptPolicy::VerifyIfPresent => if present {
            ReceiptPlan::Verify
        } else {
            ReceiptPlan::Skip
        },
        ReceiptPolicy::Require => if present {
            ReceiptPlan::Verify
        } else {
            ReceiptPlan::Refuse
        },
    }
}

/// What to do about a receipt under a policy.
pub fn plan_receipt(policy: ReceiptPolicy, present: bool) -> (plan: ReceiptPlan)
    ensures
        plan == receipt_plan(policy, present),
{
    match policy {
        ReceiptPolicy::Ignore => ReceiptPlan::Skip,
        ReceiptPolicy::VerifyIfPresent => if present {
            ReceiptPlan::Verify
        } else {
            ReceiptPlan::Skip
        },
        ReceiptPolicy::Require => if present {
            ReceiptPlan::Verify
        } else {
            ReceiptPlan::Refuse
        },
    }
}

/// What a search for revocations contributes: the revocations found and what
/// is reported of it, or the failure of the whole verification.
pub open spec fn discovery_contribution(
    discovery: RevocationDiscovery,
    run: DiscoveryRunView,
) -> Result<
    (Seq<KeyRevocationView>, Result<DiscoveryOutcome, AcdpError<Seq<char>>>),
    AcdpError<Seq<char>>,
> {
    match run {
        DiscoveryRunView::Completed { producer_signed, registry_attested } => {
            let attested = if discovery.include_registry_attested {
                registry_attested
            } else {
                Seq::empty()
            };
            Ok(
                (
                    producer_signed + attested,
                    Ok(
                        DiscoveryOutcome {
                            producer_signed: producer_signed.len() as usize,
                            registry_attested: if discovery.include_registry_attested {
                                Some(attested.len() as usize)
                            } else {
                                None
                            },
                        },
                    ),
                ),
            )
        },
        DiscoveryRunView::Failed(e) => discovery_failure(discovery, e),
        DiscoveryRunView::TimedOut => discovery_failure(
            discovery,
            AcdpError::CrossRegistryResolutionFailed(
                ResolutionFault::DiscoveryTimeout { allowed: discovery.total_timeout },
            ),
        ),
    }
}

/// What a failed search for revocations contributes.
pub open spec fn discovery_failure(
    discovery: RevocationDiscovery,
    cause: AcdpError<Seq<char>>,
) -> Result<
    (Seq<KeyRevocationView>, Result<DiscoveryOutcome, AcdpError<Seq<char>>>),
    AcdpError<Seq<char>>,
> {
    let failure = AcdpError::RevocationDiscoveryFailed { source: Box::new(cause) };
    match discovery.on_failure {
        DiscoveryFailurePolicy::FailClosed => Err(failure),
        DiscoveryFailurePolicy::ProceedWithKnown => Ok((Seq::empty(), Err(failure))),
    }
}

/// The outcome of a verification, from beginning to end.
pub open spec fn retrieval_outcome(i: RetrievalInputs, o: RetrievalAnswers) -> Result<
    VerifiedContextView,
    AcdpError<Seq<char>>,
> {
    if i.ctx.body.ctx_id@ != i.expected {
        Err(
            AcdpError::ContextIdMismatch {
                requested: i.expected,
                served: i.ctx.body.ctx_id@,
            },
        )
    } else if i.policy.validate_body_schema && o.schema is Err {
        Err(o.schema->Err_0)
    } else {
        outcome_from_hash(i, o)
    }
}

/// [`retrieval_outcome`] from the body's hash on.
pub open spec fn outcome_from_hash(i: RetrievalInputs, o: RetrievalAnswers) -> Result<
    VerifiedContextView,
    AcdpError<Seq<char>>,
> {
    match o.hash {
        Err(e) => Err(e),
        Ok(()) => match receipt_plan(i.policy.receipts, i.ctx.registry_receipt is Some) {
            ReceiptPlan::Skip => outcome_from_discovery(i, None, o),
            ReceiptPlan::Refuse => Err(
                AcdpError::InvalidReceipt(ReceiptFault::RegistryReceiptRequired),
            ),
            ReceiptPlan::Verify => match o.receipt_key {
                Err(e) => Err(e),
                Ok(fingerprint) => outcome_from_receipt(i, fingerprint, o),
            },
        },
    }
}

/// [`retrieval_outcome`] from the verification of the receipt on.
pub open spec fn outcome_from_receipt(
    i: RetrievalInputs,
    fingerprint: Seq<char>,
    o: RetrievalAnswers,
) -> Result<VerifiedContextView, AcdpError<Seq<char>>> {
    match (o.receipt)(fingerprint, i.serving_authority()) {
        Err(e) => Err(e),
        Ok(receipt) => outcome_from_discovery(i, Some(receipt), o),
    }
}

/// [`retrieval_outcome`] from the search for revocations on: the revocations
/// that count are the known ones and, where a search is asked for, those that
/// the cache holds and those that the search finds.
pub open spec fn outcome_from_discovery(
    i: RetrievalInputs,
    receipt: Option<RegistryReceiptView>,
    o: RetrievalAnswers,
) -> Result<VerifiedContextView, AcdpError<Seq<char>>> {
    let known = crate::key_revocation::revocations_view(i.policy.revocations.known@);
    match i.policy.revocations.discover {
        None => outcome_from_revocations(i, receipt, None, known, o),
        Some(discovery) => match discovery_contribution(discovery, (o.discovery)(discovery)) {
            Err(e) => Err(e),
            Ok((found, report)) => outcome_from_revocations(
                i,
                receipt,
                Some(report),
                known + o.facts + found,
                o,
            ),
        },
    }
}

/// [`retrieval_outcome`] from the boundary rule on.
pub open spec fn outcome_from_revocations(
    i: RetrievalInputs,
    receipt: Option<RegistryReceiptView>,
    report: Option<Result<DiscoveryOutcome, AcdpError<Seq<char>>>>,
    effective: Seq<KeyRevocationView>,
    o: RetrievalAnswers,
) -> Result<VerifiedContextView, AcdpError<Seq<char>>> {
    if effective.len() == 0 {
        outcome_from_signature(i, receipt, report, false, o)
    } else {
        match o.revocation_key {
            Err(e) => Err(e),
            Ok(fingerprint) => match crate::revocation::classification(
                effective,
                fingerprint,
                attested_time(receipt),
            ) {
                Err(e) => Err(e),
                Ok(status) => outcome_from_signature(i, receipt, report, status is Some, o),
            },
        }
    }
}

/// When a verified receipt places the publication.
pub open spec fn attested_time(receipt: Option<RegistryReceiptView>) -> Option<Timestamp> {
    match receipt {
        Some(r) => Some(r.created_at),
        None => None,
    }
}

/// [`retrieval_outcome`] from the signature on. A revoked key only ever
/// verifies as one that was used before the boundary; any other key may fall
/// back on a receipt that attests it.
pub open spec fn outcome_from_signature(
    i: RetrievalInputs,
    receipt: Option<RegistryReceiptView>,
    report: Option<Result<DiscoveryOutcome, AcdpError<Seq<char>>>>,
    revoked: bool,
    o: RetrievalAnswers,
) -> Result<VerifiedContextView, AcdpError<Seq<char>>> {
    if revoked && !crate::key_revocation::is_did_key(i.ctx.body.agent_id@) {
        outcome_from_historical(
            i,
            receipt,
            report,
            KeyAuthorization::HistoricallyAuthorizedPreCompromise,
            o,
        )
    } else {
        match o.signature {
            Ok(()) => outcome_from_status(
                i,
                receipt,
                report,
                if revoked {
                    KeyAuthorization::HistoricallyAuthorizedPreCompromise
                } else {
                    KeyAuthorization::CurrentlyAuthorized
                },
            ),
            Err(e) => if !revoked && e is KeyNotAuthorized && i.policy.historical_keys
                == HistoricalKeyPolicy::AcceptWithReceipt && receipt is Some {
                outcome_from_historical(
                    i,
                    receipt,
                    report,
                    KeyAuthorization::HistoricallyAuthorized,
                    o,
                )
            } else {
                Err(e)
            },
        }
    }
}

/// [`retrieval_outcome`] from the check with a retained key on.
pub open spec fn outcome_from_historical(
    i: RetrievalInputs,
    receipt: Option<RegistryReceiptView>,
    report: Option<Result<DiscoveryOutcome, AcdpError<Seq<char>>>>,
    status: KeyAuthorization,
    o: RetrievalAnswers,
) -> Result<VerifiedContextView, AcdpError<Seq<char>>> {
    match o.historical {
        Ok(()) => outcome_from_status(i, receipt, report, status),
        Err(e) => Err(e),
    }
}

/// [`retrieval_outcome`] from the check of the registry's status on.
pub open spec fn outcome_from_status(
    i: RetrievalInputs,
    receipt: Option<RegistryReceiptView>,
    report: Option<Result<DiscoveryOutcome, AcdpError<Seq<char>>>>,
    key_status: KeyAuthorization,
) -> Result<VerifiedContextView, AcdpError<Seq<char>>> {
    match i.ctx.registry_state.status {
        Status::Other(name) if !i.policy.allow_unknown_status => Err(
            AcdpError::SchemaViolation(SchemaFault::UnknownStatus(name@)),
        ),
        _ => Ok(
            VerifiedContextView {
                ctx: i.ctx,
                key_status,
                receipt,
                head_receipt: None,
                head_receipt_stale: None,
                discovery: report,
            },
        ),
    }
}

/// A retrieved context that has been verified.
///
/// Its fields are private, and nothing but a verification makes one, so
/// whoever holds one can rely on it.
#[derive(Debug)]
pub struct VerifiedContext {
    inner: FullContext,
    key_status: KeyAuthorization,
    verified_receipt: Option<RegistryReceipt>,
    verified_head_receipt: Option<LineageHeadReceipt>,
    head_receipt_stale: Option<bool>,
    discovery: Option<Result<DiscoveryOutcome, AcdpError>>,
}

/// An optional report of a search as a contract sees it.
pub open spec fn discovery_view(d: Option<Result<DiscoveryOutcome, AcdpError>>) -> Option<
    Result<DiscoveryOutcome, AcdpError<Seq<char>>>,
> {
    match d {
        Some(r) => Some(crate::error::checked(r)),
        None => None,
    }
}

impl VerifiedContext {
    /// What the verification established.
    pub closed spec fn view(&self) -> VerifiedContextView {
        VerifiedContextView {
            ctx: self.inner,
            key_status: self.key_status,
            receipt: crate::types::receipt_view(self.verified_receipt),
            head_receipt: self.verified_head_receipt,
            head_receipt_stale: self.head_receipt_stale,
            discovery: discovery_view(self.discovery),
        }
    }
}

/// The outcome of a verification as a contract sees it.
pub open spec fn verified_result(r: Result<VerifiedContext, AcdpError>) -> Result<
    VerifiedContextView,
    AcdpError<Seq<char>>,
> {
    match r {
        Ok(v) => Ok(v@),
        Err(e) => Err(e@),
    }
}

enum Stage {
    Schema,
    Hash,
    ReceiptKey,
    Receipt { fingerprint: String },
    Discovery { receipt: Option<RegistryReceipt> },
    RevocationKey {
        receipt: Option<RegistryReceipt>,
        report: Option<Result<DiscoveryOutcome, AcdpError>>,
        effective: Vec<KeyRevocation>,
    },
    Signature {
        receipt: Option<RegistryReceipt>,
        report: Option<Result<DiscoveryOutcome, AcdpError>>,
        revoked: bool,
    },
    Historical {
        receipt: Option<RegistryReceipt>,
        report: Option<Result<DiscoveryOutcome, AcdpError>>,
        status: KeyAuthorization,
    },
}

/// A verification under way.
pub struct Retrieval<'a> {
    ctx: FullContext,
    expected: CtxId,
    policy: &'a VerificationPolicy,
    authority: Option<String>,
    stage: Stage,
}

/// Where a verification has got to.
pub enum Progress<'a> {
    /// Something is to be done.
    Pending(Retrieval<'a>),
    /// The verification is over.
    Finished(Result<VerifiedContext, AcdpError>),
}

impl<'a> Progress<'a> {
    /// What the verification will come to under these answers.
    pub open spec fn outcome(&self, o: RetrievalAnswers) -> Result<
        VerifiedContextView,
        AcdpError<Seq<char>>,
    > {
        match self {
            Progress::Pending(r) => r.outcome(o),
            Progress::Finished(r) => verified_result(*r),
        }
    }
}

/// Whether an event is of the kind that an action gives.
pub open spec fn event_fits(ask: RetrievalAction<Seq<char>>, event: RetrievalEvent) -> bool {
    match ask {
        RetrievalAction::ValidateBody => event is Checked,
        RetrievalAction::VerifyBodyHash => event is Checked,
        RetrievalAction::FingerprintSigningKey(_) => event is Fingerprint,
        RetrievalAction::VerifyReceipt { .. } => event is Receipt,
        RetrievalAction::Discover(_) => event is Discovered,
        RetrievalAction::VerifySignature => event is Checked,
        RetrievalAction::VerifySignatureHistorical => event is Checked,
    }
}

/// Whether an event is the answer, among these, to what was asked.
pub open spec fn is_answer(
    ask: RetrievalAction<Seq<char>>,
    event: RetrievalEvent,
    o: RetrievalAnswers,
) -> bool {
    match (ask, event) {
        (RetrievalAction::ValidateBody, RetrievalEvent::Checked(r)) => crate::error::checked(r)
            == o.schema,
        (RetrievalAction::VerifyBodyHash, RetrievalEvent::Checked(r)) => crate::error::checked(r)
            == o.hash,
        (
            RetrievalAction::FingerprintSigningKey(KeyUse::Receipt),
            RetrievalEvent::Fingerprint(r),
        ) => text_result(r) == o.receipt_key,
        (
            RetrievalAction::VerifyReceipt { fingerprint, serving_authority },
            RetrievalEvent::Receipt(r),
        ) => receipt_result(r) == (o.receipt)(fingerprint, serving_authority),
        (RetrievalAction::Discover(d), RetrievalEvent::Discovered { run, facts }) => run@
            == (o.discovery)(d) && crate::key_revocation::revocations_view(facts@) == o.facts,
        (
            RetrievalAction::FingerprintSigningKey(KeyUse::Revocations),
            RetrievalEvent::Fingerprint(r),
        ) => text_result(r) == o.revocation_key,
        (RetrievalAction::VerifySignature, RetrievalEvent::Checked(r)) => crate::error::checked(r)
            == o.signature,
        (RetrievalAction::VerifySignatureHistorical, RetrievalEvent::Checked(r)) =>
            crate::error::checked(r) == o.historical,
        _ => false,
    }
}

impl<'a> Retrieval<'a> {
    /// What the verification works on.
    pub closed spec fn inputs(&self) -> RetrievalInputs {
        RetrievalInputs {
            ctx: self.ctx,
            expected: self.expected@,
            policy: *self.policy,
            authority: crate::error::opt_text(self.authority),
        }
    }

    /// What is to be done next.
    pub closed spec fn asks(&self) -> RetrievalAction<Seq<char>> {
        match self.stage {
            Stage::Schema => RetrievalAction::ValidateBody,
            Stage::Hash => RetrievalAction::VerifyBodyHash,
            Stage::ReceiptKey => RetrievalAction::FingerprintSigningKey(KeyUse::Receipt),
            Stage::Receipt { fingerprint } => RetrievalAction::VerifyReceipt {
                fingerprint: fingerprint@,
                serving_authority: self.inputs().serving_authority(),
            },
            Stage::Discovery { .. } => match self.policy.revocations.discover {
                Some(d) => RetrievalAction::Discover(d),
                None => RetrievalAction::VerifySignature,
            },
            Stage::RevocationKey { .. } => RetrievalAction::FingerprintSigningKey(
                KeyUse::Revocations,
            ),
            Stage::Signature { .. } => RetrievalAction::VerifySignature,
            Stage::Historical { .. } => RetrievalAction::VerifySignatureHistorical,
        }
    }

    /// What the verification will come to under these answers.
    pub closed spec fn outcome(&self, o: RetrievalAnswers) -> Result<
        VerifiedContextView,
        AcdpError<Seq<char>>,
    > {
        let i = self.inputs();
        match self.stage {
            Stage::Schema => if o.schema is Err {
                Err(o.schema->Err_0)
            } else {
                outcome_from_hash(i, o)
            },
            Stage::Hash => outcome_from_hash(i, o),
            Stage::ReceiptKey => match o.receipt_key {
                Err(e) => Err(e),
                Ok(fingerprint) => outcome_from_receipt(i, fingerprint, o),
            },
            Stage::Receipt { fingerprint } => outcome_from_receipt(i, fingerprint@, o),
            Stage::Discovery { receipt } => outcome_from_discovery(
                i,
                crate::types::receipt_view(receipt),
                o,
            ),
            Stage::RevocationKey { receipt, report, effective } => outcome_from_revocations(
                i,
                crate::types::receipt_view(receipt),
                discovery_view(report),
                crate::key_revocation::revocations_view(effective@),
                o,
            ),
            Stage::Signature { receipt, report, revoked } => outcome_from_signature(
                i,
                crate::types::receipt_view(receipt),
                discovery_view(report),
                revoked,
                o,
            ),
            Stage::Historical { receipt, report, status } => outcome_from_historical(
                i,
                crate::types::receipt_view(receipt),
                discovery_view(report),
                status,
                o,
            ),
        }
    }

    /// The receipt, once it has been verified.
    pub closed spec fn attested(&self) -> Option<RegistryReceiptView> {
        match self.stage {
            Stage::Discovery { receipt } => crate::types::receipt_view(receipt),
            Stage::RevocationKey { receipt, .. } => crate::types::receipt_view(receipt),
            Stage::Signature { receipt, .. } => crate::types::receipt_view(receipt),
            Stage::Historical { receipt, .. } => crate::types::receipt_view(receipt),
            _ => None,
        }
    }

    /// The revocations that the signing key is about to be held against.
    pub closed spec fn weighed(&self) -> Seq<KeyRevocationView> {
        match self.stage {
            Stage::RevocationKey { effective, .. } => crate::key_revocation::revocations_view(
                effective@,
            ),
            _ => Seq::empty(),
        }
    }

    /// How many actions can at most still be asked for.
    pub closed spec fn remaining(&self) -> nat {
        match self.stage {
            Stage::Schema => 8,
            Stage::Hash => 7,
            Stage::ReceiptKey => 6,
            Stage::Receipt { .. } => 5,
            Stage::Discovery { .. } => 4,
            Stage::RevocationKey { .. } => 3,
            Stage::Signature { .. } => 2,
            Stage::Historical { .. } => 1,
        }
    }

    /// Whether the verification is in one of the states that it can be in.
    pub closed spec fn well_formed(&self) -> bool {
        match self.stage {
            Stage::Discovery { .. } => self.policy.revocations.discover is Some,
            Stage::RevocationKey { effective, .. } => effective@.len() > 0,
            Stage::Signature { revoked, .. } => revoked ==> crate::key_revocation::is_did_key(
                self.ctx.body.agent_id@,
            ),
            _ => true,
        }
    }
}

impl<'a> Retrieval<'a> {
    /// Begins the verification of a context that was requested as `expected`
    /// from the registry at `authority`. Where another context was served,
    /// the verification is over before anything else is done.
    pub fn start(
        ctx: FullContext,
        expected: CtxId,
        policy: &'a VerificationPolicy,
        authority: Option<String>,
    ) -> (progress: Progress<'a>)
        ensures
            ({
                let i = RetrievalInputs {
                    ctx,
                    expected: expected@,
                    policy: *policy,
                    authority: crate::error::opt_text(authority),
                };
                &&& forall|o: RetrievalAnswers| #[trigger]
                    progress.outcome(o) == retrieval_outcome(i, o)
                &&& progress matches Progress::Pending(r) ==> {
                    &&& r.well_formed()
                    &&& r.inputs() == i
                    &&& r.remaining() <= 8
                    &&& r.attested() is None
                    &&& r.asks() == if policy.validate_body_schema {
                        RetrievalAction::<Seq<char>>::ValidateBody
                    } else {
                        RetrievalAction::<Seq<char>>::VerifyBodyHash
                    }
                }
                &&& progress is Finished <==> ctx.body.ctx_id@ != expected@
            }),
    {
        if !ctx.body.ctx_id.same(&expected) {
            let served: String = ctx.body.ctx_id.0.clone();
            return Progress::Finished(
                Err(AcdpError::ContextIdMismatch { requested: expected.0, served }),
            );
        }
        let stage: Stage = if policy.validate_body_schema {
            Stage::Schema
        } else {
            Stage::Hash
        };
        Progress::Pending(Retrieval { ctx, expected, policy, authority, stage })
    }

    /// The context under verification.
    pub fn context(&self) -> (ctx: &FullContext)
        ensures
            *ctx == self.inputs().ctx,
    {
        &self.ctx
    }

    /// What is to be done next.
    pub fn action(&self) -> (action: RetrievalAction)
        requires
            self.well_formed(),
        ensures
            action@ == self.asks(),
    {
        match &self.stage {
            Stage::Schema => RetrievalAction::ValidateBody,
            Stage::Hash => RetrievalAction::VerifyBodyHash,
            Stage::ReceiptKey => RetrievalAction::FingerprintSigningKey(KeyUse::Receipt),
            Stage::Receipt { fingerprint } => RetrievalAction::VerifyReceipt {
                fingerprint: fingerprint.clone(),
                serving_authority: self.serving_authority(),
            },
            Stage::Discovery { .. } => match self.policy.revocations.discover {
                Some(d) => RetrievalAction::Discover(d),
                None => RetrievalAction::VerifySignature,
            },
            Stage::RevocationKey { .. } => RetrievalAction::FingerprintSigningKey(
                KeyUse::Revocations,
            ),
            Stage::Signature { .. } => RetrievalAction::VerifySignature,
            Stage::Historical { .. } => RetrievalAction::VerifySignatureHistorical,
        }
    }

    fn serving_authority(&self) -> (authority: String)
        ensures
            authority@ == self.inputs().serving_authority(),
    {
        match &self.authority {
            Some(a) => a.clone(),
            None => self.expected.authority().to_owned(),
        }
    }

    /// Goes on with what came of the action.
    ///
    /// Whatever answers the work gives, the outcome that they lead to stays
    /// the same, and fewer actions remain. A failure ends the verification,
    /// but for the one that a retained key may still make good; so does a
    /// revocation that rules the signing key out, before the signature is
    /// looked at.
    pub fn advance(self, event: RetrievalEvent) -> (progress: Progress<'a>)
        requires
            self.well_formed(),
            event_fits(self.asks(), event),
        ensures
            forall|o: RetrievalAnswers|
                is_answer(self.asks(), event, o) ==> #[trigger] progress.outcome(o) == self.outcome(
                    o,
                ),
            progress matches Progress::Pending(r) ==> r.well_formed() && r.inputs()
                == self.inputs() && r.remaining() < self.remaining(),
            event.fails() && self.asks() !is VerifySignature ==> progress is Finished,
            self.asks() is VerifyBodyHash && self.inputs().policy.receipts == ReceiptPolicy::Require
                && self.inputs().ctx.registry_receipt is None ==> progress is Finished,
            (self.asks(), event) matches (
                RetrievalAction::Discover(d),
                RetrievalEvent::Discovered { run, .. },
            ) ==> discovery_contribution(d, run@) is Err ==> progress is Finished,
            progress matches Progress::Pending(r) ==> r.attested() == match event {
                RetrievalEvent::Receipt(Ok(receipt)) => Some(receipt@),
                _ => self.attested(),
            },
            progress matches Progress::Pending(r) ==> r.asks()
                == RetrievalAction::<Seq<char>>::FingerprintSigningKey(KeyUse::Revocations)
                ==> r.weighed() == crate::key_revocation::revocations_view(
                self.inputs().policy.revocations.known@,
            ) + match (self.asks(), event) {
                (RetrievalAction::Discover(d), RetrievalEvent::Discovered { run, facts }) =>
                    crate::key_revocation::revocations_view(facts@) + discovery_contribution(
                    d,
                    run@,
                )->Ok_0.0,
                _ => Seq::empty(),
            },
            self.asks() == RetrievalAction::<Seq<char>>::FingerprintSigningKey(KeyUse::Revocations)
                ==> (event matches RetrievalEvent::Fingerprint(Ok(fingerprint)) ==> (
            progress is Finished <==> crate::revocation::classification(
                self.weighed(),
                fingerprint@,
                attested_time(self.attested()),
            ) is Err)),
            self.asks() is VerifySignatureHistorical ==> progress is Finished,
            self.asks() is VerifySignature ==> (progress matches Progress::Pending(r) ==> {
                &&& event matches RetrievalEvent::Checked(Err(e))
                &&& e is KeyNotAuthorized
                &&& r.asks() is VerifySignatureHistorical
                &&& self.inputs().policy.historical_keys == HistoricalKeyPolicy::AcceptWithReceipt
            }),
    {
        let Retrieval { ctx, expected, policy, authority, stage } = self;
        match (stage, event) {
            (Stage::Schema, RetrievalEvent::Checked(r)) => match r {
                Err(e) => Progress::Finished(Err(e)),
                Ok(()) => Progress::Pending(
                    Retrieval { ctx, expected, policy, authority, stage: Stage::Hash },
                ),
            },
            (Stage::Hash, RetrievalEvent::Checked(r)) => match r {
                Err(e) => Progress::Finished(Err(e)),
                Ok(()) => match plan_receipt(policy.receipts, ctx.registry_receipt.is_some()) {
                    ReceiptPlan::Skip => Self::search(ctx, expected, policy, authority, None),
                    ReceiptPlan::Refuse => Progress::Finished(
                        Err(AcdpError::InvalidReceipt(ReceiptFault::RegistryReceiptRequired)),
                    ),
                    ReceiptPlan::Verify => Progress::Pending(
                        Retrieval { ctx, expected, policy, authority, stage: Stage::ReceiptKey },
                    ),
                },
            },
            (Stage::ReceiptKey, RetrievalEvent::Fingerprint(r)) => match r {
                Err(e) => Progress::Finished(Err(e)),
                Ok(fingerprint) => Progress::Pending(
                    Retrieval {
                        ctx,
                        expected,
                        policy,
                        authority,
                        stage: Stage::Receipt { fingerprint },
                    },
                ),
            },
            (Stage::Receipt { .. }, RetrievalEvent::Receipt(r)) => match r {
                Err(e) => Progress::Finished(Err(e)),
                Ok(receipt) => Self::search(ctx, expected, policy, authority, Some(receipt)),
            },
            (Stage::Discovery { receipt }, RetrievalEvent::Discovered { run, facts }) => {
                let mut facts: Vec<KeyRevocation> = facts;
                let discovery: RevocationDiscovery = match policy.revocations.discover {
                    Some(d) => d,
                    None => {
                        return Progress::Pending(
                            Retrieval {
                                ctx,
                                expected,
                                policy,
                                authority,
                                stage: Stage::Discovery { receipt },
                            },
                        );
                    },
                };
                let ghost cached = facts@;
                match conclude_discovery(&discovery, run) {
                    Err(e) => Progress::Finished(Err(e)),
                    Ok((found, report)) => {
                        let mut found: Vec<KeyRevocation> = found;
                        let ghost newly = found@;
                        let mut effective: Vec<KeyRevocation> = copy_revocations(
                            &policy.revocations.known,
                        );
                        effective.append(&mut facts);
                        effective.append(&mut found);
                        proof {
                            assert(effective@ =~= policy.revocations.known@ + cached + newly);
                            lemma_views_add(policy.revocations.known@, cached);
                            lemma_views_add(policy.revocations.known@ + cached, newly);
                        }
                        Self::apply_boundary(
                            ctx,
                            expected,
                            policy,
                            authority,
                            receipt,
                            Some(report),
                            effective,
                        )
                    },
                }
            },
            (
                Stage::RevocationKey { receipt, report, effective },
                RetrievalEvent::Fingerprint(r),
            ) => match r {
                Err(e) => Progress::Finished(Err(e)),
                Ok(fingerprint) => {
                    let placed: Option<Timestamp> = match &receipt {
                        Some(r) => Some(r.created_at),
                        None => None,
                    };
                    match classify_under_revocation(&effective, fingerprint.as_str(), placed) {
                        Err(e) => Progress::Finished(Err(e)),
                        Ok(status) => Self::sign(
                            ctx,
                            expected,
                            policy,
                            authority,
                            receipt,
                            report,
                            status.is_some(),
                        ),
                    }
                },
            },
            (Stage::Signature { receipt, report, revoked }, RetrievalEvent::Checked(r)) => {
                match r {
                    Ok(()) => {
                        let status: KeyAuthorization = if revoked {
                            KeyAuthorization::HistoricallyAuthorizedPreCompromise
                        } else {
                            KeyAuthorization::CurrentlyAuthorized
                        };
                        Progress::Finished(finish(ctx, policy, receipt, report, status))
                    },
                    Err(e) => {
                        let not_authorized: bool = match &e {
                            AcdpError::KeyNotAuthorized(_) => true,
                            _ => false,
                        };
                        if !revoked && not_authorized && policy.historical_keys
                            == HistoricalKeyPolicy::AcceptWithReceipt && receipt.is_some() {
                            Progress::Pending(
                                Retrieval {
                                    ctx,
                                    expected,
                                    policy,
                                    authority,
                                    stage: Stage::Historical {
                                        receipt,
                                        report,
                                        status: KeyAuthorization::HistoricallyAuthorized,
                                    },
                                },
                            )
                        } else {
                            Progress::Finished(Err(e))
                        }
                    },
                }
            },
            (Stage::Historical { receipt, report, status }, RetrievalEvent::Checked(r)) => {
                match r {
                    Ok(()) => Progress::Finished(finish(ctx, policy, receipt, report, status)),
                    Err(e) => Progress::Finished(Err(e)),
                }
            },
            (stage, _) => Progress::Pending(
                Retrieval { ctx, expected, policy, authority, stage },
            ),
        }
    }

    fn search(
        ctx: FullContext,
        expected: CtxId,
        policy: &'a VerificationPolicy,
        authority: Option<String>,
        receipt: Option<RegistryReceipt>,
    ) -> (progress: Progress<'a>)
        ensures
            ({
                let i = RetrievalInputs {
                    ctx,
                    expected: expected@,
                    policy: *policy,
                    authority: crate::error::opt_text(authority),
                };
                &&& forall|o: RetrievalAnswers| #[trigger]
                    progress.outcome(o) == outcome_from_discovery(
                        i,
                        crate::types::receipt_view(receipt),
                        o,
                    )
                &&& progress matches Progress::Pending(r) ==> {
                    &&& r.well_formed()
                    &&& r.inputs() == i
                    &&& r.remaining() <= 4
                    &&& r.attested() == crate::types::receipt_view(receipt)
                    &&& r.asks() is FingerprintSigningKey ==> r.weighed()
                        == crate::key_revocation::revocations_view(policy.revocations.known@)
                }
            }),
    {
        if policy.revocations.discover.is_some() {
            return Progress::Pending(
                Retrieval { ctx, expected, policy, authority, stage: Stage::Discovery { receipt } },
            );
        }
        let effective: Vec<KeyRevocation> = copy_revocations(&policy.revocations.known);
        Self::apply_boundary(ctx, expected, policy, authority, receipt, None, effective)
    }

    fn apply_boundary(
        ctx: FullContext,
        expected: CtxId,
        policy: &'a VerificationPolicy,
        authority: Option<String>,
        receipt: Option<RegistryReceipt>,
        report: Option<Result<DiscoveryOutcome, AcdpError>>,
        effective: Vec<KeyRevocation>,
    ) -> (progress: Progress<'a>)
        ensures
            ({
                let i = RetrievalInputs {
                    ctx,
                    expected: expected@,
                    policy: *policy,
                    authority: crate::error::opt_text(authority),
                };
                &&& forall|o: RetrievalAnswers| #[trigger]
                    progress.outcome(o) == outcome_from_revocations(
                        i,
                        crate::types::receipt_view(receipt),
                        discovery_view(report),
                        crate::key_revocation::revocations_view(effective@),
                        o,
                    )
                &&& progress matches Progress::Pending(r) ==> {
                    &&& r.well_formed()
                    &&& r.inputs() == i
                    &&& r.remaining() <= 3
                    &&& r.attested() == crate::types::receipt_view(receipt)
                    &&& r.asks() is FingerprintSigningKey ==> r.weighed()
                        == crate::key_revocation::revocations_view(effective@)
                }
            }),
    {
        if effective.len() == 0 {
            return Self::sign(ctx, expected, policy, authority, receipt, report, false);
        }
        Progress::Pending(
            Retrieval {
                ctx,
                expected,
                policy,
                authority,
                stage: Stage::RevocationKey { receipt, report, effective },
            },
        )
    }

    fn sign(
        ctx: FullContext,
        expected: CtxId,
        policy: &'a VerificationPolicy,
        authority: Option<String>,
        receipt: Option<RegistryReceipt>,
        report: Option<Result<DiscoveryOutcome, AcdpError>>,
        revoked: bool,
    ) -> (progress: Progress<'a>)
        ensures
            ({
                let i = RetrievalInputs {
                    ctx,
                    expected: expected@,
                    policy: *policy,
                    authority: crate::error::opt_text(authority),
                };
                &&& forall|o: RetrievalAnswers| #[trigger]
                    progress.outcome(o) == outcome_from_signature(
                        i,
                        crate::types::receipt_view(receipt),
                        discovery_view(report),
                        revoked,
                        o,
                    )
                &&& progress matches Progress::Pending(r)
                &&& r.well_formed()
                &&& r.inputs() == i
                &&& r.remaining() <= 2
                &&& r.attested() == crate::types::receipt_view(receipt)
                &&& r.asks() !is FingerprintSigningKey
            }),
    {
        let stage: Stage = if revoked && !starts_with(ctx.body.agent_id.as_str(), "did:key:") {
            Stage::Historical {
                receipt,
                report,
                status: KeyAuthorization::HistoricallyAuthorizedPreCompromise,
            }
        } else {
            Stage::Signature { receipt, report, revoked }
        };
        Progress::Pending(Retrieval { ctx, expected, policy, authority, stage })
    }
}

fn finish(
    ctx: FullContext,
    policy: &VerificationPolicy,
    receipt: Option<RegistryReceipt>,
    report: Option<Result<DiscoveryOutcome, AcdpError>>,
    key_status: KeyAuthorization,
) -> (r: Result<VerifiedContext, AcdpError>)
    ensures
        forall|i: RetrievalInputs|
            i.ctx == ctx && i.policy == *policy ==> verified_result(r)
                == #[trigger] outcome_from_status(
                i,
                crate::types::receipt_view(receipt),
                discovery_view(report),
                key_status,
            ),
{
    if !policy.allow_unknown_status {
        if let Status::Other(name) = &ctx.registry_state.status {
            return Err(AcdpError::SchemaViolation(SchemaFault::UnknownStatus(name.clone())));
        }
    }
    Ok(
        VerifiedContext {
            inner: ctx,
            key_status,
            verified_receipt: receipt,
            verified_head_receipt: None,
            head_receipt_stale: None,
            discovery: report,
        },
    )
}

/// What a search for revocations contributes to a verification.
pub fn conclude_discovery(discovery: &RevocationDiscovery, run: DiscoveryRun) -> (r: Result<
    (Vec<KeyRevocation>, Result<DiscoveryOutcome, AcdpError>),
    AcdpError,
>)
    ensures
        match r {
            Ok((found, report)) => discovery_contribution(*discovery, run@) == Ok::<
                (Seq<KeyRevocationView>, Result<DiscoveryOutcome, AcdpError<Seq<char>>>),
                AcdpError<Seq<char>>,
            >(
                (
                    crate::key_revocation::revocations_view(found@),
                    crate::error::checked(report),
                ),
            ),
            Err(e) => discovery_contribution(*discovery, run@) == Err::<
                (Seq<KeyRevocationView>, Result<DiscoveryOutcome, AcdpError<Seq<char>>>),
                AcdpError<Seq<char>>,
            >(e@),
        },
{
    match run {
        DiscoveryRun::Completed { producer_signed, registry_attested } => {
            let mut found: Vec<KeyRevocation> = producer_signed;
            let mut attested: Vec<KeyRevocation> = registry_attested;
            let outcome: DiscoveryOutcome = DiscoveryOutcome {
                producer_signed: found.len(),
                registry_attested: if discovery.include_registry_attested {
                    Some(attested.len())
                } else {
                    None
                },
            };
            proof {
                lemma_views_add(found@, attested@);
                assert(crate::key_revocation::revocations_view(found@)
                    =~= crate::key_revocation::revocations_view(found@) + Seq::empty());
            }
            if discovery.include_registry_attested {
                found.append(&mut attested);
            }
            Ok((found, Ok(outcome)))
        },
        DiscoveryRun::Failed(e) => conclude_failure(discovery, e),
        DiscoveryRun::TimedOut => conclude_failure(
            discovery,
            AcdpError::CrossRegistryResolutionFailed(
                ResolutionFault::DiscoveryTimeout { allowed: discovery.total_timeout },
            ),
        ),
    }
}

fn conclude_failure(discovery: &RevocationDiscovery, cause: AcdpError) -> (r: Result<
    (Vec<KeyRevocation>, Result<DiscoveryOutcome, AcdpError>),
    AcdpError,
>)
    ensures
        match r {
            Ok((found, report)) => discovery_failure(*discovery, cause@) == Ok::<
                (Seq<KeyRevocationView>, Result<DiscoveryOutcome, AcdpError<Seq<char>>>),
                AcdpError<Seq<char>>,
            >(
                (
                    crate::key_revocation::revocations_view(found@),
                    crate::error::checked(report),
                ),
            ),
            Err(e) => discovery_failure(*discovery, cause@) == Err::<
                (Seq<KeyRevocationView>, Result<DiscoveryOutcome, AcdpError<Seq<char>>>),
                AcdpError<Seq<char>>,
            >(e@),
        },
{
    let failure: AcdpError = AcdpError::RevocationDiscoveryFailed { source: Box::new(cause) };
    match discovery.on_failure {
        DiscoveryFailurePolicy::FailClosed => Err(failure),
        DiscoveryFailurePolicy::ProceedWithKnown => {
            let found: Vec<KeyRevocation> = Vec::new();
            proof {
                assert(crate::key_revocation::revocations_view(found@) =~= Seq::empty());
            }
            Ok((found, Err(failure)))
        },
    }
}

/// Reading two lists one after the other is reading the joined list.
pub proof fn lemma_views_add(a: Seq<KeyRevocation>, b: Seq<KeyRevocation>)
    ensures
        crate::key_revocation::revocations_view(a + b) == crate::key_revocation::revocations_view(
            a,
        ) + crate::key_revocation::revocations_view(b),
{
    assert(crate::key_revocation::revocations_view(a + b)
        =~= crate::key_revocation::revocations_view(a) + crate::key_revocation::revocations_view(
        b,
    ));
}

/// The recorded answers to everything that a verification may ask for.
#[derive(Debug, PartialEq, Eq)]
pub struct RetrievalEvidence {
    pub schema: Result<(), AcdpError>,
    pub hash: Result<(), AcdpError>,
    pub receipt_key: Result<String, AcdpError>,
    pub receipt: Result<RegistryReceipt, AcdpError>,
    pub discovery: DiscoveryRun,
    pub facts: Vec<KeyRevocation>,
    pub revocation_key: Result<String, AcdpError>,
    pub signature: Result<(), AcdpError>,
    pub historical: Result<(), AcdpError>,
}

impl RetrievalEvidence {
    /// The answers as a contract sees them.
    pub open spec fn view(&self) -> RetrievalAnswers {
        RetrievalAnswers {
            schema: crate::error::checked(self.schema),
            hash: crate::error::checked(self.hash),
            receipt_key: text_result(self.receipt_key),
            receipt: |fingerprint: Seq<char>, serving_authority: Seq<char>|
                receipt_result(self.receipt),
            discovery: |d: RevocationDiscovery| self.discovery@,
            facts: crate::key_revocation::revocations_view(self.facts@),
            revocation_key: text_result(self.revocation_key),
            signature: crate::error::checked(self.signature),
            historical: crate::error::checked(self.historical),
        }
    }

    /// The recorded answer to an action.
    pub fn event(&self, action: &RetrievalAction) -> (event: RetrievalEvent)
        ensures
            event_fits(action@, event),
            is_answer(action@, event, self@),
    {
        match action {
            RetrievalAction::ValidateBody => RetrievalEvent::Checked(copy_check(&self.schema)),
            RetrievalAction::VerifyBodyHash => RetrievalEvent::Checked(copy_check(&self.hash)),
            RetrievalAction::FingerprintSigningKey(KeyUse::Receipt) => {
                RetrievalEvent::Fingerprint(copy_text(&self.receipt_key))
            },
            RetrievalAction::FingerprintSigningKey(KeyUse::Revocations) => {
                RetrievalEvent::Fingerprint(copy_text(&self.revocation_key))
            },
            RetrievalAction::VerifyReceipt { .. } => RetrievalEvent::Receipt(
                match &self.receipt {
                    Ok(r) => Ok(r.clone()),
                    Err(e) => Err(e.clone()),
                },
            ),
            RetrievalAction::Discover(_) => RetrievalEvent::Discovered {
                run: self.discovery.clone(),
                facts: copy_revocations(&self.facts),
            },
            RetrievalAction::VerifySignature => RetrievalEvent::Checked(
                copy_check(&self.signature),
            ),
            RetrievalAction::VerifySignatureHistorical => RetrievalEvent::Checked(
                copy_check(&self.historical),
            ),
        }
    }
}

fn copy_text(r: &Result<String, AcdpError>) -> (copy: Result<String, AcdpError>)
    ensures
        text_result(copy) == text_result(*r),
{
    match r {
        Ok(t) => Ok(t.clone()),
        Err(e) => Err(e.clone()),
    }
}

impl Clone for DiscoveryRun {
    fn clone(&self) -> (copy: Self)
        ensures
            copy@ == self@,
    {
        match self {
            DiscoveryRun::Completed { producer_signed, registry_attested } => {
                DiscoveryRun::Completed {
                    producer_signed: copy_revocations(producer_signed),
                    registry_attested: copy_revocations(registry_attested),
                }
            },
            DiscoveryRun::Failed(e) => DiscoveryRun::Failed(e.clone()),
            DiscoveryRun::TimedOut => DiscoveryRun::TimedOut,
        }
    }
}

/// Runs a whole verification from recorded answers.
#[verifier::loop_isolation(false)]
pub fn verify_retrieved(
    ctx: FullContext,
    expected: CtxId,
    policy: &VerificationPolicy,
    authority: Option<String>,
    evidence: &RetrievalEvidence,
) -> (r: Result<VerifiedContext, AcdpError>)
    ensures
        verified_result(r) == retrieval_outcome(
            (RetrievalInputs {
                ctx,
                expected: expected@,
                policy: *policy,
                authority: crate::error::opt_text(authority),
            }),
            evidence@,
        ),
{
    let ghost i = RetrievalInputs {
        ctx,
        expected: expected@,
        policy: *policy,
        authority: crate::error::opt_text(authority),
    };
    let mut progress: Progress<'_> = Retrieval::start(ctx, expected, policy, authority);
    let ghost wanted = retrieval_outcome(i, evidence@);
    assert(progress.outcome(evidence@) == wanted);
    loop
        invariant
            progress.outcome(evidence@) == wanted,
            progress matches Progress::Pending(r) ==> r.well_formed(),
        decreases
            (match progress {
                Progress::Pending(r) => r.remaining() + 1,
                Progress::Finished(_) => 0,
            }),
    {
        match progress {
            Progress::Finished(r) => {
                return r;
            },
            Progress::Pending(retrieval) => {
                let action: RetrievalAction = retrieval.action();
                let event: RetrievalEvent = evidence.event(&action);
                progress = retrieval.advance(event);
                assert(progress.outcome(evidence@) == wanted);
            },
        }
    }
}

/// What the receipt for the head of a lineage must attest: this context, in
/// this version and with this status, as the head of this lineage on this
/// registry.
#[derive(Debug, PartialEq, Eq)]
pub struct HeadReceiptCheck {
    pub lineage_id: LineageId,
    pub ctx_id: CtxId,
    pub version: u64,
    pub status: Status,
    pub serving_authority: String,
    pub registry_did: String,
    /// How far in the future the receipt may lie.
    pub max_clock_skew_seconds: u32,
}

/// What the receipt for the head of a lineage adds to a verified context.
/// `registry_did` and `receipt` are the answers to fetching the registry's
/// identity and to verifying the receipt against it.
pub open spec fn head_outcome(
    v: VerifiedContextView,
    policy: VerificationPolicy,
    registry_did: Result<Seq<char>, AcdpError<Seq<char>>>,
    receipt: Result<LineageHeadReceipt, AcdpError<Seq<char>>>,
    now: Timestamp,
) -> Result<VerifiedContextView, AcdpError<Seq<char>>> {
    match receipt_plan(policy.lineage_head.receipts, v.ctx.lineage_head_receipt is Some) {
        ReceiptPlan::Skip => Ok(v),
        ReceiptPlan::Refuse => Err(AcdpError::InvalidReceipt(ReceiptFault::HeadReceiptRequired)),
        ReceiptPlan::Verify => match registry_did {
            Err(e) => Err(e),
            Ok(_) => match receipt {
                Err(e) => Err(e),
                Ok(receipt) => Ok(
                    VerifiedContextView {
                        head_receipt: Some(receipt),
                        head_receipt_stale: staleness(
                            receipt,
                            policy.lineage_head.max_age_seconds,
                            now,
                        ),
                        ..v
                    },
                ),
            },
        },
    }
}

/// Whether a receipt is older than it should be; none where no age is too
/// old.
pub open spec fn staleness(
    receipt: LineageHeadReceipt,
    max_age_seconds: Option<u32>,
    now: Timestamp,
) -> Option<bool> {
    match max_age_seconds {
        Some(max) => Some(
            now.total_nanos() - receipt.as_of.total_nanos() > max * 1_000_000_000,
        ),
        None => None,
    }
}

impl VerifiedContext {
    /// The verified body.
    pub fn body(&self) -> (body: &Body)
        ensures
            *body == self@.ctx.body,
    {
        &self.inner.body
    }

    /// What the registry says of the context.
    pub fn registry_state(&self) -> (state: &RegistryState)
        ensures
            *state == self@.ctx.registry_state,
    {
        &self.inner.registry_state
    }

    /// The context as it was retrieved.
    pub fn full_context(&self) -> (ctx: &FullContext)
        ensures
            *ctx == self@.ctx,
    {
        &self.inner
    }

    /// How the key that verified the body stands.
    pub fn key_status(&self) -> (status: KeyAuthorization)
        ensures
            status == self@.key_status,
    {
        self.key_status
    }

    /// The verified receipt of the registry, if one was verified.
    pub fn verified_receipt(&self) -> (receipt: Option<&RegistryReceipt>)
        ensures
            match receipt {
                Some(r) => self@.receipt == Some(r@),
                None => self@.receipt is None,
            },
    {
        self.verified_receipt.as_ref()
    }

    /// The verified receipt for the head of the lineage, if one was verified.
    pub fn verified_head_receipt(&self) -> (receipt: Option<&LineageHeadReceipt>)
        ensures
            match receipt {
                Some(r) => self@.head_receipt == Some(*r),
                None => self@.head_receipt is None,
            },
    {
        self.verified_head_receipt.as_ref()
    }

    /// Whether the verified head receipt is older than it should be.
    pub fn head_receipt_stale(&self) -> (stale: Option<bool>)
        ensures
            stale == self@.head_receipt_stale,
    {
        self.head_receipt_stale
    }

    /// The failure of a search for revocations that the policy let pass.
    pub fn revocation_discovery_failure(&self) -> (failure: Option<&AcdpError>)
        ensures
            match failure {
                Some(e) => self@.discovery == Some(
                    Err::<DiscoveryOutcome, AcdpError<Seq<char>>>(e@),
                ),
                None => !(self@.discovery matches Some(Err(_))),
            },
    {
        match &self.discovery {
            Some(Err(e)) => Some(e),
            _ => None,
        }
    }

    /// What the search for revocations did, if there was one.
    pub fn revocation_discovery(&self) -> (report: Option<Result<DiscoveryOutcome, AcdpError>>)
        ensures
            discovery_view(report) == self@.discovery,
    {
        match &self.discovery {
            Some(Ok(outcome)) => Some(Ok(*outcome)),
            Some(Err(e)) => Some(Err(e.clone())),
            None => None,
        }
    }

    /// The registry's receipt as it was sent.
    pub fn receipt(&self) -> (receipt: Option<&serde_json::Value>)
        ensures
            match receipt {
                Some(v) => self@.ctx.registry_receipt == Some(*v),
                None => self@.ctx.registry_receipt is None,
            },
    {
        self.inner.registry_receipt.as_ref()
    }

    /// The receipt for the head of the lineage as it was sent.
    pub fn lineage_head_receipt(&self) -> (receipt: Option<&serde_json::Value>)
        ensures
            match receipt {
                Some(v) => self@.ctx.lineage_head_receipt == Some(*v),
                None => self@.ctx.lineage_head_receipt is None,
            },
    {
        self.inner.lineage_head_receipt.as_ref()
    }

    /// The receipt check of a context that was verified without one: nothing
    /// where the registry sent no receipt, and otherwise what finding the
    /// signing key and verifying the receipt gave.
    pub fn verify_receipt(
        &self,
        fingerprint: Result<String, AcdpError>,
        receipt: Result<RegistryReceipt, AcdpError>,
    ) -> (r: Result<Option<RegistryReceipt>, AcdpError>)
        ensures
            match r {
                Ok(None) => self@.ctx.registry_receipt is None,
                Ok(Some(v)) => self@.ctx.registry_receipt is Some && fingerprint is Ok && receipt
                    == Ok::<RegistryReceipt, AcdpError>(v),
                Err(e) => self@.ctx.registry_receipt is Some && if fingerprint is Err {
                    fingerprint == Err::<String, AcdpError>(e)
                } else {
                    receipt == Err::<RegistryReceipt, AcdpError>(e)
                },
            },
    {
        if self.inner.registry_receipt.is_none() {
            return Ok(None);
        }
        if let Err(e) = fingerprint {
            return Err(e);
        }
        match receipt {
            Ok(v) => Ok(Some(v)),
            Err(e) => Err(e),
        }
    }

    /// What [`Self::verify_receipt`] is to verify the receipt against. The
    /// context's own identifier names the serving authority: every
    /// verification has bound it to the one requested.
    pub fn receipt_check(&self, fingerprint: String) -> (check: RetrievalAction)
        ensures
            check@ == (RetrievalAction::VerifyReceipt {
                fingerprint: fingerprint@,
                serving_authority: crate::types::authority_of(self@.ctx.body.ctx_id@),
            }),
    {
        RetrievalAction::VerifyReceipt {
            fingerprint,
            serving_authority: self.inner.body.ctx_id.authority().to_owned(),
        }
    }

    /// What the receipt for the head of a lineage is to be verified against.
    pub fn head_receipt_check(
        &self,
        lineage_id: &LineageId,
        authority: &Option<String>,
        registry_did: &str,
        policy: &VerificationPolicy,
    ) -> (check: HeadReceiptCheck)
        ensures
            check.lineage_id@ == lineage_id@,
            check.ctx_id@ == self@.ctx.body.ctx_id@,
            check.version == self@.ctx.body.version,
            check.status == self@.ctx.registry_state.status,
            check.serving_authority@ == match *authority {
                Some(a) => a@,
                None => crate::types::authority_of(self@.ctx.body.ctx_id@),
            },
            check.registry_did@ == registry_did@,
            check.max_clock_skew_seconds == policy.lineage_head.max_clock_skew_seconds,
    {
        HeadReceiptCheck {
            lineage_id: lineage_id.clone(),
            ctx_id: self.inner.body.ctx_id.clone(),
            version: self.inner.body.version,
            status: self.inner.registry_state.status.clone(),
            serving_authority: match authority {
                Some(a) => a.clone(),
                None => self.inner.body.ctx_id.authority().to_owned(),
            },
            registry_did: registry_did.to_owned(),
            max_clock_skew_seconds: policy.lineage_head.max_clock_skew_seconds,
        }
    }

    /// Applies the policy for the head of a lineage to a verified context,
    /// given the answers to fetching the registry's identity and to verifying
    /// the head receipt against it. They count only where [`plan_receipt`]
    /// says that the receipt is to be verified.
    pub fn with_head_receipt(
        self,
        policy: &VerificationPolicy,
        registry_did: Result<String, AcdpError>,
        receipt: Result<LineageHeadReceipt, AcdpError>,
        now: Timestamp,
    ) -> (r: Result<VerifiedContext, AcdpError>)
        ensures
            verified_result(r) == head_outcome(
                self@,
                *policy,
                text_result(registry_did),
                crate::error::checked(receipt),
                now,
            ),
    {
        match plan_receipt(
            policy.lineage_head.receipts,
            self.inner.lineage_head_receipt.is_some(),
        ) {
            ReceiptPlan::Skip => Ok(self),
            ReceiptPlan::Refuse => Err(
                AcdpError::InvalidReceipt(ReceiptFault::HeadReceiptRequired),
            ),
            ReceiptPlan::Verify => {
                if let Err(e) = registry_did {
                    return Err(e);
                }
                match receipt {
                    Err(e) => Err(e),
                    Ok(receipt) => {
                        let stale: Option<bool> = match policy.lineage_head.max_age_seconds {
                            Some(max) => Some(receipt.as_of.older_than(max as u64, now)),
                            None => None,
                        };
                        Ok(
                            VerifiedContext {
                                inner: self.inner,
                                key_status: self.key_status,
                                verified_receipt: self.verified_receipt,
                                verified_head_receipt: Some(receipt),
                                head_receipt_stale: stale,
                                discovery: self.discovery,
                            },
                        )
                    },
                }
            },
        }
    }

    /// Verifies the head of a lineage from recorded answers: the context that
    /// the registry served as the head, requested under its own identifier,
    /// and then its head receipt.
    pub fn fetch_current_with_policy(
        served: Result<FullContext, AcdpError>,
        policy: &VerificationPolicy,
        authority: Option<String>,
        evidence: &RetrievalEvidence,
        registry_did: Result<String, AcdpError>,
        receipt: Result<LineageHeadReceipt, AcdpError>,
        now: Timestamp,
    ) -> (r: Result<VerifiedContext, AcdpError>)
        ensures
            verified_result(r) == match served {
                Err(e) => Err(e@),
                Ok(ctx) => match retrieval_outcome(
                    (RetrievalInputs {
                        ctx,
                        expected: ctx.body.ctx_id@,
                        policy: *policy,
                        authority: crate::error::opt_text(authority),
                    }),
                    evidence@,
                ) {
                    Err(e) => Err(e),
                    Ok(v) => head_outcome(
                        v,
                        *policy,
                        text_result(registry_did),
                        crate::error::checked(receipt),
                        now,
                    ),
                },
            },
    {
        match served {
            Err(e) => Err(e),
            Ok(ctx) => {
                let expected: CtxId = ctx.body.ctx_id.clone();
                match verify_retrieved(ctx, expected, policy, authority, evidence) {
                    Err(e) => Err(e),
                    Ok(v) => v.with_head_receipt(policy, registry_did, receipt, now),
                }
            },
        }
    }

    /// Verifies a context from recorded answers: what the registry served for
    /// `ctx_id`, or its failure to serve anything.
    pub fn fetch_with_policy(
        served: Result<FullContext, AcdpError>,
        ctx_id: CtxId,
        policy: &VerificationPolicy,
        authority: Option<String>,
        evidence: &RetrievalEvidence,
    ) -> (r: Result<VerifiedContext, AcdpError>)
        ensures
            verified_result(r) == match served {
                Err(e) => Err(e@),
                Ok(ctx) => retrieval_outcome(
                    (RetrievalInputs {
                        ctx,
                        expected: ctx_id@,
                        policy: *policy,
                        authority: crate::error::opt_text(authority),
                    }),
                    evidence@,
                ),
            },
    {
        match served {
            Err(e) => Err(e),
            Ok(ctx) => verify_retrieved(ctx, ctx_id, policy, authority, evidence),
        }
    }
}

/// A verified context is the very context that was retrieved.
pub proof fn lemma_outcome_keeps_context(i: RetrievalInputs, o: RetrievalAnswers)
    ensures
        retrieval_outcome(i, o) matches Ok(v) ==> v.ctx == i.ctx,
{
}

/// Policies that agree give the same result: two policies that differ, at
/// most, in whether the body's shape is checked come to the same end wherever
/// that check passes or neither makes it.
pub proof fn law_equal_policies_equal_results(
    ctx: FullContext,
    expected: Seq<char>,
    a: VerificationPolicy,
    b: VerificationPolicy,
    authority: Option<Seq<char>>,
    o: RetrievalAnswers,
)
    requires
        a.agrees_but_for_schema(&b),
        o.schema is Ok || a.validate_body_schema == b.validate_body_schema,
    ensures
        retrieval_outcome(RetrievalInputs { ctx, expected, policy: a, authority }, o)
            == retrieval_outcome(RetrievalInputs { ctx, expected, policy: b, authority }, o),
{
}

/// The revocations that a verification applies: the known ones and, where a
/// search is asked for, those that the cache holds and those found.
pub open spec fn effective_revocations(i: RetrievalInputs, o: RetrievalAnswers) -> Seq<
    KeyRevocationView,
> {
    let known = crate::key_revocation::revocations_view(i.policy.revocations.known@);
    match i.policy.revocations.discover {
        None => known,
        Some(d) => match discovery_contribution(d, (o.discovery)(d)) {
            Ok((found, _)) => known + o.facts + found,
            Err(_) => known + o.facts,
        },
    }
}

/// No context verifies but the one that was requested, with its hash
/// recomputed and its signature checked.
pub proof fn law_verified_is_requested_and_checked(i: RetrievalInputs, o: RetrievalAnswers)
    requires
        retrieval_outcome(i, o) is Ok,
    ensures
        i.ctx.body.ctx_id@ == i.expected,
        i.policy.validate_body_schema ==> o.schema is Ok,
        o.hash is Ok,
        o.signature is Ok || o.historical is Ok,
{
}

/// A policy that requires a receipt accepts nothing without a verified one,
/// and a policy that ignores receipts never rests on one.
pub proof fn law_receipt_policy_is_kept(i: RetrievalInputs, o: RetrievalAnswers)
    ensures
        retrieval_outcome(i, o) matches Ok(v) ==> {
            &&& i.policy.receipts == ReceiptPolicy::Require ==> v.receipt is Some
            &&& i.policy.receipts == ReceiptPolicy::Ignore ==> v.receipt is None
            &&& v.receipt matches Some(r) ==> {
                &&& i.ctx.registry_receipt is Some
                &&& o.receipt_key matches Ok(fingerprint)
                &&& (o.receipt)(fingerprint, i.serving_authority()) == Ok::<
                    RegistryReceiptView,
                    AcdpError<Seq<char>>,
                >(r)
            }
        },
{
}

/// A key that is not authorized now counts only on the word of a verified
/// receipt, and one that was merely rotated out only where the policy accepts
/// that.
pub proof fn law_past_keys_need_a_receipt(i: RetrievalInputs, o: RetrievalAnswers)
    ensures
        retrieval_outcome(i, o) matches Ok(v) ==> {
            &&& v.key_status != KeyAuthorization::CurrentlyAuthorized ==> v.receipt is Some
            &&& v.key_status == KeyAuthorization::HistoricallyAuthorized
                ==> i.policy.historical_keys == HistoricalKeyPolicy::AcceptWithReceipt
        },
{
}

/// A revoked key is never reported as current: if any revocation that applies
/// names the signing key, the context verifies only as published before that
/// revocation's boundary, by a verified receipt, and says so.
pub proof fn law_revoked_key_is_never_current(
    i: RetrievalInputs,
    o: RetrievalAnswers,
    fingerprint: Seq<char>,
    k: int,
)
    requires
        o.revocation_key == Ok::<Seq<char>, AcdpError<Seq<char>>>(fingerprint),
        0 <= k < effective_revocations(i, o).len(),
        effective_revocations(i, o)[k].names_key(fingerprint),
    ensures
        retrieval_outcome(i, o) matches Ok(v) ==> {
            &&& v.key_status == KeyAuthorization::HistoricallyAuthorizedPreCompromise
            &&& v.receipt matches Some(r) && r.created_at.is_before(
                effective_revocations(i, o)[k].compromised_since,
            )
        },
{
    crate::key_revocation::law_boundary_is_earliest(effective_revocations(i, o), fingerprint);
}

/// A search for revocations that does not complete fails the verification
/// under the policy that fails closed. Under the policy that goes on, the
/// failure stands in the result.
pub proof fn law_failed_discovery_is_never_silent(
    i: RetrievalInputs,
    o: RetrievalAnswers,
    discovery: RevocationDiscovery,
)
    requires
        i.policy.revocations.discover == Some(discovery),
        !((o.discovery)(discovery) is Completed),
    ensures
        discovery.on_failure == DiscoveryFailurePolicy::FailClosed ==> retrieval_outcome(
            i,
            o,
        ) is Err,
        retrieval_outcome(i, o) matches Ok(v) ==> {
            &&& v.discovery matches Some(Err(e))
            &&& e is RevocationDiscoveryFailed
        },
{
}

/// Without known revocations and without a search, the result does not
/// depend on anything about revocations.
pub proof fn law_no_revocations_no_effect(
    i: RetrievalInputs,
    o: RetrievalAnswers,
    p: RetrievalAnswers,
)
    requires
        i.policy.revocations.known@.len() == 0,
        i.policy.revocations.discover is None,
        p == (RetrievalAnswers {
            discovery: p.discovery,
            facts: p.facts,
            revocation_key: p.revocation_key,
            ..o
        }),
    ensures
        retrieval_outcome(i, o) == retrieval_outcome(i, p),
        retrieval_outcome(i, o) matches Ok(v) ==> v.discovery is None && v.key_status
            != KeyAuthorization::HistoricallyAuthorizedPreCompromise,
{
    assert(crate::key_revocation::revocations_view(i.policy.revocations.known@) =~= Seq::empty());
}

/// Under a policy that ignores receipts, rejects past keys and knows no
/// revocations, only a currently authorized key verifies, on nobody's word
/// but its own.
pub proof fn law_strict_profile_is_strict(i: RetrievalInputs, o: RetrievalAnswers)
    requires
        i.policy.receipts == ReceiptPolicy::Ignore,
        i.policy.historical_keys == HistoricalKeyPolicy::Reject,
        i.policy.revocations.known@.len() == 0,
        i.policy.revocations.discover is None,
    ensures
        retrieval_outcome(i, o) matches Ok(v) ==> {
            &&& v.key_status == KeyAuthorization::CurrentlyAuthorized
            &&& v.receipt is None
            &&& v.discovery is None
            &&& o.signature is Ok
        },
{
    assert(crate::key_revocation::revocations_view(i.policy.revocations.known@) =~= Seq::empty());
}

/// What a cache remembers can only tighten a result: a key that the boundary
/// rule refuses is still refused when the cache holds more, even where the
/// registry no longer shows it.
pub proof fn law_cached_facts_only_tighten(
    i: RetrievalInputs,
    o: RetrievalAnswers,
    more: Seq<KeyRevocationView>,
    fingerprint: Seq<char>,
    attested_at: Option<Timestamp>,
)
    requires
        i.policy.revocations.discover is Some,
        crate::revocation::classification(
            effective_revocations(i, o),
            fingerprint,
            attested_at,
        ) is Err,
    ensures
        crate::revocation::classification(
            effective_revocations(i, RetrievalAnswers { facts: o.facts + more, ..o }),
            fingerprint,
            attested_at,
        ) is Err,
{
    let known = crate::key_revocation::revocations_view(i.policy.revocations.known@);
    let wider = RetrievalAnswers { facts: o.facts + more, ..o };
    let a = effective_revocations(i, o);
    let b = effective_revocations(i, wider);
    assert forall|r: KeyRevocationView| (a + more).contains(r) <==> b.contains(r) by {
        let d = i.policy.revocations.discover.unwrap();
        let found = match discovery_contribution(d, (o.discovery)(d)) {
            Ok((found, _)) => found,
            Err(_) => Seq::empty(),
        };
        assert(a =~= known + o.facts + found);
        assert(b =~= known + (o.facts + more) + found);
        if (a + more).contains(r) {
            let n = choose|n: int| 0 <= n < (a + more).len() && (a + more)[n] == r;
            let m = if n < known.len() + o.facts.len() {
                n
            } else if n < a.len() {
                n + more.len()
            } else {
                n - found.len()
            };
            assert(b[m] == r);
        }
        if b.contains(r) {
            let n = choose|n: int| 0 <= n < b.len() && b[n] == r;
            let head = known.len() + o.facts.len();
            let m = if n < head {
                n
            } else if n < head + more.len() {
                n + found.len()
            } else {
                n - more.len()
            };
            assert((a + more)[m] == r);
        }
    }
    crate::key_revocation::law_boundary_ignores_order_and_repetition(a + more, b, fingerprint);
    crate::revocation::law_more_revocations_never_milder(a, more, fingerprint, attested_at);
}

/// Whether a search that the policy asks for has found a revocation: among
/// those that the producer has signed, or, where those are asked for, among
/// those that the registry attests.
pub open spec fn finds(d: RevocationDiscovery, run: DiscoveryRunView, r: KeyRevocationView) -> bool {
    run matches DiscoveryRunView::Completed { producer_signed, registry_attested } && (
    producer_signed.contains(r) || (d.include_registry_attested && registry_attested.contains(r)))
}

/// Whether a revocation counts for a verification: the policy knows it, or,
/// where the policy asks for a search, a cache held it or the search found it.
pub open spec fn weighs(i: RetrievalInputs, o: RetrievalAnswers, r: KeyRevocationView) -> bool {
    let policy = i.policy.revocations;
    ||| exists|k: int| 0 <= k < policy.known@.len() && (#[trigger] policy.known@[k])@ == r
    ||| policy.discover is Some && o.facts.contains(r)
    ||| policy.discover is Some && finds(
        policy.discover->Some_0,
        (o.discovery)(policy.discover->Some_0),
        r,
    )
}

/// Whether this is what the policy makes of the receipt: it is verified for
/// the signing key and the serving authority where there is one and it is not
/// ignored, and there must be one where it is required.
pub open spec fn receipt_passes(
    i: RetrievalInputs,
    o: RetrievalAnswers,
    receipt: Option<RegistryReceiptView>,
) -> bool {
    let authority = if i.authority is Some {
        i.authority->Some_0
    } else {
        crate::types::authority_of(i.expected)
    };
    if i.policy.receipts is Ignore {
        receipt is None
    } else if i.ctx.registry_receipt is None {
        receipt is None && i.policy.receipts is VerifyIfPresent
    } else {
        &&& o.receipt_key is Ok
        &&& (o.receipt)(o.receipt_key->Ok_0, authority) is Ok
        &&& receipt == Some((o.receipt)(o.receipt_key->Ok_0, authority)->Ok_0)
    }
}

/// Whether this is what the policy makes of the search for revocations: none
/// is made unless asked for; one that has come to an end is reported with how
/// many it found; one that failed or took too long is reported where the
/// policy goes on with what it knows.
pub open spec fn search_passes(
    i: RetrievalInputs,
    o: RetrievalAnswers,
    report: Option<Result<DiscoveryOutcome, AcdpError<Seq<char>>>>,
) -> bool {
    match i.policy.revocations.discover {
        None => report is None,
        Some(d) => match (o.discovery)(d) {
            DiscoveryRunView::Completed { producer_signed, registry_attested } => report == Some(
                Ok::<DiscoveryOutcome, AcdpError<Seq<char>>>(
                    DiscoveryOutcome {
                        producer_signed: producer_signed.len() as usize,
                        registry_attested: if d.include_registry_attested {
                            Some(registry_attested.len() as usize)
                        } else {
                            None
                        },
                    },
                ),
            ),
            DiscoveryRunView::Failed(e) => {
                &&& d.on_failure is ProceedWithKnown
                &&& report == Some(
                    Err::<DiscoveryOutcome, AcdpError<Seq<char>>>(
                        AcdpError::RevocationDiscoveryFailed { source: Box::new(e) },
                    ),
                )
            },
            DiscoveryRunView::TimedOut => {
                &&& d.on_failure is ProceedWithKnown
                &&& report == Some(
                    Err::<DiscoveryOutcome, AcdpError<Seq<char>>>(
                        AcdpError::RevocationDiscoveryFailed {
                            source: Box::new(
                                AcdpError::CrossRegistryResolutionFailed(
                                    ResolutionFault::DiscoveryTimeout { allowed: d.total_timeout },
                                ),
                            ),
                        },
                    ),
                )
            },
        },
    }
}

/// Whether no revocation that counts names the signing key.
pub open spec fn is_unrevoked(i: RetrievalInputs, o: RetrievalAnswers) -> bool {
    ||| forall|r: KeyRevocationView| !#[trigger] weighs(i, o, r)
    ||| o.revocation_key is Ok && forall|r: KeyRevocationView| #[trigger]
        weighs(i, o, r) ==> r.revoked_key_fingerprint != o.revocation_key->Ok_0
}

/// Whether some revocation that counts names the signing key, and a receipt
/// places the publication strictly before the boundary of each that does.
pub open spec fn is_revoked_later(
    i: RetrievalInputs,
    o: RetrievalAnswers,
    receipt: Option<RegistryReceiptView>,
) -> bool {
    &&& o.revocation_key is Ok
    &&& exists|r: KeyRevocationView| #[trigger]
        weighs(i, o, r) && r.revoked_key_fingerprint == o.revocation_key->Ok_0
    &&& receipt is Some
    &&& forall|r: KeyRevocationView| #[trigger]
        weighs(i, o, r) && r.revoked_key_fingerprint == o.revocation_key->Ok_0
            ==> receipt->Some_0.created_at.is_before(r.compromised_since)
}

/// Whether the signature holds and the key is authorized in this way: now;
/// formerly, where the policy takes that with a verified receipt; or formerly
/// and revoked later, in which case the key of a `did:key`, which cannot be
/// taken out of its document, is still the current one.
pub open spec fn signature_passes(
    i: RetrievalInputs,
    o: RetrievalAnswers,
    v: VerifiedContextView,
) -> bool {
    match v.key_status {
        KeyAuthorization::CurrentlyAuthorized => is_unrevoked(i, o) && o.signature is Ok,
        KeyAuthorization::HistoricallyAuthorized => {
            &&& is_unrevoked(i, o)
            &&& o.signature is Err && o.signature->Err_0 is KeyNotAuthorized
            &&& i.policy.historical_keys is AcceptWithReceipt
            &&& v.receipt is Some
            &&& o.historical is Ok
        },
        KeyAuthorization::HistoricallyAuthorizedPreCompromise => {
            &&& is_revoked_later(i, o, v.receipt)
            &&& if "did:key:"@.is_prefix_of(i.ctx.body.agent_id@) {
                o.signature is Ok
            } else {
                o.historical is Ok
            }
        },
    }
}

proof fn lemma_effective_are_weighed(i: RetrievalInputs, o: RetrievalAnswers, r: KeyRevocationView)
    requires
        i.policy.revocations.discover matches Some(d) ==> discovery_contribution(
            d,
            (o.discovery)(d),
        ) is Ok,
    ensures
        effective_revocations(i, o).contains(r) <==> weighs(i, o, r),
{
    let policy = i.policy.revocations;
    let known = crate::key_revocation::revocations_view(policy.known@);
    assert(known.contains(r) <==> exists|k: int|
        0 <= k < policy.known@.len() && (#[trigger] policy.known@[k])@ == r) by {
        if known.contains(r) {
            let k = choose|k: int| 0 <= k < known.len() && known[k] == r;
            assert(policy.known@[k]@ == r);
        }
        if exists|k: int| 0 <= k < policy.known@.len() && (#[trigger] policy.known@[k])@ == r {
            let k = choose|k: int|
                0 <= k < policy.known@.len() && (#[trigger] policy.known@[k])@ == r;
            assert(known[k] == r);
        }
    }
    if let Some(d) = policy.discover {
        let run = (o.discovery)(d);
        let found = discovery_contribution(d, run)->Ok_0.0;
        lemma_contains_of_sum(known + o.facts, found, r);
        lemma_contains_of_sum(known, o.facts, r);
        if let DiscoveryRunView::Completed { producer_signed, registry_attested } = run {
            let attested = if d.include_registry_attested {
                registry_attested
            } else {
                Seq::empty()
            };
            lemma_contains_of_sum(producer_signed, attested, r);
        }
    }
}

proof fn lemma_contains_of_sum<T>(a: Seq<T>, b: Seq<T>, x: T)
    ensures
        (a + b).contains(x) <==> a.contains(x) || b.contains(x),
{
    let s = a + b;
    if s.contains(x) {
        let k = choose|k: int| 0 <= k < s.len() && s[k] == x;
        if k < a.len() {
            assert(a[k] == x);
        } else {
            assert(b[k - a.len()] == x);
        }
    }
    if a.contains(x) {
        let k = choose|k: int| 0 <= k < a.len() && a[k] == x;
        assert(s[k] == x);
    }
    if b.contains(x) {
        let k = choose|k: int| 0 <= k < b.len() && b[k] == x;
        assert(s[k + a.len()] == x);
    }
}

proof fn lemma_how_the_key_stands(
    i: RetrievalInputs,
    o: RetrievalAnswers,
    receipt: Option<RegistryReceiptView>,
)
    requires
        i.policy.revocations.discover matches Some(d) ==> discovery_contribution(
            d,
            (o.discovery)(d),
        ) is Ok,
    ensures
        ({
            let effective = effective_revocations(i, o);
            let c = crate::revocation::classification(
                effective,
                o.revocation_key->Ok_0,
                attested_time(receipt),
            );
            &&& is_unrevoked(i, o) <==> effective.len() == 0 || (o.revocation_key is Ok && c == Ok::<
                Option<KeyAuthorization>,
                AcdpError<Seq<char>>,
            >(None))
            &&& is_revoked_later(i, o, receipt) <==> effective.len() > 0 && o.revocation_key is Ok
                && c is Ok && c->Ok_0 is Some
        }),
{
    let effective = effective_revocations(i, o);
    let key = o.revocation_key->Ok_0;
    crate::revocation::law_every_boundary_decides(effective, key, attested_time(receipt));
    assert forall|r: KeyRevocationView| #[trigger]
        effective.contains(r) <==> weighs(i, o, r) by {
        lemma_effective_are_weighed(i, o, r);
    }
    assert forall|r: KeyRevocationView| #[trigger]
        weighs(i, o, r) <==> effective.contains(r) by {
        lemma_effective_are_weighed(i, o, r);
    }
    if effective.len() > 0 {
        assert(effective.contains(effective[0]));
        assert(weighs(i, o, effective[0]));
    }
}

/// A context verifies exactly if nothing stands against it. It is the one that
/// was asked for; its body is in shape, if the policy asks that, and has its
/// hash; the receipt and the search for revocations pass as the policy wants
/// them; the signature passes; and its status is known or the policy takes
/// unknown ones: which of the known ones it is does not matter. What comes of
/// it is the context itself, with how its key stands, the receipt that was
/// verified and the report of the search.
pub proof fn law_sound_contexts_verify(
    i: RetrievalInputs,
    o: RetrievalAnswers,
    v: VerifiedContextView,
)
    ensures
        retrieval_outcome(i, o) == Ok::<VerifiedContextView, AcdpError<Seq<char>>>(v) <==> {
            &&& i.ctx.body.ctx_id@ == i.expected
            &&& i.policy.validate_body_schema ==> o.schema is Ok
            &&& o.hash is Ok
            &&& receipt_passes(i, o, v.receipt)
            &&& search_passes(i, o, v.discovery)
            &&& signature_passes(i, o, v)
            &&& i.ctx.registry_state.status is Other ==> i.policy.allow_unknown_status
            &&& v.ctx == i.ctx
            &&& v.head_receipt is None
            &&& v.head_receipt_stale is None
        },
{
    let d = i.policy.revocations.discover;
    if d is None || discovery_contribution(d->Some_0, (o.discovery)(d->Some_0)) is Ok {
        let receipt = if receipt_plan(i.policy.receipts, i.ctx.registry_receipt is Some)
            is Verify {
            Some((o.receipt)(o.receipt_key->Ok_0, i.serving_authority())->Ok_0)
        } else {
            None
        };
        lemma_how_the_key_stands(i, o, receipt);
        lemma_how_the_key_stands(i, o, v.receipt);
        crate::revocation::law_every_boundary_decides(
            effective_revocations(i, o),
            o.revocation_key->Ok_0,
            attested_time(receipt),
        );
    }
}

/// Where every other check passes and no revocation that counts names the
/// key, the status of a context is no reason to refuse it, be it active,
/// superseded or retracted, under any policy; one that is not known is a
/// reason exactly if the policy takes no unknown ones.
pub proof fn law_known_statuses_are_no_reason_to_refuse(
    i: RetrievalInputs,
    o: RetrievalAnswers,
    receipt: Option<RegistryReceiptView>,
    report: Option<Result<DiscoveryOutcome, AcdpError<Seq<char>>>>,
)
    requires
        i.ctx.body.ctx_id@ == i.expected,
        i.policy.validate_body_schema ==> o.schema is Ok,
        o.hash is Ok,
        receipt_passes(i, o, receipt),
        search_passes(i, o, report),
        is_unrevoked(i, o),
        o.signature is Ok,
    ensures
        ({
            let passed = Ok::<VerifiedContextView, AcdpError<Seq<char>>>(
                VerifiedContextView {
                    ctx: i.ctx,
                    key_status: KeyAuthorization::CurrentlyAuthorized,
                    receipt,
                    head_receipt: None,
                    head_receipt_stale: None,
                    discovery: report,
                },
            );
            match i.ctx.registry_state.status {
                Status::Active => retrieval_outcome(i, o) == passed,
                Status::Superseded => retrieval_outcome(i, o) == passed,
                Status::Retracted => retrieval_outcome(i, o) == passed,
                Status::Other(name) => retrieval_outcome(i, o) == if i.policy.allow_unknown_status {
                    passed
                } else {
                    Err(AcdpError::SchemaViolation(SchemaFault::UnknownStatus(name@)))
                },
            }
        }),
{
    let v = VerifiedContextView {
        ctx: i.ctx,
        key_status: KeyAuthorization::CurrentlyAuthorized,
        receipt,
        head_receipt: None,
        head_receipt_stale: None,
        discovery: report,
    };
    law_sound_contexts_verify(i, o, v);
    lemma_how_the_key_stands(i, o, receipt);
}

/// A context that does not verify is refused for the first thing that stands
/// against it: that it is another one, its shape, its hash, a receipt that is
/// missing or does not verify, a search that failed where that is not to be
/// tolerated.
pub proof fn law_refusals_name_their_reason(i: RetrievalInputs, o: RetrievalAnswers)
    ensures
        ({
            let r = retrieval_outcome(i, o);
            let asked = i.ctx.body.ctx_id@ == i.expected;
            let shaped = asked && (i.policy.validate_body_schema ==> o.schema is Ok);
            let hashed = shaped && o.hash is Ok;
            let attests = !(i.policy.receipts is Ignore) && i.ctx.registry_receipt is Some;
            let authority = if i.authority is Some {
                i.authority->Some_0
            } else {
                crate::types::authority_of(i.expected)
            };
            let receipt = (o.receipt)(o.receipt_key->Ok_0, authority);
            &&& !asked ==> r == Err::<VerifiedContextView, AcdpError<Seq<char>>>(
                AcdpError::ContextIdMismatch {
                    requested: i.expected,
                    served: i.ctx.body.ctx_id@,
                },
            )
            &&& asked && i.policy.validate_body_schema && o.schema is Err ==> r == Err::<
                VerifiedContextView,
                AcdpError<Seq<char>>,
            >(o.schema->Err_0)
            &&& shaped && o.hash is Err ==> r == Err::<VerifiedContextView, AcdpError<Seq<char>>>(
                o.hash->Err_0,
            )
            &&& hashed && i.policy.receipts is Require && i.ctx.registry_receipt is None ==> r
                == Err::<VerifiedContextView, AcdpError<Seq<char>>>(
                AcdpError::InvalidReceipt(ReceiptFault::RegistryReceiptRequired),
            )
            &&& hashed && attests && o.receipt_key is Err ==> r == Err::<
                VerifiedContextView,
                AcdpError<Seq<char>>,
            >(o.receipt_key->Err_0)
            &&& hashed && attests && o.receipt_key is Ok && receipt is Err ==> r == Err::<
                VerifiedContextView,
                AcdpError<Seq<char>>,
            >(receipt->Err_0)
            &&& forall|passed: Option<RegistryReceiptView>, d: RevocationDiscovery|
                hashed && #[trigger] receipt_passes(i, o, passed)
                    && i.policy.revocations.discover == Some(d) && (d.on_failure is FailClosed)
                    && (#[trigger] (o.discovery)(d)) is Failed ==> r == Err::<
                    VerifiedContextView,
                    AcdpError<Seq<char>>,
                >(
                    AcdpError::RevocationDiscoveryFailed {
                        source: Box::new((o.discovery)(d)->Failed_0),
                    },
                )
        }),
{
}

/// The receipt for a lineage's head is looked at as the policy wants: where
/// it is not ignored and there is one, it must verify and is added, with
/// whether it is older than allowed; there must be one where it is required;
/// else the context stays as it is. Nothing else about the context changes.
pub proof fn law_head_receipts_are_added(
    v: VerifiedContextView,
    policy: VerificationPolicy,
    registry_did: Result<Seq<char>, AcdpError<Seq<char>>>,
    receipt: Result<LineageHeadReceipt, AcdpError<Seq<char>>>,
    now: Timestamp,
    w: VerifiedContextView,
)
    ensures
        head_outcome(v, policy, registry_did, receipt, now) == Ok::<
            VerifiedContextView,
            AcdpError<Seq<char>>,
        >(w) <==> if policy.lineage_head.receipts is Ignore {
            w == v
        } else if v.ctx.lineage_head_receipt is None {
            w == v && policy.lineage_head.receipts is VerifyIfPresent
        } else {
            &&& registry_did is Ok
            &&& receipt is Ok
            &&& w.head_receipt == Some(receipt->Ok_0)
            &&& if policy.lineage_head.max_age_seconds is None {
                w.head_receipt_stale is None
            } else {
                w.head_receipt_stale == Some(
                    now.total_nanos() - receipt->Ok_0.as_of.total_nanos()
                        > policy.lineage_head.max_age_seconds->Some_0 * 1_000_000_000,
                )
            }
            &&& w.ctx == v.ctx
            &&& w.key_status == v.key_status
            &&& w.receipt == v.receipt
            &&& w.discovery == v.discovery
        },
{
}

/// A signature that does not hold is a reason to refuse, and the one given:
/// with the current key where no revocation names it and there is no receipt
/// that a former key may be taken with, and with a former one where the key
/// is taken as such.
pub proof fn law_signature_failures_are_handed_on(
    i: RetrievalInputs,
    o: RetrievalAnswers,
    receipt: Option<RegistryReceiptView>,
    report: Option<Result<DiscoveryOutcome, AcdpError<Seq<char>>>>,
)
    requires
        i.ctx.body.ctx_id@ == i.expected,
        i.policy.validate_body_schema ==> o.schema is Ok,
        o.hash is Ok,
        receipt_passes(i, o, receipt),
        search_passes(i, o, report),
        is_unrevoked(i, o),
        o.signature is Err,
    ensures
        ({
            let former = o.signature->Err_0 is KeyNotAuthorized && i.policy.historical_keys
                is AcceptWithReceipt && receipt is Some;
            &&& !former ==> retrieval_outcome(i, o) == Err::<
                VerifiedContextView,
                AcdpError<Seq<char>>,
            >(o.signature->Err_0)
            &&& former && o.historical is Err ==> retrieval_outcome(i, o) == Err::<
                VerifiedContextView,
                AcdpError<Seq<char>>,
            >(o.historical->Err_0)
        }),
{
    lemma_how_the_key_stands(i, o, receipt);
}

/// A head receipt that is missing or does not verify is a reason to refuse
/// where the policy looks at it, and the one given.
pub proof fn law_head_receipt_failures_are_handed_on(
    v: VerifiedContextView,
    policy: VerificationPolicy,
    registry_did: Result<Seq<char>, AcdpError<Seq<char>>>,
    receipt: Result<LineageHeadReceipt, AcdpError<Seq<char>>>,
    now: Timestamp,
)
    ensures
        ({
            let r = head_outcome(v, policy, registry_did, receipt, now);
            let looks = !(policy.lineage_head.receipts is Ignore) && v.ctx.lineage_head_receipt
                is Some;
            &&& policy.lineage_head.receipts is Require && v.ctx.lineage_head_receipt is None ==> r
                == Err::<VerifiedContextView, AcdpError<Seq<char>>>(
                AcdpError::InvalidReceipt(ReceiptFault::HeadReceiptRequired),
            )
            &&& looks && registry_did is Err ==> r == Err::<
                VerifiedContextView,
                AcdpError<Seq<char>>,
            >(registry_did->Err_0)
            &&& looks && registry_did is Ok && receipt is Err ==> r == Err::<
                VerifiedContextView,
                AcdpError<Seq<char>>,
            >(receipt->Err_0)
        }),
{
}

/// A context whose key is revoked, and which nothing places before every
/// boundary, is refused because of the key; one whose key cannot be told,
/// where any revocation counts, is refused for that.
pub proof fn law_revoked_keys_are_refused(
    i: RetrievalInputs,
    o: RetrievalAnswers,
    receipt: Option<RegistryReceiptView>,
    report: Option<Result<DiscoveryOutcome, AcdpError<Seq<char>>>>,
    r: KeyRevocationView,
)
    requires
        i.ctx.body.ctx_id@ == i.expected,
        i.policy.validate_body_schema ==> o.schema is Ok,
        o.hash is Ok,
        receipt_passes(i, o, receipt),
        search_passes(i, o, report),
        weighs(i, o, r),
    ensures
        o.revocation_key is Err ==> retrieval_outcome(i, o) == Err::<
            VerifiedContextView,
            AcdpError<Seq<char>>,
        >(o.revocation_key->Err_0),
        o.revocation_key is Ok && r.revoked_key_fingerprint == o.revocation_key->Ok_0 && (receipt
            is None || !receipt->Some_0.created_at.is_before(r.compromised_since))
            ==> retrieval_outcome(i, o) is Err && retrieval_outcome(i, o)->Err_0
            is KeyNotAuthorized,
{
    lemma_how_the_key_stands(i, o, receipt);
    lemma_effective_are_weighed(i, o, r);
    crate::revocation::law_every_boundary_decides(
        effective_revocations(i, o),
        o.revocation_key->Ok_0,
        attested_time(receipt),
    );
}

} // verus!
