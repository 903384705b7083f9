//! How strict a reader wants verification to be.

use vstd::prelude::*;
use crate::key_revocation::KeyRevocation;
use crate::time::Span;

verus! {

/// What to do about the receipt that a registry may send along.
#[derive(Clone, Copy, Debug, PartialEq, Eq, Structural)]
pub enum ReceiptPolicy {
    /// Do not look at the receipt. It is kept as it was sent.
    Ignore,
    /// Verify the receipt where there is one; none is fine.
    VerifyIfPresent,
    /// Fail unless there is a receipt and it verifies.
    Require,
}

impl Default for ReceiptPolicy {
    fn default() -> (policy: Self)
        ensures
            policy == ReceiptPolicy::VerifyIfPresent,
    {
        ReceiptPolicy::VerifyIfPresent
    }
}

/// What to do about the receipt for the head of a lineage.
#[derive(Clone, Copy, Debug, PartialEq, Eq, Structural)]
pub struct LineageHeadPolicy {
    pub receipts: ReceiptPolicy,
    /// How far in the future a receipt may lie.
    pub max_clock_skew_seconds: u32,
    /// How old a receipt may be before it is reported as stale. A stale
    /// receipt is still a verified one. `None` reports no staleness.
    pub max_age_seconds: Option<u32>,
}

impl Default for LineageHeadPolicy {
    fn default() -> (policy: Self)
        ensures
            policy == (LineageHeadPolicy {
                receipts: ReceiptPolicy::VerifyIfPresent,
                max_clock_skew_seconds: 120,
                max_age_seconds: Some(300),
            }),
    {
        LineageHeadPolicy {
            receipts: ReceiptPolicy::VerifyIfPresent,
            max_clock_skew_seconds: 120,
            max_age_seconds: Some(300),
        }
    }
}

/// What to do about a key that its producer has rotated out but still lists.
#[derive(Clone, Copy, Debug, PartialEq, Eq, Structural)]
pub enum HistoricalKeyPolicy {
    /// Accept only keys that are authorized now.
    Reject,
    /// Accept a retained key if a verified receipt attests that it was the
    /// authorized one at publish time.
    AcceptWithReceipt,
}

impl Default for HistoricalKeyPolicy {
    fn default() -> (policy: Self)
        ensures
            policy == HistoricalKeyPolicy::AcceptWithReceipt,
    {
        HistoricalKeyPolicy::AcceptWithReceipt
    }
}

/// How the key that verified a context stands today.
#[derive(Clone, Copy, Debug, PartialEq, Eq, Structural)]
pub enum KeyAuthorization {
    /// The key is authorized now.
    CurrentlyAuthorized,
    /// The key was rotated out, and a verified receipt attests that it was
    /// authorized at publish time.
    HistoricallyAuthorized,
    /// The key is revoked, and a verified receipt places the publication
    /// strictly before the compromise boundary. Never reported as current.
    HistoricallyAuthorizedPreCompromise,
}

/// What to do when the search for revocations itself fails.
#[derive(Clone, Copy, Debug, PartialEq, Eq, Structural)]
pub enum DiscoveryFailurePolicy {
    /// Fail the verification.
    FailClosed,
    /// Go on with the revocations that are known anyway.
    ProceedWithKnown,
}

impl Default for DiscoveryFailurePolicy {
    fn default() -> (policy: Self)
        ensures
            policy == DiscoveryFailurePolicy::FailClosed,
    {
        DiscoveryFailurePolicy::FailClosed
    }
}

/// What a search for revocations did.
#[derive(Clone, Copy, Debug, PartialEq, Eq, Structural)]
pub struct DiscoveryOutcome {
    /// How many producer-signed revocations were found.
    pub producer_signed: usize,
    /// How many registry-attested revocations were found; `None` if that
    /// class was never searched, which is not the same as finding nothing.
    pub registry_attested: Option<usize>,
}

/// How to search for revocations during verification.
///
/// There is no default: which trust classes are searched is for the caller to
/// say, since a producer that has lost every key can only be revoked by its
/// registry.
#[derive(Clone, Copy, Debug, PartialEq, Eq, Structural)]
pub struct RevocationDiscovery {
    /// Whether to search the registry-attested class too.
    pub include_registry_attested: bool,
    pub on_failure: DiscoveryFailurePolicy,
    /// How long the whole search may take.
    pub total_timeout: Span,
    /// How many requests both searches together may make; zero lets none
    /// through.
    pub max_requests: Option<usize>,
    /// How many bytes both searches together may read.
    pub max_bytes: Option<u64>,
    /// For how long a completed search of the same registry makes another
    /// one unnecessary. No time at all means never.
    pub freshness: Span,
}

impl RevocationDiscovery {
    /// Searches producer-signed revocations only.
    pub fn producer_signed_only() -> (d: Self)
        ensures
            d == (RevocationDiscovery {
                include_registry_attested: false,
                on_failure: DiscoveryFailurePolicy::FailClosed,
                total_timeout: (Span { secs: 30, nanos: 0 }),
                max_requests: None,
                max_bytes: None,
                freshness: (Span { secs: 0, nanos: 0 }),
            }),
    {
        RevocationDiscovery {
            include_registry_attested: false,
            on_failure: DiscoveryFailurePolicy::FailClosed,
            total_timeout: Span::from_secs(30),
            max_requests: None,
            max_bytes: None,
            freshness: Span::zero(),
        }
    }

    /// Searches both trust classes.
    pub fn all_trust_classes() -> (d: Self)
        ensures
            d == (RevocationDiscovery {
                include_registry_attested: true,
                on_failure: DiscoveryFailurePolicy::FailClosed,
                total_timeout: (Span { secs: 30, nanos: 0 }),
                max_requests: None,
                max_bytes: None,
                freshness: (Span { secs: 0, nanos: 0 }),
            }),
    {
        RevocationDiscovery {
            include_registry_attested: true,
            on_failure: DiscoveryFailurePolicy::FailClosed,
            total_timeout: Span::from_secs(30),
            max_requests: None,
            max_bytes: None,
            freshness: Span::zero(),
        }
    }
}

/// The revocations to enforce during verification.
#[derive(Debug, PartialEq, Eq)]
pub struct RevocationPolicy {
    /// Verified revocations that the caller holds. Of a lineage, every member
    /// belongs here, the superseded ones too.
    pub known: Vec<KeyRevocation>,
    /// Whether and how to search for more.
    pub discover: Option<RevocationDiscovery>,
}

/// Copies a list of revocations.
pub fn copy_revocations(v: &Vec<KeyRevocation>) -> (copy: Vec<KeyRevocation>)
    ensures
        copy@ == v@,
{
    let mut copy: Vec<KeyRevocation> = Vec::new();
    let mut i: usize = 0;
    while i < v.len()
        invariant
            i <= v.len(),
            copy@ =~= v@.take(i as int),
        decreases v.len() - i,
    {
        copy.push(v[i].clone());
        i = i + 1;
    }
    proof {
        assert(v@.take(i as int) =~= v@);
    }
    copy
}

impl RevocationPolicy {
    /// Enforces the given revocations and searches for none.
    pub fn new(known: Vec<KeyRevocation>) -> (policy: Self)
        ensures
            policy.known == known,
            policy.discover is None,
    {
        Self { known, discover: None }
    }

    /// The same policy, which now also searches.
    pub fn with_discovery(self, discovery: RevocationDiscovery) -> (policy: Self)
        ensures
            policy.known == self.known,
            policy.discover == Some(discovery),
    {
        Self { known: self.known, discover: Some(discovery) }
    }
}

impl Default for RevocationPolicy {
    fn default() -> (policy: Self)
        ensures
            policy.known@.len() == 0,
            policy.discover is None,
    {
        Self { known: Vec::new(), discover: None }
    }
}

impl Clone for RevocationPolicy {
    fn clone(&self) -> (copy: Self)
        ensures
            copy.known@ == self.known@,
            copy.discover == self.discover,
    {
        Self { known: copy_revocations(&self.known), discover: self.discover }
    }
}

/// How strict the verification of a retrieved context is.
#[derive(Debug, PartialEq, Eq)]
pub struct VerificationPolicy {
    /// Whether to check the body's shape and its embedded data before
    /// anything else.
    pub validate_body_schema: bool,
    /// Whether a status that this library does not know is accepted.
    pub allow_unknown_status: bool,
    pub receipts: ReceiptPolicy,
    pub historical_keys: HistoricalKeyPolicy,
    /// Counts only where the head of a lineage is fetched.
    pub lineage_head: LineageHeadPolicy,
    pub revocations: RevocationPolicy,
}

impl Default for VerificationPolicy {
    fn default() -> (policy: Self)
        ensures
            policy.validate_body_schema,
            policy.allow_unknown_status,
            policy.receipts == ReceiptPolicy::VerifyIfPresent,
            policy.historical_keys == HistoricalKeyPolicy::AcceptWithReceipt,
            policy.lineage_head == (LineageHeadPolicy {
                receipts: ReceiptPolicy::VerifyIfPresent,
                max_clock_skew_seconds: 120,
                max_age_seconds: Some(300),
            }),
            policy.revocations.known@.len() == 0,
            policy.revocations.discover is None,
    {
        Self {
            validate_body_schema: true,
            allow_unknown_status: true,
            receipts: ReceiptPolicy::VerifyIfPresent,
            historical_keys: HistoricalKeyPolicy::AcceptWithReceipt,
            lineage_head: LineageHeadPolicy::default(),
            revocations: RevocationPolicy::default(),
        }
    }
}

impl VerificationPolicy {
    /// The profile of the first protocol version: receipts do nothing and
    /// only currently authorized keys count.
    pub fn strict_v0_1_0() -> (policy: Self)
        ensures
            policy.validate_body_schema,
            policy.allow_unknown_status,
            policy.receipts == ReceiptPolicy::Ignore,
            policy.historical_keys == HistoricalKeyPolicy::Reject,
            policy.lineage_head == (LineageHeadPolicy {
                receipts: ReceiptPolicy::Ignore,
                max_clock_skew_seconds: 120,
                max_age_seconds: Some(300),
            }),
            policy.revocations.known@.len() == 0,
            policy.revocations.discover is None,
    {
        let head: LineageHeadPolicy = LineageHeadPolicy::default();
        Self {
            validate_body_schema: true,
            allow_unknown_status: true,
            receipts: ReceiptPolicy::Ignore,
            historical_keys: HistoricalKeyPolicy::Reject,
            lineage_head: LineageHeadPolicy {
                receipts: ReceiptPolicy::Ignore,
                max_clock_skew_seconds: head.max_clock_skew_seconds,
                max_age_seconds: head.max_age_seconds,
            },
            revocations: RevocationPolicy::default(),
        }
    }

    /// Whether two policies agree in everything but the check of the body's
    /// shape.
    pub open spec fn agrees_but_for_schema(&self, other: &VerificationPolicy) -> bool {
        &&& self.allow_unknown_status == other.allow_unknown_status
        &&& self.receipts == other.receipts
        &&& self.historical_keys == other.historical_keys
        &&& self.lineage_head == other.lineage_head
        &&& self.revocations.known@ == other.revocations.known@
        &&& self.revocations.discover == other.revocations.discover
    }

    /// The policy that a verification report works with: it checks the
    /// body's shape by itself, and leaves everything else as it is.
    pub fn derived_for_report(&self) -> (policy: Self)
        ensures
            !policy.validate_body_schema,
            policy.agrees_but_for_schema(self),
    {
        Self {
            validate_body_schema: false,
            allow_unknown_status: self.allow_unknown_status,
            receipts: self.receipts,
            historical_keys: self.historical_keys,
            lineage_head: self.lineage_head,
            revocations: self.revocations.clone(),
        }
    }
}

impl Clone for VerificationPolicy {
    fn clone(&self) -> (copy: Self)
        ensures
            copy.validate_body_schema == self.validate_body_schema,
            copy.agrees_but_for_schema(self),
    {
        Self {
            validate_body_schema: self.validate_body_schema,
            allow_unknown_status: self.allow_unknown_status,
            receipts: self.receipts,
            historical_keys: self.historical_keys,
            lineage_head: self.lineage_head,
            revocations: self.revocations.clone(),
        }
    }
}

} // verus!
