//! What a reader does about key revocations: the boundary rule, the
//! verification of a revocation's own context, and the search for the
//! revocations of a producer.

use vstd::prelude::*;
use crate::discovery::{Discovery, DiscoveryScope, DiscoveryScopeView};
use crate::error::{AcdpError, AuthorizationFault, SchemaFault};
use crate::key_revocation::{
    effective_boundary, DidChecks, KeyRevocation, KeyRevocationView, RevocationTrustClass,
};
use crate::policy::KeyAuthorization;
use crate::revocation_cache::RevocationCache;
use crate::time::{Moment, Span, Timestamp};
use crate::types::{AgentDid, Body};

verus! {

/// How a key stands under a set of revocations, given when a verified receipt
/// places the publication: not affected, revoked but used before the
/// boundary, or not to be trusted.
pub open spec fn classification(
    revocations: Seq<KeyRevocationView>,
    fingerprint: Seq<char>,
    attested_at: Option<Timestamp>,
) -> Result<Option<KeyAuthorization>, AcdpError<Seq<char>>> {
    match crate::key_revocation::boundary(revocations, fingerprint) {
        None => Ok(None),
        Some(boundary) => match attested_at {
            Some(created_at) => if created_at.is_before(boundary) {
                Ok(Some(KeyAuthorization::HistoricallyAuthorizedPreCompromise))
            } else {
                Err(
                    AcdpError::KeyNotAuthorized(
                        AuthorizationFault::AfterBoundary { fingerprint, boundary, created_at },
                    ),
                )
            },
            None => Err(
                AcdpError::KeyNotAuthorized(
                    AuthorizationFault::Unplaceable { fingerprint, boundary },
                ),
            ),
        },
    }
}

/// Applies the compromise-boundary rule to a signing key.
///
/// `revocations` are verified ones that the reader has decided to act on.
/// `receipt_attested_created_at` comes from a verified receipt, never from
/// the context itself, which a holder of the key could date back at will.
///
/// The key is not affected (`None`), or the publication lies strictly before
/// the boundary, or the verification fails: at or after the boundary, and
/// also where nothing places the publication.
pub fn classify_under_revocation(
    revocations: &Vec<KeyRevocation>,
    signing_key_fingerprint: &str,
    receipt_attested_created_at: Option<Timestamp>,
) -> (r: Result<Option<KeyAuthorization>, AcdpError>)
    ensures
        crate::error::checked(r) == classification(
            crate::key_revocation::revocations_view(revocations@),
            signing_key_fingerprint@,
            receipt_attested_created_at,
        ),
{
    let boundary: Timestamp = match effective_boundary(revocations, signing_key_fingerprint) {
        Some(b) => b,
        None => {
            return Ok(None);
        },
    };
    match receipt_attested_created_at {
        Some(created_at) => {
            if created_at.before(boundary) {
                return Ok(Some(KeyAuthorization::HistoricallyAuthorizedPreCompromise));
            }
            Err(
                AcdpError::KeyNotAuthorized(
                    AuthorizationFault::AfterBoundary {
                        fingerprint: signing_key_fingerprint.to_owned(),
                        boundary,
                        created_at,
                    },
                ),
            )
        },
        None => Err(
            AcdpError::KeyNotAuthorized(
                AuthorizationFault::Unplaceable {
                    fingerprint: signing_key_fingerprint.to_owned(),
                    boundary,
                },
            ),
        ),
    }
}

/// What a revocation's own context establishes, given the verification of the
/// context, the revocation that it states, and the fingerprint of the key
/// that signed it: the revocation, unless something failed or the signing key
/// is the revoked one.
pub open spec fn established_revocation(
    verified: Result<(), AcdpError<Seq<char>>>,
    stated: Result<KeyRevocationView, AcdpError<Seq<char>>>,
    signer: Result<Seq<char>, AcdpError<Seq<char>>>,
) -> Result<KeyRevocationView, AcdpError<Seq<char>>> {
    match (verified, stated, signer) {
        (Err(e), _, _) => Err(e),
        (Ok(()), Err(e), _) => Err(e),
        (Ok(()), Ok(_), Err(e)) => Err(e),
        (Ok(()), Ok(r), Ok(fingerprint)) => match crate::key_revocation::not_self_signed(
            Some(r.revoked_key_fingerprint),
            fingerprint,
        ) {
            Err(e) => Err(e),
            Ok(()) => Ok(r),
        },
    }
}

/// Verifies a revocation's own context, given the verification of the context
/// as such and the fingerprint of the key that signed it.
pub fn verify_revocation_body(
    body: &Body,
    dids: &DidChecks,
    verified: Result<(), AcdpError>,
    signer_fingerprint: Result<String, AcdpError>,
) -> (r: Result<KeyRevocation, AcdpError>)
    ensures
        crate::key_revocation::parsed(r) == established_revocation(
            crate::error::checked(verified),
            crate::key_revocation::body_revocation(*body, *dids),
            crate::verified::text_result(signer_fingerprint),
        ),
{
    establish_revocation(verified, KeyRevocation::from_body(body, dids), signer_fingerprint)
}

/// What a revocation's own context establishes, given what became of each
/// step.
pub fn establish_revocation(
    verified: Result<(), AcdpError>,
    stated: Result<KeyRevocation, AcdpError>,
    signer_fingerprint: Result<String, AcdpError>,
) -> (r: Result<KeyRevocation, AcdpError>)
    ensures
        crate::key_revocation::parsed(r) == established_revocation(
            crate::error::checked(verified),
            crate::key_revocation::parsed(stated),
            crate::verified::text_result(signer_fingerprint),
        ),
{
    if let Err(e) = verified {
        return Err(e);
    }
    match stated {
        Err(e) => Err(e),
        Ok(revocation) => match signer_fingerprint {
            Err(e) => Err(e),
            Ok(fingerprint) => match revocation.check_not_self_signed(fingerprint.as_str()) {
                Err(e) => Err(e),
                Ok(()) => Ok(revocation),
            },
        },
    }
}

/// No revocation is established on the word of the key that it revokes.
pub proof fn law_established_revocation_is_not_self_signed(
    verified: Result<(), AcdpError<Seq<char>>>,
    stated: Result<KeyRevocationView, AcdpError<Seq<char>>>,
    signer: Result<Seq<char>, AcdpError<Seq<char>>>,
)
    ensures
        established_revocation(verified, stated, signer) matches Ok(r) ==> {
            &&& verified is Ok
            &&& stated == Ok::<KeyRevocationView, AcdpError<Seq<char>>>(r)
            &&& signer matches Ok(fingerprint) && !r.names_key(fingerprint)
        },
{
}

/// How a search for revocations begins.
pub enum SearchStart {
    /// The registry was searched a short while ago: nothing is to be done,
    /// and nothing is found.
    Fresh,
    /// The search is to be carried out.
    Search(Discovery),
}

/// How a search for registry-attested revocations begins.
#[derive(Clone, Copy, Debug, PartialEq, Eq, Structural)]
pub enum AttestedStart {
    /// The registry was searched a short while ago: nothing is to be done,
    /// and nothing is found.
    Fresh,
    /// The registry's capabilities are to be fetched, once, and handed to
    /// [`attested_search`].
    FetchCapabilities,
}

/// Whether an attached cache makes a search unnecessary: it has a fresh
/// marker for the registry at `vantage`, the subject and the trust class.
pub open spec fn suppressed(
    cache: Option<(&RevocationCache, Span)>,
    vantage: Option<&str>,
    subject: Seq<char>,
    class: RevocationTrustClass,
    now: Moment,
) -> bool {
    match (cache, vantage) {
        (Some((cache, freshness)), Some(vantage)) => crate::revocation_cache::is_fresh(
            cache@,
            vantage@,
            subject,
            class,
            freshness,
            now,
        ),
        _ => false,
    }
}

fn is_suppressed(
    cache: Option<(&RevocationCache, Span)>,
    vantage: Option<&str>,
    subject: &str,
    class: RevocationTrustClass,
    now: Moment,
) -> (yes: bool)
    requires
        cache matches Some((c, _)) ==> c.well_formed(),
    ensures
        yes == suppressed(cache, vantage, subject@, class, now),
{
    match (cache, vantage) {
        (Some((cache, freshness)), Some(vantage)) => {
            cache.marker_fresh(vantage, subject, class, freshness, now)
        },
        _ => false,
    }
}

/// Begins the search for the revocations that a producer has signed itself.
///
/// `did_check` says whether `agent_id` is a well-formed identifier. `cache`
/// is the attached cache and for how long its markers count, `vantage` the
/// registry's authority.
pub fn find_revocations(
    agent_id: &AgentDid,
    did_check: Result<(), AcdpError>,
    cache: Option<(&RevocationCache, Span)>,
    vantage: Option<&str>,
    now: Moment,
) -> (r: Result<SearchStart, AcdpError>)
    requires
        cache matches Some((c, _)) ==> c.well_formed(),
    ensures
        match r {
            Err(e) => did_check == Err::<(), AcdpError>(e),
            Ok(start) => did_check is Ok && match start {
                SearchStart::Fresh => suppressed(
                    cache,
                    vantage,
                    agent_id@,
                    RevocationTrustClass::ProducerSigned,
                    now,
                ),
                SearchStart::Search(d) => {
                    &&& !suppressed(
                        cache,
                        vantage,
                        agent_id@,
                        RevocationTrustClass::ProducerSigned,
                        now,
                    )
                    &&& d.begins(DiscoveryScopeView::ProducerSigned { agent_id: agent_id@ })
                },
            },
        },
{
    if let Err(e) = did_check {
        return Err(e);
    }
    if is_suppressed(
        cache,
        vantage,
        agent_id.as_str(),
        RevocationTrustClass::ProducerSigned,
        now,
    ) {
        return Ok(SearchStart::Fresh);
    }
    Ok(
        SearchStart::Search(
            Discovery::start(DiscoveryScope::ProducerSigned { agent_id: agent_id.clone() }),
        ),
    )
}

/// Begins the search for the revocations of a controller's keys that the
/// registry attests. Whether the search is necessary is decided, by the
/// controller and not by the registry's own identity, before the registry is
/// asked for anything.
pub fn find_registry_attested_revocations(
    controller: &AgentDid,
    did_check: Result<(), AcdpError>,
    cache: Option<(&RevocationCache, Span)>,
    vantage: Option<&str>,
    now: Moment,
) -> (r: Result<AttestedStart, AcdpError>)
    requires
        cache matches Some((c, _)) ==> c.well_formed(),
    ensures
        match r {
            Err(e) => did_check == Err::<(), AcdpError>(e),
            Ok(start) => did_check is Ok && (start is Fresh <==> suppressed(
                cache,
                vantage,
                controller@,
                RevocationTrustClass::RegistryAttested,
                now,
            )),
        },
{
    if let Err(e) = did_check {
        return Err(e);
    }
    if is_suppressed(
        cache,
        vantage,
        controller.as_str(),
        RevocationTrustClass::RegistryAttested,
        now,
    ) {
        return Ok(AttestedStart::Fresh);
    }
    Ok(AttestedStart::FetchCapabilities)
}

/// The search for registry-attested revocations, given the identity that the
/// registry advertises, whether that is a well-formed identifier, and the
/// authority that the registry was reached under.
pub fn attested_search(
    controller: &AgentDid,
    registry_did: Result<String, AcdpError>,
    registry_did_check: Result<(), AcdpError>,
    authority: Option<String>,
) -> (r: Result<Discovery, AcdpError>)
    ensures
        match r {
            Ok(d) => {
                &&& registry_did matches Ok(did)
                &&& registry_did_check is Ok
                &&& authority matches Some(serving)
                &&& d.begins(
                    DiscoveryScopeView::RegistryAttested {
                        controller: controller@,
                        serving_authority: serving@,
                        registry_did: did@,
                    },
                )
            },
            Err(e) => if registry_did is Err {
                registry_did == Err::<String, AcdpError>(e)
            } else if registry_did_check is Err {
                registry_did_check == Err::<(), AcdpError>(e)
            } else {
                authority is None && e@ == AcdpError::<Seq<char>>::SchemaViolation(
                    SchemaFault::NoHost,
                )
            },
        },
{
    match registry_did {
        Err(e) => Err(e),
        Ok(registry_did) => {
            if let Err(e) = registry_did_check {
                return Err(e);
            }
            match authority {
                None => Err(AcdpError::SchemaViolation(SchemaFault::NoHost)),
                Some(serving_authority) => Ok(
                    Discovery::start(
                        DiscoveryScope::RegistryAttested {
                            controller: controller.clone(),
                            serving_authority,
                            registry_did,
                        },
                    ),
                ),
            }
        },
    }
}

/// Remembers a search that has succeeded; a failed one leaves no trace.
pub fn record_search(
    cache: &mut RevocationCache,
    vantage: Option<&str>,
    subject: &AgentDid,
    class: RevocationTrustClass,
    outcome: &Result<Vec<KeyRevocation>, AcdpError>,
    now: Moment,
)
    requires
        old(cache).well_formed(),
    ensures
        final(cache).well_formed(),
        match (vantage, *outcome) {
            (Some(vantage), Ok(found)) => crate::revocation_cache::remembers(
                old(cache)@,
                final(cache)@,
                subject@,
                crate::revocation_cache::entry_or_blank(old(cache)@, subject@).after_success(
                    vantage@,
                    crate::revocation_cache::is_attested(class),
                    crate::key_revocation::revocations_view(found@),
                    now,
                ),
            ),
            _ => final(cache)@ == old(cache)@,
        },
{
    if let (Some(vantage), Ok(found)) = (vantage, outcome) {
        cache.record_success(vantage, subject.as_str(), class, found, now);
    }
}

/// More revocations never make the judgement of a key milder: what was refused
/// stays refused, and what was accepted as used before the boundary is never
/// taken for unaffected.
pub proof fn law_more_revocations_never_milder(
    a: Seq<KeyRevocationView>,
    b: Seq<KeyRevocationView>,
    fingerprint: Seq<char>,
    attested_at: Option<Timestamp>,
)
    ensures
        classification(a, fingerprint, attested_at) is Err ==> classification(
            a + b,
            fingerprint,
            attested_at,
        ) is Err,
        classification(a, fingerprint, attested_at) matches Ok(Some(_)) ==> !(classification(
            a + b,
            fingerprint,
            attested_at,
        ) matches Ok(None)),
        classification(a + b, fingerprint, attested_at) matches Ok(None) ==> classification(
            b,
            fingerprint,
            attested_at,
        ) matches Ok(None),
{
    crate::key_revocation::law_more_revocations_widen(a, b, fingerprint);
}

/// A revoked key that nothing places in time is refused.
pub proof fn law_unplaced_revoked_key_fails_closed(
    revocations: Seq<KeyRevocationView>,
    fingerprint: Seq<char>,
    i: int,
)
    requires
        0 <= i < revocations.len(),
        revocations[i].names_key(fingerprint),
    ensures
        classification(revocations, fingerprint, None) is Err,
{
    crate::key_revocation::law_boundary_is_earliest(revocations, fingerprint);
}

/// A publication at or after any boundary of its key is refused, whatever
/// other revocations say.
pub proof fn law_at_or_after_any_boundary_fails_closed(
    revocations: Seq<KeyRevocationView>,
    fingerprint: Seq<char>,
    created_at: Timestamp,
    i: int,
)
    requires
        0 <= i < revocations.len(),
        revocations[i].names_key(fingerprint),
        !created_at.is_before(revocations[i].compromised_since),
    ensures
        classification(revocations, fingerprint, Some(created_at)) is Err,
{
    crate::key_revocation::law_boundary_is_earliest(revocations, fingerprint);
}

/// What a set of revocations says of a key is decided by every one that names
/// it: nothing, if none does; that it was used before it was compromised, if
/// a receipt places the publication strictly before each of their boundaries;
/// and else that it is not to be trusted, because the publication lies at or
/// after one of them or because nothing places it.
pub proof fn law_every_boundary_decides(
    revocations: Seq<KeyRevocationView>,
    fingerprint: Seq<char>,
    attested_at: Option<Timestamp>,
)
    ensures
        ({
            let c = classification(revocations, fingerprint, attested_at);
            let named = exists|r: KeyRevocationView| #[trigger]
                revocations.contains(r) && r.revoked_key_fingerprint == fingerprint;
            let before_all = attested_at is Some && forall|r: KeyRevocationView| #[trigger]
                revocations.contains(r) && r.revoked_key_fingerprint == fingerprint
                    ==> attested_at->Some_0.is_before(r.compromised_since);
            &&& !named <==> c == Ok::<Option<KeyAuthorization>, AcdpError<Seq<char>>>(None)
            &&& named && before_all <==> c == Ok::<Option<KeyAuthorization>, AcdpError<Seq<char>>>(
                Some(KeyAuthorization::HistoricallyAuthorizedPreCompromise),
            )
            &&& named && !before_all <==> c is Err
            &&& c is Err ==> c->Err_0 is KeyNotAuthorized && if attested_at is Some {
                c->Err_0->KeyNotAuthorized_0 is AfterBoundary
            } else {
                c->Err_0->KeyNotAuthorized_0 is Unplaceable
            }
        }),
{
    crate::key_revocation::law_boundary_is_earliest(revocations, fingerprint);
    match crate::key_revocation::boundary(revocations, fingerprint) {
        None => {
            assert forall|r: KeyRevocationView| #[trigger]
                revocations.contains(r) implies r.revoked_key_fingerprint != fingerprint by {
                let k = choose|k: int| 0 <= k < revocations.len() && revocations[k] == r;
                assert(!revocations[k].names_key(fingerprint));
            }
        },
        Some(b) => {
            let w = choose|k: int|
                0 <= k < revocations.len() && (#[trigger] revocations[k]).names_key(fingerprint)
                    && revocations[k].compromised_since == b;
            assert(revocations.contains(revocations[w]));
            if attested_at is Some && attested_at->Some_0.is_before(b) {
                assert forall|r: KeyRevocationView| #[trigger]
                    revocations.contains(r) && r.revoked_key_fingerprint
                        == fingerprint implies attested_at->Some_0.is_before(
                    r.compromised_since,
                ) by {
                    let k = choose|k: int| 0 <= k < revocations.len() && revocations[k] == r;
                    assert(revocations[k].names_key(fingerprint));
                    assert(b.is_at_most(revocations[k].compromised_since));
                }
            }
        },
    }
}

/// A revocation is established exactly if its context verifies, states it in
/// shape, and is signed with a known key other than the one it revokes.
pub proof fn law_what_establishes_a_revocation(
    verified: Result<(), AcdpError<Seq<char>>>,
    stated: Result<KeyRevocationView, AcdpError<Seq<char>>>,
    signer: Result<Seq<char>, AcdpError<Seq<char>>>,
    r: KeyRevocationView,
)
    ensures
        established_revocation(verified, stated, signer) == Ok::<
            KeyRevocationView,
            AcdpError<Seq<char>>,
        >(r) <==> {
            &&& verified is Ok
            &&& stated == Ok::<KeyRevocationView, AcdpError<Seq<char>>>(r)
            &&& signer is Ok
            &&& signer->Ok_0 != r.revoked_key_fingerprint
        },
        verified is Err ==> established_revocation(verified, stated, signer) == Err::<
            KeyRevocationView,
            AcdpError<Seq<char>>,
        >(verified->Err_0),
        verified is Ok && stated is Err ==> established_revocation(verified, stated, signer)
            == Err::<KeyRevocationView, AcdpError<Seq<char>>>(stated->Err_0),
        verified is Ok && stated is Ok && signer is Err ==> established_revocation(
            verified,
            stated,
            signer,
        ) == Err::<KeyRevocationView, AcdpError<Seq<char>>>(signer->Err_0),
{
}

/// A search is left out exactly if there is a cache and a registry to have
/// been searched, and the cache holds that the registry was searched for this
/// class of this producer's revocations less than the tolerated time ago.
pub proof fn law_when_a_search_is_left_out(
    cache: &RevocationCache,
    freshness: Span,
    vantage: &str,
    subject: Seq<char>,
    class: RevocationTrustClass,
    now: Moment,
)
    ensures
        !suppressed(None, Some(vantage), subject, class, now),
        !suppressed(Some((cache, freshness)), None, subject, class, now),
        suppressed(Some((cache, freshness)), Some(vantage), subject, class, now) <==> {
            let key = (vantage@, class == RevocationTrustClass::RegistryAttested);
            &&& cache@.contains_key(subject)
            &&& cache@[subject].markers.contains_key(key)
            &&& freshness.secs * 1_000_000_000 + freshness.nanos > 0
            &&& now.nanos - cache@[subject].markers[key].nanos < freshness.secs * 1_000_000_000
                + freshness.nanos
        },
{
    crate::revocation_cache::law_when_a_search_is_unnecessary(
        cache@,
        vantage@,
        subject,
        class,
        freshness,
        now,
    );
}

/// A key that is not to be trusted is refused with the earliest boundary that
/// any revocation gives it.
pub proof fn law_refusals_name_the_earliest_boundary(
    revocations: Seq<KeyRevocationView>,
    fingerprint: Seq<char>,
    attested_at: Option<Timestamp>,
    r: KeyRevocationView,
)
    requires
        classification(revocations, fingerprint, attested_at) is Err,
        revocations.contains(r),
        r.revoked_key_fingerprint == fingerprint,
        forall|other: KeyRevocationView| #[trigger]
            revocations.contains(other) && other.revoked_key_fingerprint == fingerprint
                ==> !other.compromised_since.is_before(r.compromised_since),
    ensures
        classification(revocations, fingerprint, attested_at) == Err::<
            Option<KeyAuthorization>,
            AcdpError<Seq<char>>,
        >(
            AcdpError::KeyNotAuthorized(
                match attested_at {
                    Some(created_at) => AuthorizationFault::AfterBoundary {
                        fingerprint,
                        boundary: r.compromised_since,
                        created_at,
                    },
                    None => AuthorizationFault::Unplaceable {
                        fingerprint,
                        boundary: r.compromised_since,
                    },
                },
            ),
        ),
{
    crate::key_revocation::law_boundary_is_earliest(revocations, fingerprint);
    let k = choose|k: int| 0 <= k < revocations.len() && revocations[k] == r;
    assert(revocations[k].names_key(fingerprint));
    let b = crate::key_revocation::boundary(revocations, fingerprint)->Some_0;
    let w = choose|w: int|
        0 <= w < revocations.len() && (#[trigger] revocations[w]).names_key(fingerprint)
            && revocations[w].compromised_since == b;
    assert(revocations.contains(revocations[w]));
    assert(b.is_at_most(revocations[k].compromised_since));
}

} // verus!
