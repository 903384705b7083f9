//! Walking every member of a revocation lineage.
//!
//! A registry lists every member of a lineage, those too that a search does
//! not show. The walk takes the listing, then the verification of each member
//! in turn, and gives those that verify. It gives up where it could not look:
//! a partial set of revocations must never pass for a complete one.

use vstd::prelude::*;
use crate::error::AcdpError;
use crate::key_revocation::{KeyRevocation, KeyRevocationView};
use crate::types::{CtxId, LineageId};

verus! {

/// The identifiers of a list of contexts.
pub open spec fn ids_view(ids: Seq<CtxId>) -> Seq<Seq<char>> {
    ids.map_values(|c: CtxId| c@)
}

/// Verified members with their identifiers.
pub open spec fn members_view(members: Seq<(CtxId, KeyRevocation)>) -> Seq<
    (Seq<char>, KeyRevocationView),
> {
    members.map_values(|m: (CtxId, KeyRevocation)| (m.0@, m.1@))
}

/// A listing, or a failure, as a contract sees it.
pub open spec fn listing_result(r: Result<Vec<CtxId>, AcdpError>) -> Result<
    Seq<Seq<char>>,
    AcdpError<Seq<char>>,
> {
    match r {
        Ok(ids) => Ok(ids_view(ids@)),
        Err(e) => Err(e@),
    }
}

/// Verified members, or a failure, as a contract sees them.
pub open spec fn members_result(r: Result<Vec<(CtxId, KeyRevocation)>, AcdpError>) -> Result<
    Seq<(Seq<char>, KeyRevocationView)>,
    AcdpError<Seq<char>>,
> {
    match r {
        Ok(m) => Ok(members_view(m@)),
        Err(e) => Err(e@),
    }
}

/// Every answer that the work done for one walk can give.
pub struct WalkAnswers {
    /// The members that the registry lists.
    pub listing: Result<Seq<Seq<char>>, AcdpError<Seq<char>>>,
    /// The verification of the member at a place in the listing.
    pub member: spec_fn(int) -> Result<KeyRevocationView, AcdpError<Seq<char>>>,
}

/// An optional identifier as a contract sees it.
pub open spec fn opt_id(c: Option<CtxId>) -> Option<Seq<char>> {
    match c {
        Some(c) => Some(c@),
        None => None,
    }
}

/// Why a listing cannot be the lineage that was asked for: it is empty, or it
/// lacks a member that a search has shown to belong to it.
pub open spec fn listing_fault(
    lineage_id: Seq<char>,
    expected: Option<Seq<char>>,
    ids: Seq<Seq<char>>,
) -> Option<AcdpError<Seq<char>>> {
    if ids.len() == 0 || (expected is Some && !ids.contains(expected.unwrap())) {
        Some(AcdpError::IncompleteLineage { lineage_id, ctx_id: expected })
    } else {
        None
    }
}

/// The members from place `k` on that verify, after those in `verified`. A
/// member that fails for good is left out; one that could not be checked
/// fails the walk.
pub open spec fn verified_members(
    ids: Seq<Seq<char>>,
    k: int,
    verified: Seq<(Seq<char>, KeyRevocationView)>,
    o: WalkAnswers,
) -> Result<Seq<(Seq<char>, KeyRevocationView)>, AcdpError<Seq<char>>>
    decreases ids.len() - k,
{
    if k < 0 || k >= ids.len() {
        Ok(verified)
    } else {
        match (o.member)(k) {
            Ok(r) => verified_members(ids, k + 1, verified.push((ids[k], r)), o),
            Err(e) => if e.transient() {
                Err(e)
            } else {
                verified_members(ids, k + 1, verified, o)
            },
        }
    }
}

/// What a walk comes to.
pub open spec fn walk_outcome(
    lineage_id: Seq<char>,
    expected: Option<Seq<char>>,
    o: WalkAnswers,
) -> Result<Seq<(Seq<char>, KeyRevocationView)>, AcdpError<Seq<char>>> {
    match o.listing {
        Err(e) => Err(e),
        Ok(ids) => match listing_fault(lineage_id, expected, ids) {
            Some(e) => Err(e),
            None => verified_members(ids, 0, Seq::empty(), o),
        },
    }
}

/// What is to be done for a walk to go on.
#[derive(Debug, PartialEq, Eq)]
pub enum WalkAction {
    /// Fetch the members of the lineage.
    FetchLineage,
    /// Verify the member at this place in the listing.
    VerifyMember(usize),
}

/// What came of an action.
#[derive(Debug, PartialEq, Eq)]
pub enum WalkEvent {
    /// The identifiers of the members that the registry lists.
    Listing(Result<Vec<CtxId>, AcdpError>),
    /// The verification of a member.
    Member(Result<KeyRevocation, AcdpError>),
}

/// Whether an event is of the kind that an action gives.
pub open spec fn walk_event_fits(ask: WalkAction, event: WalkEvent) -> bool {
    match ask {
        WalkAction::FetchLineage => event is Listing,
        WalkAction::VerifyMember(_) => event is Member,
    }
}

/// Whether an event fails the walk of a lineage: the listing could not be had
/// or is at fault, or a member could not be checked.
pub open spec fn fails_walk(
    lineage_id: Seq<char>,
    expected: Option<Seq<char>>,
    event: WalkEvent,
) -> bool {
    match event {
        WalkEvent::Listing(Ok(ids)) => listing_fault(lineage_id, expected, ids_view(ids@)) is Some,
        WalkEvent::Listing(Err(_)) => true,
        WalkEvent::Member(Ok(_)) => false,
        WalkEvent::Member(Err(e)) => e.transient(),
    }
}

/// Whether an event is the answer, among these, to what was asked.
pub open spec fn is_walk_answer(ask: WalkAction, event: WalkEvent, o: WalkAnswers) -> bool {
    match (ask, event) {
        (WalkAction::FetchLineage, WalkEvent::Listing(r)) => listing_result(r) == o.listing,
        (WalkAction::VerifyMember(k), WalkEvent::Member(r)) => crate::key_revocation::parsed(r)
            == (o.member)(k as int),
        _ => false,
    }
}

enum Stage {
    Listing,
    Members { ids: Vec<CtxId>, next: usize, verified: Vec<(CtxId, KeyRevocation)> },
}

/// A walk under way.
pub struct LineageWalk {
    lineage_id: LineageId,
    expected: Option<CtxId>,
    stage: Stage,
}

/// Where a walk has got to.
pub enum WalkProgress {
    /// Something is to be done.
    Pending(LineageWalk),
    /// The walk is over.
    Finished(Result<Vec<(CtxId, KeyRevocation)>, AcdpError>),
}

impl WalkProgress {
    /// What the walk will come to under these answers.
    pub open spec fn outcome(&self, o: WalkAnswers) -> Result<
        Seq<(Seq<char>, KeyRevocationView)>,
        AcdpError<Seq<char>>,
    > {
        match self {
            WalkProgress::Pending(w) => w.outcome(o),
            WalkProgress::Finished(r) => members_result(*r),
        }
    }
}

impl LineageWalk {
    /// The lineage that is walked.
    pub closed spec fn lineage(&self) -> Seq<char> {
        self.lineage_id@
    }

    /// The member that must be in the listing.
    pub closed spec fn expects(&self) -> Option<Seq<char>> {
        opt_id(self.expected)
    }

    /// What is to be done next.
    pub closed spec fn asks(&self) -> WalkAction {
        match self.stage {
            Stage::Listing => WalkAction::FetchLineage,
            Stage::Members { next, .. } => WalkAction::VerifyMember(next),
        }
    }

    /// What the walk will come to under these answers.
    pub closed spec fn outcome(&self, o: WalkAnswers) -> Result<
        Seq<(Seq<char>, KeyRevocationView)>,
        AcdpError<Seq<char>>,
    > {
        match self.stage {
            Stage::Listing => walk_outcome(self.lineage(), self.expects(), o),
            Stage::Members { ids, next, verified } => verified_members(
                ids_view(ids@),
                next as int,
                members_view(verified@),
                o,
            ),
        }
    }

    /// Whether the walk is in one of the states that it can be in.
    pub closed spec fn well_formed(&self) -> bool {
        match self.stage {
            Stage::Listing => true,
            Stage::Members { ids, next, .. } => next < ids@.len(),
        }
    }

    /// Whether the listing is still to be fetched.
    pub open spec fn unlisted(&self) -> bool {
        self.asks() is FetchLineage
    }

    /// How many listed members are still to be verified.
    pub closed spec fn members_left(&self) -> nat {
        match self.stage {
            Stage::Listing => 0,
            Stage::Members { ids, next, .. } => (ids@.len() - next) as nat,
        }
    }

    /// The members that have been verified so far.
    pub closed spec fn verified_so_far(&self) -> Seq<(Seq<char>, KeyRevocationView)> {
        match self.stage {
            Stage::Listing => Seq::empty(),
            Stage::Members { verified, .. } => members_view(verified@),
        }
    }

    /// The member that is to be verified next.
    pub closed spec fn current(&self) -> Seq<char> {
        match self.stage {
            Stage::Listing => Seq::empty(),
            Stage::Members { ids, next, .. } => ids@[next as int]@,
        }
    }

    /// The members that have been verified once an event is taken in.
    pub open spec fn verified_after(&self, event: WalkEvent) -> Seq<
        (Seq<char>, KeyRevocationView),
    > {
        match event {
            WalkEvent::Member(Ok(r)) => self.verified_so_far().push((self.current(), r@)),
            _ => self.verified_so_far(),
        }
    }

    /// Whether an event brings the walk to a successful end.
    pub open spec fn completes(&self, event: WalkEvent) -> bool {
        &&& self.members_left() == 1
        &&& event is Member
        &&& !fails_walk(self.lineage(), self.expects(), event)
    }

    /// Begins the walk of a lineage that must have `expected`, where given,
    /// among its members.
    pub fn start(lineage_id: LineageId, expected: Option<CtxId>) -> (walk: LineageWalk)
        ensures
            walk.well_formed(),
            walk.unlisted(),
            walk.members_left() == 0,
            walk.verified_so_far() == Seq::<(Seq<char>, KeyRevocationView)>::empty(),
            walk.asks() == WalkAction::FetchLineage,
            walk.lineage() == lineage_id@,
            walk.expects() == opt_id(expected),
            forall|o: WalkAnswers| #[trigger]
                walk.outcome(o) == walk_outcome(lineage_id@, opt_id(expected), o),
    {
        LineageWalk { lineage_id, expected, stage: Stage::Listing }
    }

    /// The lineage that is walked.
    pub fn lineage_id(&self) -> (id: &LineageId)
        ensures
            id@ == self.lineage(),
    {
        &self.lineage_id
    }

    /// What is to be done next.
    pub fn action(&self) -> (action: WalkAction)
        ensures
            action == self.asks(),
    {
        match &self.stage {
            Stage::Listing => WalkAction::FetchLineage,
            Stage::Members { next, .. } => WalkAction::VerifyMember(*next),
        }
    }

    /// Goes on with what came of the action.
    ///
    /// Whatever answers the work gives, the outcome that they lead to stays
    /// the same. The lineage is fetched once, and each listed member is
    /// verified once, in order. A failure ends the walk.
    pub fn advance(self, event: WalkEvent) -> (progress: WalkProgress)
        requires
            self.well_formed(),
            walk_event_fits(self.asks(), event),
        ensures
            forall|o: WalkAnswers|
                is_walk_answer(self.asks(), event, o) ==> #[trigger] progress.outcome(o)
                    == self.outcome(o),
            progress matches WalkProgress::Pending(w) ==> {
                &&& w.well_formed()
                &&& w.lineage() == self.lineage()
                &&& w.expects() == self.expects()
                &&& !w.unlisted()
                &&& w.verified_so_far() == self.verified_after(event)
                &&& !self.completes(event)
                &&& match (self.asks(), event) {
                    (WalkAction::VerifyMember(k), _) => {
                        &&& w.asks() == WalkAction::VerifyMember((k + 1) as usize)
                        &&& w.members_left() == self.members_left() - 1
                    },
                    (_, WalkEvent::Listing(Ok(ids))) => {
                        &&& w.asks() == WalkAction::VerifyMember(0)
                        &&& w.members_left() == ids@.len()
                    },
                    _ => false,
                }
            },
            progress matches WalkProgress::Finished(r) ==> (r is Err <==> fails_walk(
                self.lineage(),
                self.expects(),
                event,
            )),
            progress matches WalkProgress::Finished(Ok(members)) ==> self.completes(event)
                && members_view(members@) == self.verified_after(event),
            fails_walk(self.lineage(), self.expects(), event) ==> progress is Finished,
            progress matches WalkProgress::Finished(Ok(_)) ==> !self.unlisted()
                && self.members_left() > 0,
    {
        let LineageWalk { lineage_id, expected, stage } = self;
        match (stage, event) {
            (Stage::Listing, WalkEvent::Listing(r)) => match r {
                Err(e) => WalkProgress::Finished(Err(e)),
                Ok(ids) => {
                    let complete: bool = match &expected {
                        Some(c) => has_id(&ids, c),
                        None => ids.len() > 0,
                    };
                    if !complete {
                        let ctx_id: Option<String> = match expected {
                            Some(c) => Some(c.0),
                            None => None,
                        };
                        return WalkProgress::Finished(
                            Err(AcdpError::IncompleteLineage { lineage_id: lineage_id.0, ctx_id }),
                        );
                    }
                    let verified: Vec<(CtxId, KeyRevocation)> = Vec::new();
                    proof {
                        assert(members_view(verified@) =~= Seq::empty());
                    }
                    WalkProgress::Pending(
                        LineageWalk {
                            lineage_id,
                            expected,
                            stage: Stage::Members { ids, next: 0, verified },
                        },
                    )
                },
            },
            (Stage::Members { ids, next, verified }, WalkEvent::Member(r)) => {
                let mut verified: Vec<(CtxId, KeyRevocation)> = verified;
                let n: usize = ids.len();
                let ghost before = verified@;
                proof {
                    reveal_with_fuel(verified_members, 2);
                }
                match r {
                    Ok(revocation) => {
                        let id: CtxId = ids[next].clone();
                        verified.push((id, revocation));
                        proof {
                            assert(members_view(verified@) =~= members_view(before).push(
                                (ids@[next as int]@, revocation@),
                            ));
                        }
                    },
                    Err(e) => {
                        if e.is_transient() {
                            return WalkProgress::Finished(Err(e));
                        }
                    },
                }
                if next + 1 == n {
                    return WalkProgress::Finished(Ok(verified));
                }
                WalkProgress::Pending(
                    LineageWalk {
                        lineage_id,
                        expected,
                        stage: Stage::Members { ids, next: next + 1, verified },
                    },
                )
            },
            (stage, _) => WalkProgress::Pending(LineageWalk { lineage_id, expected, stage }),
        }
    }
}

pub(crate) fn has_id(ids: &Vec<CtxId>, id: &CtxId) -> (yes: bool)
    ensures
        yes == ids_view(ids@).contains(id@),
{
    let ghost all = ids_view(ids@);
    let mut i: usize = 0;
    while i < ids.len()
        invariant
            i <= ids@.len(),
            all == ids_view(ids@),
            forall|k: int| 0 <= k < i ==> #[trigger] all[k] != id@,
        decreases ids@.len() - i,
    {
        assert(all[i as int] == ids@[i as int]@);
        if ids[i].same(id) {
            return true;
        }
        i = i + 1;
    }
    false
}

/// The revocations of verified members.
pub open spec fn revocations_of(members: Seq<(Seq<char>, KeyRevocationView)>) -> Seq<
    KeyRevocationView,
> {
    members.map_values(|m: (Seq<char>, KeyRevocationView)| m.1)
}

/// Every verified member of a lineage, whoever published it, given what the
/// walk of the lineage came to.
pub fn find_revocations_in_lineage(
    walked: Result<Vec<(CtxId, KeyRevocation)>, AcdpError>,
) -> (r: Result<Vec<KeyRevocation>, AcdpError>)
    ensures
        match (walked, r) {
            (Ok(members), Ok(revocations)) => crate::key_revocation::revocations_view(revocations@)
                == revocations_of(members_view(members@)),
            (Err(e), Err(f)) => e == f,
            _ => false,
        },
{
    match walked {
        Err(e) => Err(e),
        Ok(members) => {
            let mut revocations: Vec<KeyRevocation> = Vec::new();
            let mut i: usize = 0;
            while i < members.len()
                invariant
                    i <= members@.len(),
                    revocations@.len() == i,
                    forall|k: int| 0 <= k < i ==> #[trigger] revocations@[k] == members@[k].1,
                decreases members@.len() - i,
            {
                revocations.push(members[i].1.clone());
                i = i + 1;
            }
            proof {
                assert(crate::key_revocation::revocations_view(revocations@) =~= revocations_of(
                    members_view(members@),
                ));
            }
            Ok(revocations)
        },
    }
}

/// A walk that succeeds has looked at every listed member: each of them
/// verified and is among the result, or failed for good. In particular the
/// listing was not empty, and the expected member was in it.
pub proof fn law_walk_is_complete(
    lineage_id: Seq<char>,
    expected: Option<Seq<char>>,
    o: WalkAnswers,
)
    ensures
        walk_outcome(lineage_id, expected, o) matches Ok(members) ==> {
            &&& o.listing matches Ok(ids)
            &&& ids.len() > 0
            &&& expected matches Some(c) ==> ids.contains(c)
            &&& forall|k: int|
                0 <= k < ids.len() ==> match #[trigger] (o.member)(k) {
                    Ok(r) => members.contains((ids[k], r)),
                    Err(e) => !e.transient(),
                }
        },
{
    if let Ok(ids) = o.listing {
        if listing_fault(lineage_id, expected, ids) is None {
            lemma_members_complete(ids, 0, Seq::empty(), o);
        }
    }
}

proof fn lemma_members_complete(
    ids: Seq<Seq<char>>,
    from: int,
    verified: Seq<(Seq<char>, KeyRevocationView)>,
    o: WalkAnswers,
)
    requires
        0 <= from <= ids.len(),
    ensures
        verified_members(ids, from, verified, o) matches Ok(members) ==> {
            &&& verified.is_prefix_of(members)
            &&& forall|k: int|
                from <= k < ids.len() ==> match #[trigger] (o.member)(k) {
                    Ok(r) => members.contains((ids[k], r)),
                    Err(e) => !e.transient(),
                }
            &&& forall|m: int|
                verified.len() <= m < members.len() ==> exists|k: int|
                    from <= k < ids.len() && #[trigger] (o.member)(k) == Ok::<
                        KeyRevocationView,
                        AcdpError<Seq<char>>,
                    >((#[trigger] members[m]).1) && members[m].0 == ids[k]
        },
    decreases ids.len() - from,
{
    if from < ids.len() {
        match (o.member)(from) {
            Ok(r) => {
                let more = verified.push((ids[from], r));
                lemma_members_complete(ids, from + 1, more, o);
                if let Ok(members) = verified_members(ids, from, verified, o) {
                    assert(more.is_prefix_of(members));
                    assert(members[verified.len() as int] == more[verified.len() as int]);
                    assert(verified =~= members.take(verified.len() as int));
                }
            },
            Err(e) => {
                if !e.transient() {
                    lemma_members_complete(ids, from + 1, verified, o);
                }
            },
        }
    }
}

/// Nothing comes out of a walk that was not listed and verified.
pub proof fn law_walk_adds_nothing(
    lineage_id: Seq<char>,
    expected: Option<Seq<char>>,
    o: WalkAnswers,
    m: int,
)
    ensures
        walk_outcome(lineage_id, expected, o) matches Ok(members) ==> 0 <= m < members.len() ==> {
            &&& o.listing matches Ok(ids)
            &&& exists|k: int|
                0 <= k < ids.len() && members[m].0 == ids[k] && #[trigger] (o.member)(k) == Ok::<
                    KeyRevocationView,
                    AcdpError<Seq<char>>,
                >(members[m].1)
        },
{
    if let Ok(ids) = o.listing {
        if listing_fault(lineage_id, expected, ids) is None {
            lemma_members_complete(ids, 0, Seq::empty(), o);
        }
    }
}

/// How many of the first `k` members verify.
pub open spec fn verified_before(o: WalkAnswers, k: int) -> nat
    decreases k,
{
    if k <= 0 {
        0
    } else if (o.member)(k - 1) is Ok {
        verified_before(o, k - 1) + 1
    } else {
        verified_before(o, k - 1)
    }
}

proof fn lemma_walk_goes_on(
    ids: Seq<Seq<char>>,
    k: int,
    verified: Seq<(Seq<char>, KeyRevocationView)>,
    o: WalkAnswers,
)
    requires
        0 <= k <= ids.len(),
        verified.len() == verified_before(o, k),
        forall|j: int|
            0 <= j < k && (#[trigger] (o.member)(j)) is Ok ==> 0 <= verified_before(o, j)
                < verified.len() && verified[verified_before(o, j) as int] == (
                ids[j],
                (o.member)(j)->Ok_0,
            ),
    ensures
        ({
            let r = verified_members(ids, k, verified, o);
            &&& r is Ok <==> forall|j: int|
                k <= j < ids.len() ==> (#[trigger] (o.member)(j)) is Ok || !(o.member)(
                    j,
                )->Err_0.transient()
            &&& r is Ok ==> r->Ok_0.len() == verified_before(o, ids.len() as int)
            &&& r is Ok ==> forall|j: int|
                0 <= j < ids.len() && (#[trigger] (o.member)(j)) is Ok ==> 0 <= verified_before(
                    o,
                    j,
                ) < r->Ok_0.len() && r->Ok_0[verified_before(o, j) as int] == (
                    ids[j],
                    (o.member)(j)->Ok_0,
                )
        }),
    decreases ids.len() - k,
{
    if k < ids.len() {
        let m = (o.member)(k);
        let next = if m is Ok {
            verified.push((ids[k], m->Ok_0))
        } else {
            verified
        };
        if m is Ok || !m->Err_0.transient() {
            lemma_walk_goes_on(ids, k + 1, next, o);
        }
    }
}

/// A walk succeeds exactly if the lineage is listed, is not empty and holds
/// the context that led to it, and no member's verification failed for a
/// reason that may pass. It then gives exactly the members that verified,
/// whatever became of the others, in the order of the listing.
pub proof fn law_walk_gives_every_verified_member(
    lineage_id: Seq<char>,
    expected: Option<Seq<char>>,
    o: WalkAnswers,
)
    ensures
        ({
            let r = walk_outcome(lineage_id, expected, o);
            let ids = o.listing->Ok_0;
            &&& r is Ok <==> {
                &&& o.listing is Ok
                &&& ids.len() > 0
                &&& expected is None || ids.contains(expected->Some_0)
                &&& forall|j: int|
                    0 <= j < ids.len() ==> (#[trigger] (o.member)(j)) is Ok || !(o.member)(
                        j,
                    )->Err_0.transient()
            }
            &&& r is Ok ==> r->Ok_0.len() == verified_before(o, ids.len() as int)
            &&& r is Ok ==> forall|j: int|
                0 <= j < ids.len() && (#[trigger] (o.member)(j)) is Ok ==> verified_before(o, j)
                    < r->Ok_0.len() && r->Ok_0[verified_before(o, j) as int] == (
                    ids[j],
                    (o.member)(j)->Ok_0,
                )
            &&& o.listing is Err ==> r == Err::<
                Seq<(Seq<char>, KeyRevocationView)>,
                AcdpError<Seq<char>>,
            >(o.listing->Err_0)
            &&& o.listing is Ok && (ids.len() == 0 || (expected is Some && !ids.contains(
                expected->Some_0,
            ))) ==> r == Err::<Seq<(Seq<char>, KeyRevocationView)>, AcdpError<Seq<char>>>(
                AcdpError::IncompleteLineage { lineage_id, ctx_id: expected },
            )
        }),
{
    if o.listing is Ok {
        lemma_walk_goes_on(o.listing->Ok_0, 0, Seq::empty(), o);
    }
}

} // verus!
