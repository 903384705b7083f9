//! The search for a producer's revocations on a registry.
//!
//! The registry is searched for both spellings of the type and for every
//! status that a revocation can have. Every match is retrieved and verified,
//! and every lineage that a match names is walked. What verifies is kept only
//! if it is within the scope of the search, whatever the registry says. A
//! search that cannot be completed fails: an incomplete set of revocations
//! would move the boundary of a key to a later time.

use vstd::prelude::*;
use crate::error::{AcdpError, Truncation};
use crate::key_revocation::{KeyRevocation, KeyRevocationView, RevocationTrustClass};
use crate::lineage_walk::{has_id, LineageWalk, WalkAction, WalkAnswers, WalkEvent, WalkProgress};
use crate::types::{AgentDid, CtxId, LineageId};

verus! {

/// How many result pages are followed for one type and status.
pub const MAX_SEARCH_PAGES: usize = 10;

/// How many lineages are walked.
pub const MAX_LINEAGE_WALKS: usize = 100;

/// How many results a page is asked to have.
pub const SEARCH_LIMIT: usize = 100;

/// How many combinations of type and status are searched.
pub const SEARCH_PASSES: usize = 6;

/// What a search is for, and so what it may return.
#[derive(Debug, PartialEq, Eq)]
pub enum DiscoveryScope {
    /// Revocations that this producer has signed itself.
    ProducerSigned { agent_id: AgentDid },
    /// Revocations of this controller's keys that the registry attests.
    RegistryAttested { controller: AgentDid, serving_authority: String, registry_did: String },
}

/// A [`DiscoveryScope`] with its texts as character sequences.
pub enum DiscoveryScopeView {
    ProducerSigned { agent_id: Seq<char> },
    RegistryAttested {
        controller: Seq<char>,
        serving_authority: Seq<char>,
        registry_did: Seq<char>,
    },
}

impl DiscoveryScopeView {
    /// Whether a verified revocation is within the scope.
    pub open spec fn keeps(self, r: KeyRevocationView) -> bool {
        match self {
            DiscoveryScopeView::ProducerSigned { agent_id } => r.publisher == agent_id
                && r.trust_class == RevocationTrustClass::ProducerSigned,
            DiscoveryScopeView::RegistryAttested { controller, serving_authority, registry_did } =>
                r.revoked_key_controller == controller && crate::key_revocation::registry_binding(
                r.publisher,
                serving_authority,
                registry_did,
            ) is Ok,
        }
    }

    /// Whose contexts are searched: the producer's, or the registry's own.
    pub open spec fn searched_agent(self) -> Seq<char> {
        match self {
            DiscoveryScopeView::ProducerSigned { agent_id } => agent_id,
            DiscoveryScopeView::RegistryAttested { registry_did, .. } => registry_did,
        }
    }

    /// Whose keys the search is about.
    pub open spec fn subject(self) -> Seq<char> {
        match self {
            DiscoveryScopeView::ProducerSigned { agent_id } => agent_id,
            DiscoveryScopeView::RegistryAttested { controller, .. } => controller,
        }
    }
}

impl DiscoveryScope {
    /// The scope with its texts as character sequences.
    pub open spec fn view(&self) -> DiscoveryScopeView {
        match self {
            DiscoveryScope::ProducerSigned { agent_id } => DiscoveryScopeView::ProducerSigned {
                agent_id: agent_id@,
            },
            DiscoveryScope::RegistryAttested { controller, serving_authority, registry_did } =>
                DiscoveryScopeView::RegistryAttested {
                controller: controller@,
                serving_authority: serving_authority@,
                registry_did: registry_did@,
            },
        }
    }

    /// Whether a verified revocation is within the scope.
    pub fn keep(&self, r: &KeyRevocation) -> (yes: bool)
        ensures
            yes == self@.keeps(r@),
    {
        match self {
            DiscoveryScope::ProducerSigned { agent_id } => r.publisher.same(agent_id)
                && r.trust_class == RevocationTrustClass::ProducerSigned,
            DiscoveryScope::RegistryAttested { controller, serving_authority, registry_did } => {
                r.revoked_key_controller.same(controller) && r.cross_check_registry_binding(
                    serving_authority.as_str(),
                    registry_did.as_str(),
                ).is_ok()
            },
        }
    }

    fn searched_agent(&self) -> (agent: String)
        ensures
            agent@ == self@.searched_agent(),
    {
        match self {
            DiscoveryScope::ProducerSigned { agent_id } => agent_id.0.clone(),
            DiscoveryScope::RegistryAttested { registry_did, .. } => registry_did.clone(),
        }
    }

    fn subject(&self) -> (subject: String)
        ensures
            subject@ == self@.subject(),
    {
        match self {
            DiscoveryScope::ProducerSigned { agent_id } => agent_id.0.clone(),
            DiscoveryScope::RegistryAttested { controller, .. } => controller.0.clone(),
        }
    }
}

/// The type that a pass searches for.
pub open spec fn pass_type(pass: int) -> Seq<char> {
    if pass < 3 {
        "key-revocation"@
    } else {
        "acdp:key-revocation"@
    }
}

/// The status that a pass searches for.
pub open spec fn pass_status(pass: int) -> Seq<char> {
    if pass == 0 || pass == 3 {
        "active"@
    } else if pass == 1 || pass == 4 {
        "superseded"@
    } else {
        "retracted"@
    }
}

fn type_of_pass(pass: usize) -> (name: String)
    ensures
        name@ == pass_type(pass as int),
{
    if pass < 3 {
        "key-revocation".to_owned()
    } else {
        "acdp:key-revocation".to_owned()
    }
}

fn status_of_pass(pass: usize) -> (name: String)
    ensures
        name@ == pass_status(pass as int),
{
    if pass == 0 || pass == 3 {
        "active".to_owned()
    } else if pass == 1 || pass == 4 {
        "superseded".to_owned()
    } else {
        "retracted".to_owned()
    }
}

/// A search request.
#[derive(Debug, PartialEq, Eq)]
pub struct SearchRequest<S = String> {
    /// Which combination of type and status this is.
    pub pass: usize,
    /// Which page of the results, counted from zero.
    pub page: usize,
    pub context_type: S,
    pub agent_id: S,
    pub status: S,
    pub limit: usize,
    /// Where the registry said that this page begins.
    pub cursor: Option<S>,
}

/// The request for a page of a pass.
pub open spec fn search_request(
    scope: DiscoveryScopeView,
    pass: usize,
    page: usize,
    cursor: Option<Seq<char>>,
) -> SearchRequest<Seq<char>> {
    SearchRequest {
        pass,
        page,
        context_type: pass_type(pass as int),
        agent_id: scope.searched_agent(),
        status: pass_status(pass as int),
        limit: SEARCH_LIMIT,
        cursor,
    }
}

impl SearchRequest<String> {
    /// The request with its texts as character sequences.
    pub open spec fn view(&self) -> SearchRequest<Seq<char>> {
        SearchRequest {
            pass: self.pass,
            page: self.page,
            context_type: self.context_type@,
            agent_id: self.agent_id@,
            status: self.status@,
            limit: self.limit,
            cursor: crate::error::opt_text(self.cursor),
        }
    }
}

/// A search result: a context and the lineage that it belongs to.
#[derive(Debug, PartialEq, Eq)]
pub struct SearchMatch {
    pub ctx_id: CtxId,
    pub lineage_id: LineageId,
}

/// A page of search results.
#[derive(Debug, PartialEq, Eq)]
pub struct SearchPage {
    pub matches: Vec<SearchMatch>,
    /// Where the next page begins, if there is one.
    pub next_cursor: Option<String>,
}

/// A [`SearchPage`] as a contract sees it: contexts with their lineages.
pub struct SearchPageView {
    pub matches: Seq<(Seq<char>, Seq<char>)>,
    pub next_cursor: Option<Seq<char>>,
}

/// Search results as a contract sees them.
pub open spec fn matches_view(matches: Seq<SearchMatch>) -> Seq<(Seq<char>, Seq<char>)> {
    matches.map_values(|m: SearchMatch| (m.ctx_id@, m.lineage_id@))
}

impl SearchPage {
    /// The page as a contract sees it.
    pub open spec fn view(&self) -> SearchPageView {
        SearchPageView {
            matches: matches_view(self.matches@),
            next_cursor: crate::error::opt_text(self.next_cursor),
        }
    }
}

/// What became of a search result that was to be retrieved and verified.
#[derive(Debug, PartialEq, Eq)]
pub enum Candidate {
    /// It could not be retrieved.
    Unavailable(AcdpError),
    /// It was retrieved, and its verification gave this.
    Checked(Result<KeyRevocation, AcdpError>),
}

/// A [`Candidate`] as a contract sees it.
pub enum CandidateView {
    Unavailable(AcdpError<Seq<char>>),
    Checked(Result<KeyRevocationView, AcdpError<Seq<char>>>),
}

impl Candidate {
    /// The candidate as a contract sees it.
    pub open spec fn view(&self) -> CandidateView {
        match self {
            Candidate::Unavailable(e) => CandidateView::Unavailable(e@),
            Candidate::Checked(r) => CandidateView::Checked(crate::key_revocation::parsed(*r)),
        }
    }
}

/// Every answer that the work done for one search can give.
pub struct DiscoveryAnswers {
    /// A page of a pass.
    pub search: spec_fn(int, int) -> Result<SearchPageView, AcdpError<Seq<char>>>,
    /// The context with an identifier, retrieved and verified.
    pub candidate: spec_fn(Seq<char>) -> CandidateView,
    /// The members of a lineage.
    pub lineage: spec_fn(Seq<char>) -> Result<Seq<Seq<char>>, AcdpError<Seq<char>>>,
    /// The verification of a member of a lineage.
    pub member: spec_fn(Seq<char>, int) -> Result<KeyRevocationView, AcdpError<Seq<char>>>,
}

impl DiscoveryAnswers {
    /// The answers about one lineage.
    pub open spec fn of_lineage(self, lineage_id: Seq<char>) -> WalkAnswers {
        WalkAnswers {
            listing: (self.lineage)(lineage_id),
            member: |k: int| (self.member)(lineage_id, k),
        }
    }
}

/// A verified revocation that a search has dropped because it is out of scope.
#[derive(Debug, PartialEq, Eq)]
pub struct Dropped {
    pub ctx_id: CtxId,
    pub revocation: KeyRevocation,
    /// Whether it came from the walk of a lineage and not from a search
    /// result.
    pub from_walk: bool,
}

/// A [`Dropped`] as a contract sees it.
pub struct DroppedView {
    pub ctx_id: Seq<char>,
    pub revocation: KeyRevocationView,
    pub from_walk: bool,
}

impl Dropped {
    /// The dropped revocation as a contract sees it.
    pub open spec fn view(&self) -> DroppedView {
        DroppedView {
            ctx_id: self.ctx_id@,
            revocation: self.revocation@,
            from_walk: self.from_walk,
        }
    }
}

/// Dropped revocations as a contract sees them.
pub open spec fn dropped_view(dropped: Seq<Dropped>) -> Seq<DroppedView> {
    dropped.map_values(|d: Dropped| d@)
}

/// What a search comes to, and what it has dropped on the way, whether it
/// succeeds or fails.
#[derive(Debug, PartialEq, Eq)]
pub struct SearchEnd {
    pub result: Result<Vec<KeyRevocation>, AcdpError>,
    pub dropped: Vec<Dropped>,
}

/// A [`SearchEnd`] as a contract sees it.
pub struct SearchEndView {
    pub result: Result<Seq<KeyRevocationView>, AcdpError<Seq<char>>>,
    pub dropped: Seq<DroppedView>,
}

impl SearchEnd {
    /// The end as a contract sees it.
    pub open spec fn view(&self) -> SearchEndView {
        SearchEndView {
            result: revocations_result(self.result),
            dropped: dropped_view(self.dropped@),
        }
    }
}

/// What a search has gathered.
pub struct Gathered {
    /// The contexts that have been looked at.
    pub seen: Seq<Seq<char>>,
    /// The lineages that matches have named, each with the first match that
    /// named it, in the order in which they were named.
    pub lineages: Seq<(Seq<char>, Seq<char>)>,
    /// The revocations within the scope.
    pub found: Seq<KeyRevocationView>,
    /// The verified revocations out of scope.
    pub dropped: Seq<DroppedView>,
}

impl Gathered {
    /// Nothing gathered.
    pub open spec fn nothing() -> Gathered {
        Gathered {
            seen: Seq::empty(),
            lineages: Seq::empty(),
            found: Seq::empty(),
            dropped: Seq::empty(),
        }
    }

    /// What has been gathered once a verified revocation is sorted in: it is
    /// found if it is within the scope, and dropped if it is not.
    pub open spec fn with(
        self,
        scope: DiscoveryScopeView,
        ctx_id: Seq<char>,
        revocation: KeyRevocationView,
        from_walk: bool,
    ) -> Gathered {
        if scope.keeps(revocation) {
            Gathered { found: self.found.push(revocation), ..self }
        } else {
            Gathered {
                dropped: self.dropped.push(DroppedView { ctx_id, revocation, from_walk }),
                ..self
            }
        }
    }

    /// The end of a search that succeeds with what has been gathered.
    pub open spec fn complete(self) -> SearchEndView {
        SearchEndView { result: Ok(self.found), dropped: self.dropped }
    }

    /// The end of a search that fails after this has been gathered.
    pub open spec fn failed(self, e: AcdpError<Seq<char>>) -> SearchEndView {
        SearchEndView { result: Err(e), dropped: self.dropped }
    }
}

/// Whether a lineage has been named.
pub open spec fn names_lineage(lineages: Seq<(Seq<char>, Seq<char>)>, id: Seq<char>) -> bool {
    exists|i: int| 0 <= i < lineages.len() && #[trigger] lineages[i].0 == id
}

/// What is noted of the results of a page.
pub struct Intake {
    pub seen: Seq<Seq<char>>,
    pub lineages: Seq<(Seq<char>, Seq<char>)>,
    /// The contexts that are to be retrieved.
    pub queue: Seq<Seq<char>>,
}

/// Notes the results of a page: new lineages, and contexts that have not been
/// looked at.
pub open spec fn intake(start: Intake, matches: Seq<(Seq<char>, Seq<char>)>) -> Intake
    decreases matches.len(),
{
    if matches.len() == 0 {
        start
    } else {
        let before = intake(start, matches.drop_last());
        let (ctx_id, lineage_id) = matches.last();
        let known = before.seen.contains(ctx_id);
        Intake {
            seen: if known {
                before.seen
            } else {
                before.seen.push(ctx_id)
            },
            lineages: if names_lineage(before.lineages, lineage_id) {
                before.lineages
            } else {
                before.lineages.push((lineage_id, ctx_id))
            },
            queue: if known {
                before.queue
            } else {
                before.queue.push(ctx_id)
            },
        }
    }
}

/// What has been gathered once the candidates from place `k` on are sorted in.
/// One that fails for good is left out; one that could not be retrieved or
/// checked ends the search.
pub open spec fn kept(
    scope: DiscoveryScopeView,
    queue: Seq<Seq<char>>,
    k: int,
    g: Gathered,
    o: DiscoveryAnswers,
) -> Result<Gathered, SearchEndView>
    decreases queue.len() - k,
{
    if k < 0 || k >= queue.len() {
        Ok(g)
    } else {
        match (o.candidate)(queue[k]) {
            CandidateView::Unavailable(e) => Err(g.failed(e)),
            CandidateView::Checked(Ok(r)) => kept(
                scope,
                queue,
                k + 1,
                g.with(scope, queue[k], r, false),
                o,
            ),
            CandidateView::Checked(Err(e)) => if e.transient() {
                Err(g.failed(e))
            } else {
                kept(scope, queue, k + 1, g, o)
            },
        }
    }
}

/// What has been gathered once a lineage's verified members are sorted in:
/// those that have not been looked at.
pub open spec fn with_members(
    scope: DiscoveryScopeView,
    g: Gathered,
    members: Seq<(Seq<char>, KeyRevocationView)>,
) -> Gathered
    decreases members.len(),
{
    if members.len() == 0 {
        g
    } else {
        let before = with_members(scope, g, members.drop_last());
        let (ctx_id, r) = members.last();
        if before.seen.contains(ctx_id) {
            before
        } else {
            (Gathered { seen: before.seen.push(ctx_id), ..before }).with(scope, ctx_id, r, true)
        }
    }
}

/// The outcome of a search from a pass on.
pub open spec fn from_pass(
    scope: DiscoveryScopeView,
    pass: int,
    g: Gathered,
    o: DiscoveryAnswers,
) -> SearchEndView
    decreases SEARCH_PASSES - pass, MAX_SEARCH_PAGES + 1, 0int,
{
    if pass >= SEARCH_PASSES {
        before_walks(scope, g, o)
    } else {
        from_page(scope, pass, 0, g, o)
    }
}

/// The outcome of a search from a page of a pass on.
pub open spec fn from_page(
    scope: DiscoveryScopeView,
    pass: int,
    page: int,
    g: Gathered,
    o: DiscoveryAnswers,
) -> SearchEndView
    decreases SEARCH_PASSES - pass, MAX_SEARCH_PAGES - page, 2int,
{
    match (o.search)(pass, page) {
        Err(e) => g.failed(e),
        Ok(results) => {
            let noted = intake(
                Intake { seen: g.seen, lineages: g.lineages, queue: Seq::empty() },
                results.matches,
            );
            from_candidates(
                scope,
                pass,
                page,
                results.next_cursor is Some,
                noted.queue,
                0,
                Gathered { seen: noted.seen, lineages: noted.lineages, ..g },
                o,
            )
        },
    }
}

/// The outcome of a search from a candidate of a page on.
pub open spec fn from_candidates(
    scope: DiscoveryScopeView,
    pass: int,
    page: int,
    more: bool,
    queue: Seq<Seq<char>>,
    k: int,
    g: Gathered,
    o: DiscoveryAnswers,
) -> SearchEndView
    decreases SEARCH_PASSES - pass, MAX_SEARCH_PAGES - page, 1int,
{
    match kept(scope, queue, k, g, o) {
        Err(end) => end,
        Ok(g) => after_page(scope, pass, page, more, g, o),
    }
}

/// The outcome of a search from the end of a page on. Where there are more
/// pages than are followed, the search fails.
pub open spec fn after_page(
    scope: DiscoveryScopeView,
    pass: int,
    page: int,
    more: bool,
    g: Gathered,
    o: DiscoveryAnswers,
) -> SearchEndView
    decreases SEARCH_PASSES - pass, MAX_SEARCH_PAGES - page, 0int,
{
    if !more {
        if pass < SEARCH_PASSES {
            from_pass(scope, pass + 1, g, o)
        } else {
            before_walks(scope, g, o)
        }
    } else if page + 1 < MAX_SEARCH_PAGES {
        from_page(scope, pass, page + 1, g, o)
    } else {
        g.failed(
            AcdpError::SearchTruncated(
                Truncation::Pages {
                    searched: scope.subject(),
                    type_form: pass_type(pass),
                    status: pass_status(pass),
                },
            ),
        )
    }
}

/// The outcome of a search from the end of the last pass on. Where there are
/// more lineages than are walked, the search fails.
pub open spec fn before_walks(
    scope: DiscoveryScopeView,
    g: Gathered,
    o: DiscoveryAnswers,
) -> SearchEndView {
    if g.lineages.len() > MAX_LINEAGE_WALKS {
        g.failed(
            AcdpError::SearchTruncated(
                Truncation::Lineages {
                    searched: scope.subject(),
                    count: g.lineages.len() as u64,
                },
            ),
        )
    } else {
        from_walk(scope, 0, g, o)
    }
}

/// The outcome of a search from the walk of a lineage on.
pub open spec fn from_walk(
    scope: DiscoveryScopeView,
    index: int,
    g: Gathered,
    o: DiscoveryAnswers,
) -> SearchEndView
    decreases g.lineages.len() - index,
{
    if index < 0 || index >= g.lineages.len() {
        g.complete()
    } else {
        let (lineage_id, expected) = g.lineages[index];
        match crate::lineage_walk::walk_outcome(
            lineage_id,
            Some(expected),
            o.of_lineage(lineage_id),
        ) {
            Err(e) => g.failed(e),
            Ok(members) => {
                proof {
                    lemma_members_keep_lineages(scope, g, members);
                }
                from_walk(scope, index + 1, with_members(scope, g, members), o)
            },
        }
    }
}

/// The outcome of a search, from beginning to end.
pub open spec fn discovery_outcome(
    scope: DiscoveryScopeView,
    o: DiscoveryAnswers,
) -> SearchEndView {
    from_pass(scope, 0, Gathered::nothing(), o)
}

/// Adding members names no further lineage.
pub proof fn lemma_members_keep_lineages(
    scope: DiscoveryScopeView,
    g: Gathered,
    members: Seq<(Seq<char>, KeyRevocationView)>,
)
    ensures
        with_members(scope, g, members).lineages == g.lineages,
    decreases members.len(),
{
    if members.len() > 0 {
        lemma_members_keep_lineages(scope, g, members.drop_last());
    }
}

/// What is to be done for a search to go on.
#[derive(Debug, PartialEq, Eq)]
pub enum DiscoveryAction<S = String> {
    /// Send this search request.
    Search(SearchRequest<S>),
    /// Retrieve the context with this identifier and verify it.
    Retrieve(S),
    /// Do this for the walk of a lineage.
    Walk { lineage_id: S, action: WalkAction },
}

impl DiscoveryAction<String> {
    /// The action with its texts as character sequences.
    pub open spec fn view(&self) -> DiscoveryAction<Seq<char>> {
        match self {
            DiscoveryAction::Search(r) => DiscoveryAction::Search(r@),
            DiscoveryAction::Retrieve(id) => DiscoveryAction::Retrieve(id@),
            DiscoveryAction::Walk { lineage_id, action } => DiscoveryAction::Walk {
                lineage_id: lineage_id@,
                action: *action,
            },
        }
    }
}

/// What came of an action.
#[derive(Debug, PartialEq, Eq)]
pub enum DiscoveryEvent {
    /// A page of results.
    Page(Result<SearchPage, AcdpError>),
    /// A candidate, retrieved and verified.
    Retrieved(Candidate),
    /// Something about the lineage that is walked.
    Walked(WalkEvent),
}

/// Whether an event is of the kind that an action gives.
pub open spec fn discovery_event_fits(
    ask: DiscoveryAction<Seq<char>>,
    event: DiscoveryEvent,
) -> bool {
    match (ask, event) {
        (DiscoveryAction::Search(_), DiscoveryEvent::Page(_)) => true,
        (DiscoveryAction::Retrieve(_), DiscoveryEvent::Retrieved(_)) => true,
        (DiscoveryAction::Walk { action, .. }, DiscoveryEvent::Walked(e)) =>
            crate::lineage_walk::walk_event_fits(action, e),
        _ => false,
    }
}

/// Whether an event says that something could not be had that was needed. No
/// search is completed after it.
pub open spec fn fails_search(event: DiscoveryEvent) -> bool {
    match event {
        DiscoveryEvent::Page(r) => r is Err,
        DiscoveryEvent::Retrieved(Candidate::Unavailable(_)) => true,
        DiscoveryEvent::Retrieved(Candidate::Checked(Err(e))) => e.transient(),
        DiscoveryEvent::Walked(WalkEvent::Listing(r)) => r is Err,
        DiscoveryEvent::Walked(WalkEvent::Member(Err(e))) => e.transient(),
        _ => false,
    }
}

/// A page, or a failure, as a contract sees it.
pub open spec fn page_result(r: Result<SearchPage, AcdpError>) -> Result<
    SearchPageView,
    AcdpError<Seq<char>>,
> {
    match r {
        Ok(p) => Ok(p@),
        Err(e) => Err(e@),
    }
}

/// Whether an event is the answer, among these, to what was asked.
pub open spec fn is_discovery_answer(
    ask: DiscoveryAction<Seq<char>>,
    event: DiscoveryEvent,
    o: DiscoveryAnswers,
) -> bool {
    match (ask, event) {
        (DiscoveryAction::Search(req), DiscoveryEvent::Page(r)) => page_result(r) == (o.search)(
            req.pass as int,
            req.page as int,
        ),
        (DiscoveryAction::Retrieve(id), DiscoveryEvent::Retrieved(c)) => c@ == (o.candidate)(id),
        (DiscoveryAction::Walk { lineage_id, action }, DiscoveryEvent::Walked(e)) =>
            crate::lineage_walk::is_walk_answer(action, e, o.of_lineage(lineage_id)),
        _ => false,
    }
}

enum Stage {
    Search { pass: usize, page: usize, cursor: Option<String> },
    Candidates {
        pass: usize,
        page: usize,
        cursor: Option<String>,
        queue: Vec<CtxId>,
        next: usize,
    },
    Walk { index: usize, walk: LineageWalk },
}

struct Harvest {
    seen: Vec<CtxId>,
    lineages: Vec<(LineageId, CtxId)>,
    found: Vec<KeyRevocation>,
    dropped: Vec<Dropped>,
}

/// A search under way.
pub struct Discovery {
    scope: DiscoveryScope,
    harvest: Harvest,
    stage: Stage,
}

/// Where a search has got to.
pub enum DiscoveryProgress {
    /// Something is to be done.
    Pending(Discovery),
    /// The search is over.
    Finished(SearchEnd),
}

/// Revocations, or a failure, as a contract sees them.
pub open spec fn revocations_result(r: Result<Vec<KeyRevocation>, AcdpError>) -> Result<
    Seq<KeyRevocationView>,
    AcdpError<Seq<char>>,
> {
    match r {
        Ok(v) => Ok(crate::key_revocation::revocations_view(v@)),
        Err(e) => Err(e@),
    }
}

impl DiscoveryProgress {
    /// What the search will come to under these answers.
    pub open spec fn outcome(&self, o: DiscoveryAnswers) -> SearchEndView {
        match self {
            DiscoveryProgress::Pending(d) => d.outcome(o),
            DiscoveryProgress::Finished(end) => end@,
        }
    }

    /// What the search has dropped so far.
    pub open spec fn dropped_so_far(&self) -> Seq<DroppedView> {
        match self {
            DiscoveryProgress::Pending(d) => d.dropped_so_far(),
            DiscoveryProgress::Finished(end) => end@.dropped,
        }
    }
}

spec fn lineages_view(v: Seq<(LineageId, CtxId)>) -> Seq<(Seq<char>, Seq<char>)> {
    v.map_values(|l: (LineageId, CtxId)| (l.0@, l.1@))
}

impl Harvest {
    spec fn view(&self) -> Gathered {
        Gathered {
            seen: crate::lineage_walk::ids_view(self.seen@),
            lineages: lineages_view(self.lineages@),
            found: crate::key_revocation::revocations_view(self.found@),
            dropped: dropped_view(self.dropped@),
        }
    }

    fn failed(self, e: AcdpError) -> (end: SearchEnd)
        ensures
            end@ == self@.failed(e@),
    {
        SearchEnd { result: Err(e), dropped: self.dropped }
    }

    fn has_lineage(&self, id: &LineageId) -> (yes: bool)
        ensures
            yes == names_lineage(self@.lineages, id@),
    {
        let ghost all = lineages_view(self.lineages@);
        let mut i: usize = 0;
        while i < self.lineages.len()
            invariant
                i <= self.lineages@.len(),
                all == lineages_view(self.lineages@),
                forall|k: int| 0 <= k < i ==> #[trigger] all[k].0 != id@,
            decreases self.lineages@.len() - i,
        {
            assert(all[i as int].0 == self.lineages@[i as int].0@);
            if self.lineages[i].0.0 == id.0 {
                return true;
            }
            i = i + 1;
        }
        false
    }

    fn note(&mut self, matches: &Vec<SearchMatch>) -> (queue: Vec<CtxId>)
        ensures
            ({
                let noted = intake(
                    Intake {
                        seen: old(self)@.seen,
                        lineages: old(self)@.lineages,
                        queue: Seq::empty(),
                    },
                    matches_view(matches@),
                );
                &&& final(self)@ == (Gathered {
                    seen: noted.seen,
                    lineages: noted.lineages,
                    ..old(self)@
                })
                &&& crate::lineage_walk::ids_view(queue@) == noted.queue
            }),
    {
        let ghost start = Intake {
            seen: self@.seen,
            lineages: self@.lineages,
            queue: Seq::empty(),
        };
        let ghost all = matches_view(matches@);
        let mut queue: Vec<CtxId> = Vec::new();
        let mut i: usize = 0;
        proof {
            assert(all.take(0) =~= Seq::empty());
            assert(crate::lineage_walk::ids_view(queue@) =~= Seq::empty());
        }
        while i < matches.len()
            invariant
                i <= matches@.len(),
                all == matches_view(matches@),
                self@.found == old(self)@.found,
                self@.dropped == old(self)@.dropped,
                ({
                    let noted = intake(start, all.take(i as int));
                    &&& self@.seen == noted.seen
                    &&& self@.lineages == noted.lineages
                    &&& crate::lineage_walk::ids_view(queue@) == noted.queue
                }),
            decreases matches@.len() - i,
        {
            let m: &SearchMatch = &matches[i];
            proof {
                assert(all.take(i as int + 1).drop_last() =~= all.take(i as int));
                assert(all.take(i as int + 1).last() == (m.ctx_id@, m.lineage_id@));
            }
            let ghost before = *self;
            let ghost queued = queue@;
            if !self.has_lineage(&m.lineage_id) {
                self.lineages.push((m.lineage_id.clone(), m.ctx_id.clone()));
                proof {
                    assert(lineages_view(self.lineages@) =~= lineages_view(before.lineages@).push(
                        (m.lineage_id@, m.ctx_id@),
                    ));
                }
            }
            if !has_id(&self.seen, &m.ctx_id) {
                self.seen.push(m.ctx_id.clone());
                queue.push(m.ctx_id.clone());
                proof {
                    assert(crate::lineage_walk::ids_view(self.seen@)
                        =~= crate::lineage_walk::ids_view(before.seen@).push(m.ctx_id@));
                    assert(crate::lineage_walk::ids_view(queue@) =~= crate::lineage_walk::ids_view(
                        queued,
                    ).push(m.ctx_id@));
                }
            }
            i = i + 1;
        }
        proof {
            assert(all.take(i as int) =~= all);
        }
        queue
    }

    fn sort_in(&mut self, scope: &DiscoveryScope, id: CtxId, r: KeyRevocation, from_walk: bool)
        ensures
            final(self)@ == old(self)@.with(scope@, id@, r@, from_walk),
    {
        let ghost before = *self;
        if scope.keep(&r) {
            self.found.push(r);
            proof {
                assert(crate::key_revocation::revocations_view(self.found@)
                    =~= crate::key_revocation::revocations_view(before.found@).push(r@));
            }
        } else {
            let dropped: Dropped = Dropped { ctx_id: id, revocation: r, from_walk };
            self.dropped.push(dropped);
            proof {
                assert(dropped_view(self.dropped@) =~= dropped_view(before.dropped@).push(dropped@));
            }
        }
    }

    fn add_members(&mut self, scope: &DiscoveryScope, members: &Vec<(CtxId, KeyRevocation)>)
        ensures
            final(self)@ == with_members(
                scope@,
                old(self)@,
                crate::lineage_walk::members_view(members@),
            ),
    {
        let ghost all = crate::lineage_walk::members_view(members@);
        let ghost start = self@;
        let mut i: usize = 0;
        proof {
            assert(all.take(0) =~= Seq::empty());
        }
        while i < members.len()
            invariant
                i <= members@.len(),
                all == crate::lineage_walk::members_view(members@),
                self@ == with_members(scope@, start, all.take(i as int)),
            decreases members@.len() - i,
        {
            proof {
                assert(all.take(i as int + 1).drop_last() =~= all.take(i as int));
                assert(all.take(i as int + 1).last() == (
                    members@[i as int].0@,
                    members@[i as int].1@,
                ));
            }
            let id: &CtxId = &members[i].0;
            if !has_id(&self.seen, id) {
                let ghost before = self.seen@;
                self.seen.push(id.clone());
                proof {
                    assert(crate::lineage_walk::ids_view(self.seen@)
                        =~= crate::lineage_walk::ids_view(before).push(id@));
                }
                self.sort_in(scope, id.clone(), members[i].1.clone(), true);
            }
            i = i + 1;
        }
        proof {
            assert(all.take(i as int) =~= all);
        }
    }
}

/// Whether a search is where it should be after a step from a pass and page:
/// still there while candidates of the page are retrieved, at the next page
/// where there is one, at the next pass where there is none, and at the walks
/// after the last pass.
pub open spec fn follows(from: (int, int), d: Discovery) -> bool {
    match d.asks() {
        DiscoveryAction::Retrieve(_) => d.position() == from,
        DiscoveryAction::Search(_) => d.position() == if d.continuation() is Some {
            (from.0, from.1 + 1)
        } else {
            (from.0 + 1, 0int)
        },
        DiscoveryAction::Walk { .. } => {
            &&& d.position() == (SEARCH_PASSES as int, 0int)
            &&& d.continuation() is None
            &&& from.0 >= SEARCH_PASSES - 1
        },
    }
}

impl Discovery {
    /// What the search is for.
    pub closed spec fn searches_for(&self) -> DiscoveryScopeView {
        self.scope@
    }

    /// Where the next page of the pass begins, if the registry said so.
    pub closed spec fn continuation(&self) -> Option<Seq<char>> {
        match self.stage {
            Stage::Search { cursor, .. } => crate::error::opt_text(cursor),
            Stage::Candidates { cursor, .. } => crate::error::opt_text(cursor),
            Stage::Walk { .. } => None,
        }
    }

    /// What the search has dropped so far.
    pub open spec fn dropped_so_far(&self) -> Seq<DroppedView> {
        self.gathered().dropped
    }

    /// What the search has gathered so far.
    pub closed spec fn gathered(&self) -> Gathered {
        self.harvest@
    }

    /// The walk that the search is on, if it is on one.
    pub closed spec fn walking(&self) -> Option<LineageWalk> {
        match self.stage {
            Stage::Walk { walk, .. } => Some(walk),
            _ => None,
        }
    }

    /// What the search has gathered once an event is taken in: the results of
    /// a page are noted, a verified candidate is sorted in, and so are the
    /// verified members of a lineage when its walk is complete.
    pub open spec fn gathered_after(&self, event: DiscoveryEvent) -> Gathered {
        let g = self.gathered();
        match (self.asks(), event) {
            (DiscoveryAction::Search(_), DiscoveryEvent::Page(Ok(p))) => {
                let noted = intake(
                    Intake { seen: g.seen, lineages: g.lineages, queue: Seq::empty() },
                    p@.matches,
                );
                Gathered { seen: noted.seen, lineages: noted.lineages, ..g }
            },
            (
                DiscoveryAction::Retrieve(id),
                DiscoveryEvent::Retrieved(Candidate::Checked(Ok(r))),
            ) => g.with(self.searches_for(), id, r@, false),
            (DiscoveryAction::Walk { .. }, DiscoveryEvent::Walked(e)) => match self.walking() {
                Some(walk) => if walk.completes(e) {
                    with_members(self.searches_for(), g, walk.verified_after(e))
                } else {
                    g
                },
                None => g,
            },
            _ => g,
        }
    }

    /// Whether the search is on a walk that has verified these members so far.
    pub open spec fn walk_has_verified(
        &self,
        members: Seq<(Seq<char>, KeyRevocationView)>,
    ) -> bool {
        self.walking() matches Some(walk) && walk.verified_so_far() == members
    }

    /// The members that the walk has verified once an event is taken in; none
    /// where a walk only begins.
    pub open spec fn verified_after(&self, event: DiscoveryEvent) -> Seq<
        (Seq<char>, KeyRevocationView),
    > {
        match (self.walking(), event) {
            (Some(walk), DiscoveryEvent::Walked(e)) => if walk.completes(e) {
                Seq::empty()
            } else {
                walk.verified_after(e)
            },
            _ => Seq::empty(),
        }
    }

    /// Which pass and which page of it the search has got to.
    pub closed spec fn position(&self) -> (int, int) {
        match self.stage {
            Stage::Search { pass, page, .. } => (pass as int, page as int),
            Stage::Candidates { pass, page, .. } => (pass as int, page as int),
            Stage::Walk { .. } => (SEARCH_PASSES as int, 0),
        }
    }

    /// What is to be done next.
    pub closed spec fn asks(&self) -> DiscoveryAction<Seq<char>> {
        match self.stage {
            Stage::Search { pass, page, cursor } => DiscoveryAction::Search(
                search_request(self.scope@, pass, page, crate::error::opt_text(cursor)),
            ),
            Stage::Candidates { queue, next, .. } => DiscoveryAction::Retrieve(
                queue@[next as int]@,
            ),
            Stage::Walk { walk, .. } => DiscoveryAction::Walk {
                lineage_id: walk.lineage(),
                action: walk.asks(),
            },
        }
    }

    /// What the search will come to under these answers.
    pub closed spec fn outcome(&self, o: DiscoveryAnswers) -> SearchEndView {
        let scope = self.scope@;
        let g = self.harvest@;
        match self.stage {
            Stage::Search { pass, page, .. } => from_page(scope, pass as int, page as int, g, o),
            Stage::Candidates { pass, page, cursor, queue, next } => from_candidates(
                scope,
                pass as int,
                page as int,
                cursor is Some,
                crate::lineage_walk::ids_view(queue@),
                next as int,
                g,
                o,
            ),
            Stage::Walk { index, walk } => match walk.outcome(o.of_lineage(walk.lineage())) {
                Err(e) => g.failed(e),
                Ok(members) => from_walk(scope, index + 1, with_members(scope, g, members), o),
            },
        }
    }

    /// Whether the search is in one of the states that it can be in.
    pub closed spec fn well_formed(&self) -> bool {
        match self.stage {
            Stage::Search { pass, page, .. } => pass < SEARCH_PASSES && page < MAX_SEARCH_PAGES,
            Stage::Candidates { pass, page, queue, next, .. } => pass < SEARCH_PASSES && page
                < MAX_SEARCH_PAGES && next < queue@.len(),
            Stage::Walk { index, walk } => {
                &&& walk.well_formed()
                &&& index < self.harvest.lineages@.len()
                &&& self.harvest.lineages@.len() <= MAX_LINEAGE_WALKS
                &&& walk.lineage() == self.harvest@.lineages[index as int].0
                &&& walk.expects() == Some(self.harvest@.lineages[index as int].1)
            },
        }
    }

    /// How many search requests can at most still be made.
    pub closed spec fn searches_left(&self) -> int {
        match self.stage {
            Stage::Search { pass, page, .. } => (SEARCH_PASSES - pass) * MAX_SEARCH_PAGES - page,
            Stage::Candidates { pass, page, .. } => (SEARCH_PASSES - pass) * MAX_SEARCH_PAGES - page
                - 1,
            Stage::Walk { .. } => 0,
        }
    }

    /// How many lineages can at most still be fetched.
    pub closed spec fn lineages_left(&self) -> int {
        match self.stage {
            Stage::Walk { index, walk } => self.harvest.lineages@.len() - index - if walk.unlisted() {
                0int
            } else {
                1int
            },
            _ => MAX_LINEAGE_WALKS as int,
        }
    }

    /// How many contexts at hand are still to be looked at before the next
    /// search request or the next lineage.
    pub closed spec fn at_hand(&self) -> int {
        match self.stage {
            Stage::Search { .. } => 0,
            Stage::Candidates { queue, next, .. } => queue@.len() - next,
            Stage::Walk { walk, .. } => walk.members_left() as int,
        }
    }

    /// Whether this is the beginning of a search of this scope.
    pub open spec fn begins(&self, scope: DiscoveryScopeView) -> bool {
        &&& self.well_formed()
        &&& self.searches_for() == scope
        &&& self.continuation() is None
        &&& self.asks() is Search
        &&& self.position() == (0int, 0int)
        &&& self.gathered() == Gathered::nothing()
        &&& self.searches_left() == SEARCH_PASSES * MAX_SEARCH_PAGES
        &&& self.lineages_left() == MAX_LINEAGE_WALKS
        &&& forall|o: DiscoveryAnswers| #[trigger] self.outcome(o) == discovery_outcome(scope, o)
    }

    /// Begins a search.
    pub fn start(scope: DiscoveryScope) -> (d: Discovery)
        ensures
            d.begins(scope@),
    {
        let d: Discovery = Discovery {
            scope,
            harvest: Harvest {
                seen: Vec::new(),
                lineages: Vec::new(),
                found: Vec::new(),
                dropped: Vec::new(),
            },
            stage: Stage::Search { pass: 0, page: 0, cursor: None },
        };
        proof {
            assert(d.harvest@.seen =~= Seq::empty());
            assert(d.harvest@.lineages =~= Seq::empty());
            assert(d.harvest@.found =~= Seq::empty());
            assert(d.harvest@.dropped =~= Seq::empty());
            assert(d.harvest@ == Gathered::nothing());
        }
        d
    }

    /// What is to be done next.
    pub fn action(&self) -> (action: DiscoveryAction)
        requires
            self.well_formed(),
        ensures
            action@ == self.asks(),
            action@ matches DiscoveryAction::Search(req) ==> {
                &&& self.position() == (req.pass as int, req.page as int)
                &&& req.pass < SEARCH_PASSES
                &&& req.page < MAX_SEARCH_PAGES
                &&& req == search_request(
                    self.searches_for(),
                    req.pass,
                    req.page,
                    self.continuation(),
                )
            },
    {
        match &self.stage {
            Stage::Search { pass, page, cursor } => DiscoveryAction::Search(
                SearchRequest {
                    pass: *pass,
                    page: *page,
                    context_type: type_of_pass(*pass),
                    agent_id: self.scope.searched_agent(),
                    status: status_of_pass(*pass),
                    limit: SEARCH_LIMIT,
                    cursor: match cursor {
                        Some(c) => Some(c.clone()),
                        None => None,
                    },
                },
            ),
            Stage::Candidates { queue, next, .. } => DiscoveryAction::Retrieve(
                queue[*next].0.clone(),
            ),
            Stage::Walk { walk, .. } => DiscoveryAction::Walk {
                lineage_id: walk.lineage_id().0.clone(),
                action: walk.action(),
            },
        }
    }

    /// What the search has dropped so far, in the order in which it did.
    pub fn dropped(&self) -> (dropped: &Vec<Dropped>)
        ensures
            dropped_view(dropped@) == self.dropped_so_far(),
    {
        &self.harvest.dropped
    }

    /// Goes on with what came of the action.
    ///
    /// Whatever answers the work gives, the outcome that they lead to stays
    /// the same. A further page is asked for where the registry said that it
    /// begins. No step makes more requests possible than before it, each
    /// search request and each fetched lineage makes one fewer possible, and
    /// between them every step leaves fewer contexts to look at. Nothing is
    /// asked for once the search cannot be completed any more.
    pub fn advance(self, event: DiscoveryEvent) -> (progress: DiscoveryProgress)
        requires
            self.well_formed(),
            discovery_event_fits(self.asks(), event),
        ensures
            forall|o: DiscoveryAnswers|
                is_discovery_answer(self.asks(), event, o) ==> #[trigger] progress.outcome(o)
                    == self.outcome(o),
            fails_search(event) ==> progress is Finished,
            progress.dropped_so_far() == self.gathered_after(event).dropped,
            progress matches DiscoveryProgress::Pending(d) ==> {
                &&& d.well_formed()
                &&& d.searches_for() == self.searches_for()
                &&& d.gathered() == self.gathered_after(event)
                &&& d.asks() is Walk ==> d.walk_has_verified(self.verified_after(event))
                &&& follows(self.position(), d)
                &&& d.continuation() == match event {
                    DiscoveryEvent::Page(Ok(p)) => p@.next_cursor,
                    _ => self.continuation(),
                }
                &&& d.searches_left() <= self.searches_left() - if self.asks() is Search {
                    1int
                } else {
                    0int
                }
                &&& d.lineages_left() <= self.lineages_left()
                &&& (self.asks() matches DiscoveryAction::Walk { action, .. } && action
                    is FetchLineage) ==> d.lineages_left() < self.lineages_left()
                &&& d.searches_left() < self.searches_left() || d.lineages_left()
                    < self.lineages_left() || d.at_hand() < self.at_hand()
                &&& d.at_hand() >= 0
            },
    {
        let Discovery { scope, harvest, stage } = self;
        let mut harvest: Harvest = harvest;
        match (stage, event) {
            (Stage::Search { pass, page, .. }, DiscoveryEvent::Page(r)) => match r {
                Err(e) => DiscoveryProgress::Finished(harvest.failed(e)),
                Ok(results) => {
                    let queue: Vec<CtxId> = harvest.note(&results.matches);
                    if queue.len() == 0 {
                        return Self::next_page(scope, harvest, pass, page, results.next_cursor);
                    }
                    DiscoveryProgress::Pending(
                        Discovery {
                            scope,
                            harvest,
                            stage: Stage::Candidates {
                                pass,
                                page,
                                cursor: results.next_cursor,
                                queue,
                                next: 0,
                            },
                        },
                    )
                },
            },
            (
                Stage::Candidates { pass, page, cursor, queue, next },
                DiscoveryEvent::Retrieved(c),
            ) => {
                let n: usize = queue.len();
                proof {
                    reveal_with_fuel(kept, 2);
                }
                match c {
                    Candidate::Unavailable(e) => {
                        return DiscoveryProgress::Finished(harvest.failed(e));
                    },
                    Candidate::Checked(Ok(r)) => {
                        harvest.sort_in(&scope, queue[next].clone(), r, false);
                    },
                    Candidate::Checked(Err(e)) => {
                        if e.is_transient() {
                            return DiscoveryProgress::Finished(harvest.failed(e));
                        }
                    },
                }
                if next + 1 == n {
                    return Self::next_page(scope, harvest, pass, page, cursor);
                }
                DiscoveryProgress::Pending(
                    Discovery {
                        scope,
                        harvest,
                        stage: Stage::Candidates { pass, page, cursor, queue, next: next + 1 },
                    },
                )
            },
            (Stage::Walk { index, walk }, DiscoveryEvent::Walked(e)) => {
                let ghost lineage_id = walk.lineage();
                let ghost asked = walk;
                let walked: WalkProgress = walk.advance(e);
                let ghost step = walked;
                let progress: DiscoveryProgress = match walked {
                    WalkProgress::Pending(walk) => DiscoveryProgress::Pending(
                        Discovery { scope, harvest, stage: Stage::Walk { index, walk } },
                    ),
                    WalkProgress::Finished(Err(e)) => DiscoveryProgress::Finished(
                        harvest.failed(e),
                    ),
                    WalkProgress::Finished(Ok(members)) => {
                        let ghost before = harvest;
                        proof {
                            lemma_members_keep_lineages(
                                scope@,
                                harvest@,
                                crate::lineage_walk::members_view(members@),
                            );
                            lemma_with_members(
                                scope@,
                                harvest@,
                                crate::lineage_walk::members_view(members@),
                            );
                        }
                        harvest.add_members(&scope, &members);
                        proof {
                            assert(before@.lineages.len() == before.lineages@.len());
                            assert(harvest@.lineages.len() == harvest.lineages@.len());
                        }
                        Self::next_walk(scope, harvest, index + 1)
                    },
                };
                proof {
                    assert forall|o: DiscoveryAnswers|
                        is_discovery_answer(self.asks(), event, o) implies #[trigger]
                        progress.outcome(o) == self.outcome(o) by {
                        assert(step.outcome(o.of_lineage(lineage_id)) == asked.outcome(
                            o.of_lineage(lineage_id),
                        ));
                    }
                }
                progress
            },
            (stage, _) => DiscoveryProgress::Pending(Discovery { scope, harvest, stage }),
        }
    }

    fn next_page(
        scope: DiscoveryScope,
        harvest: Harvest,
        pass: usize,
        page: usize,
        cursor: Option<String>,
    ) -> (progress: DiscoveryProgress)
        requires
            pass < SEARCH_PASSES,
            page < MAX_SEARCH_PAGES,
        ensures
            forall|o: DiscoveryAnswers| #[trigger]
                progress.outcome(o) == after_page(
                    scope@,
                    pass as int,
                    page as int,
                    cursor is Some,
                    harvest@,
                    o,
                ),
            progress.dropped_so_far() == harvest@.dropped,
            progress matches DiscoveryProgress::Pending(d) ==> {
                &&& d.well_formed()
                &&& d.searches_for() == scope@
                &&& d.gathered() == harvest@
                &&& d.asks() is Walk ==> d.walk_has_verified(
                    Seq::<(Seq<char>, KeyRevocationView)>::empty(),
                )
                &&& follows((pass as int, page as int), d)
                &&& d.asks() !is Retrieve
                &&& d.continuation() == crate::error::opt_text(cursor)
                &&& d.searches_left() <= (SEARCH_PASSES - pass) * MAX_SEARCH_PAGES - page - 1
                &&& d.lineages_left() <= MAX_LINEAGE_WALKS
                &&& d.at_hand() == 0
            },
    {
        match cursor {
            Some(c) => {
                if page + 1 < MAX_SEARCH_PAGES {
                    return DiscoveryProgress::Pending(
                        Discovery {
                            scope,
                            harvest,
                            stage: Stage::Search { pass, page: page + 1, cursor: Some(c) },
                        },
                    );
                }
                DiscoveryProgress::Finished(
                    harvest.failed(
                        AcdpError::SearchTruncated(
                            Truncation::Pages {
                                searched: scope.subject(),
                                type_form: type_of_pass(pass),
                                status: status_of_pass(pass),
                            },
                        ),
                    ),
                )
            },
            None => {
                if pass + 1 < SEARCH_PASSES {
                    return DiscoveryProgress::Pending(
                        Discovery {
                            scope,
                            harvest,
                            stage: Stage::Search { pass: pass + 1, page: 0, cursor: None },
                        },
                    );
                }
                if harvest.lineages.len() > MAX_LINEAGE_WALKS {
                    let count: u64 = harvest.lineages.len() as u64;
                    return DiscoveryProgress::Finished(
                        harvest.failed(
                            AcdpError::SearchTruncated(
                                Truncation::Lineages { searched: scope.subject(), count },
                            ),
                        ),
                    );
                }
                Self::next_walk(scope, harvest, 0)
            },
        }
    }

    fn next_walk(scope: DiscoveryScope, harvest: Harvest, index: usize) -> (progress:
        DiscoveryProgress)
        requires
            harvest.lineages@.len() <= MAX_LINEAGE_WALKS,
        ensures
            forall|o: DiscoveryAnswers| #[trigger]
                progress.outcome(o) == from_walk(scope@, index as int, harvest@, o),
            progress.dropped_so_far() == harvest@.dropped,
            progress matches DiscoveryProgress::Pending(d) ==> {
                &&& d.well_formed()
                &&& d.searches_for() == scope@
                &&& d.continuation() is None
                &&& d.gathered() == harvest@
                &&& d.walk_has_verified(Seq::<(Seq<char>, KeyRevocationView)>::empty())
                &&& d.asks() is Walk
                &&& d.position() == (SEARCH_PASSES as int, 0int)
                &&& d.searches_left() == 0
                &&& d.lineages_left() == harvest.lineages@.len() - index
                &&& d.at_hand() == 0
            },
    {
        if index >= harvest.lineages.len() {
            return DiscoveryProgress::Finished(
                SearchEnd { result: Ok(harvest.found), dropped: harvest.dropped },
            );
        }
        let lineage_id: LineageId = harvest.lineages[index].0.clone();
        let expected: CtxId = harvest.lineages[index].1.clone();
        let walk: LineageWalk = LineageWalk::start(lineage_id, Some(expected));
        DiscoveryProgress::Pending(
            Discovery { scope, harvest, stage: Stage::Walk { index, walk } },
        )
    }
}

/// Whether a revocation comes from a context that was verified.
pub open spec fn is_verified(o: DiscoveryAnswers, r: KeyRevocationView) -> bool {
    ||| exists|id: Seq<char>| #[trigger]
        (o.candidate)(id) == CandidateView::Checked(Ok::<KeyRevocationView, AcdpError<Seq<char>>>(r))
    ||| exists|id: Seq<char>, k: int| #[trigger]
        (o.member)(id, k) == Ok::<KeyRevocationView, AcdpError<Seq<char>>>(r)
}

/// Whether a verified revocation has been sorted in at the end of a search: it
/// is in the result if it is within the scope, and among the dropped if it is
/// not.
pub open spec fn sorted_in(
    scope: DiscoveryScopeView,
    id: Seq<char>,
    r: KeyRevocationView,
    from_walk: bool,
    end: SearchEndView,
) -> bool {
    if scope.keeps(r) {
        end.result matches Ok(found) && found.contains(r)
    } else {
        end.dropped.contains(DroppedView { ctx_id: id, revocation: r, from_walk })
    }
}

/// Whether a context is accounted for at the end of a search: it was retrieved,
/// and either it verified and has been sorted in, or it failed for good.
pub open spec fn accounted(
    scope: DiscoveryScopeView,
    o: DiscoveryAnswers,
    id: Seq<char>,
    end: SearchEndView,
) -> bool {
    match (o.candidate)(id) {
        CandidateView::Unavailable(_) => false,
        CandidateView::Checked(Ok(r)) => sorted_in(scope, id, r, false, end),
        CandidateView::Checked(Err(e)) => !e.transient(),
    }
}

/// Whether a context is a result on a page that the registry has.
pub open spec fn is_result(o: DiscoveryAnswers, id: Seq<char>) -> bool {
    exists|pass: int, page: int, i: int| #[trigger] is_result_at(o, pass, page, i, id)
}

/// Whether a context is the result at a place on a page that the registry has.
pub open spec fn is_result_at(
    o: DiscoveryAnswers,
    pass: int,
    page: int,
    i: int,
    id: Seq<char>,
) -> bool {
    &&& 0 <= pass < SEARCH_PASSES
    &&& is_page(o, pass, 0, page)
    &&& (o.search)(pass, page) matches Ok(results)
    &&& 0 <= i < results.matches.len()
    &&& results.matches[i].0 == id
}

/// Whether a context is listed as a member of a lineage at this place,
/// verified, and has been sorted in at the end of a search.
pub open spec fn is_sorted_member(
    scope: DiscoveryScopeView,
    o: DiscoveryAnswers,
    lineage_id: Seq<char>,
    k: int,
    id: Seq<char>,
    end: SearchEndView,
) -> bool {
    &&& (o.lineage)(lineage_id) matches Ok(ids)
    &&& 0 <= k < ids.len()
    &&& ids[k] == id
    &&& (o.member)(lineage_id, k) matches Ok(r)
    &&& sorted_in(scope, id, r, true, end)
}

/// Whether a member of a lineage has been looked at by the end of a search.
/// Each context is looked at once, at first sight: as a search result, which
/// is then accounted for, or as a verified member, which has then been sorted
/// in.
pub open spec fn looked_at(
    scope: DiscoveryScopeView,
    o: DiscoveryAnswers,
    id: Seq<char>,
    end: SearchEndView,
) -> bool {
    ||| is_result(o, id) && accounted(scope, o, id, end)
    ||| exists|lineage_id: Seq<char>, k: int| #[trigger]
        is_sorted_member(scope, o, lineage_id, k, id, end)
}

/// Whether every verified member of a lineage has been looked at.
pub open spec fn members_looked_at(
    scope: DiscoveryScopeView,
    o: DiscoveryAnswers,
    members: Seq<(Seq<char>, KeyRevocationView)>,
    end: SearchEndView,
) -> bool {
    forall|m: int|
        0 <= m < members.len() ==> looked_at(scope, o, (#[trigger] members[m]).0, end)
}

/// Whether a lineage was walked to its end, with some expected member in it,
/// and every verified member of it has been looked at.
pub open spec fn walked_through(
    scope: DiscoveryScopeView,
    o: DiscoveryAnswers,
    lineage_id: Seq<char>,
    end: SearchEndView,
) -> bool {
    exists|first: Seq<char>|
        {
            &&& (#[trigger] crate::lineage_walk::walk_outcome(
                lineage_id,
                Some(first),
                o.of_lineage(lineage_id),
            )) matches Ok(members)
            &&& members_looked_at(scope, o, members, end)
        }
}

/// Whether a page was taken in whole: it was served, every context on it is
/// accounted for, every lineage on it was walked, and it is not the last page
/// that is followed while there are more.
pub open spec fn page_taken(
    scope: DiscoveryScopeView,
    o: DiscoveryAnswers,
    pass: int,
    page: int,
    end: SearchEndView,
) -> bool {
    &&& (o.search)(pass, page) matches Ok(results)
    &&& page + 1 >= MAX_SEARCH_PAGES ==> results.next_cursor is None
    &&& forall|i: int|
        0 <= i < results.matches.len() ==> accounted(
            scope,
            o,
            (#[trigger] results.matches[i]).0,
            end,
        ) && walked_through(scope, o, results.matches[i].1, end)
}

/// Whether the registry has more results behind a page.
pub open spec fn has_more(o: DiscoveryAnswers, pass: int, page: int) -> bool {
    (o.search)(pass, page) matches Ok(results) && results.next_cursor is Some
}

/// Whether a page is among those of a pass from `from` on: every page before
/// it has more behind it.
pub open spec fn is_page(o: DiscoveryAnswers, pass: int, from: int, page: int) -> bool {
    &&& from <= page < MAX_SEARCH_PAGES
    &&& forall|q: int| from <= q < page ==> #[trigger] has_more(o, pass, q)
}

spec fn pages_taken(
    scope: DiscoveryScopeView,
    o: DiscoveryAnswers,
    pass: int,
    from: int,
    end: SearchEndView,
) -> bool {
    forall|page: int| is_page(o, pass, from, page) ==> #[trigger] page_taken(scope, o, pass, page, end)
}

spec fn passes_taken(
    scope: DiscoveryScopeView,
    o: DiscoveryAnswers,
    from: int,
    end: SearchEndView,
) -> bool {
    forall|pass: int|
        from <= pass < SEARCH_PASSES ==> #[trigger] pages_taken(scope, o, pass, 0, end)
}

spec fn all_accounted(scope: DiscoveryScopeView, o: DiscoveryAnswers, g: Gathered) -> bool {
    forall|i: int|
        0 <= i < g.seen.len() ==> accounted(scope, o, #[trigger] g.seen[i], g.complete())
}

spec fn extends(
    scope: DiscoveryScopeView,
    o: DiscoveryAnswers,
    g: Gathered,
    end: SearchEndView,
) -> bool {
    &&& end.result matches Ok(result)
    &&& g.found.is_prefix_of(result)
    &&& g.dropped.is_prefix_of(end.dropped)
    &&& forall|i: int|
        g.found.len() <= i < result.len() ==> scope.keeps(#[trigger] result[i]) && is_verified(
            o,
            result[i],
        )
    &&& forall|i: int|
        0 <= i < g.lineages.len() ==> walked_through(
            scope,
            o,
            (#[trigger] g.lineages[i]).0,
            end,
        )
}

spec fn all_results(o: DiscoveryAnswers, g: Gathered) -> bool {
    forall|i: int| 0 <= i < g.seen.len() ==> is_result(o, #[trigger] g.seen[i])
}

spec fn all_looked_at(scope: DiscoveryScopeView, o: DiscoveryAnswers, g: Gathered) -> bool {
    forall|i: int|
        0 <= i < g.seen.len() ==> looked_at(scope, o, #[trigger] g.seen[i], g.complete())
}

proof fn lemma_looked_at_in_more(
    scope: DiscoveryScopeView,
    o: DiscoveryAnswers,
    id: Seq<char>,
    g: Gathered,
    end: SearchEndView,
)
    requires
        looked_at(scope, o, id, g.complete()),
        end.result matches Ok(result) && g.found.is_prefix_of(result),
        g.dropped.is_prefix_of(end.dropped),
    ensures
        looked_at(scope, o, id, end),
{
    if is_result(o, id) && accounted(scope, o, id, g.complete()) {
        lemma_accounted_in_more(scope, o, id, g, end);
    } else {
        let (l, k) = choose|l: Seq<char>, k: int| #[trigger]
            is_sorted_member(scope, o, l, k, id, g.complete());
        let r = (o.member)(l, k)->Ok_0;
        if scope.keeps(r) {
            let i = choose|i: int| 0 <= i < g.found.len() && g.found[i] == r;
            assert(end.result->Ok_0[i] == r);
        } else {
            let d = DroppedView { ctx_id: id, revocation: r, from_walk: true };
            let i = choose|i: int| 0 <= i < g.dropped.len() && g.dropped[i] == d;
            assert(end.dropped[i] == d);
        }
        assert(is_sorted_member(scope, o, l, k, id, end));
    }
}

proof fn lemma_members_looked_at(
    scope: DiscoveryScopeView,
    o: DiscoveryAnswers,
    g: Gathered,
    lineage_id: Seq<char>,
    ids: Seq<Seq<char>>,
    members: Seq<(Seq<char>, KeyRevocationView)>,
)
    requires
        all_looked_at(scope, o, g),
        (o.lineage)(lineage_id) == Ok::<Seq<Seq<char>>, AcdpError<Seq<char>>>(ids),
        forall|m: int|
            0 <= m < members.len() ==> exists|k: int|
                0 <= k < ids.len() && (#[trigger] members[m]).0 == ids[k] && #[trigger] (o.member)(
                    lineage_id,
                    k,
                ) == Ok::<KeyRevocationView, AcdpError<Seq<char>>>(members[m].1),
    ensures
        all_looked_at(scope, o, with_members(scope, g, members)),
        forall|m: int|
            0 <= m < members.len() ==> with_members(scope, g, members).seen.contains(
                (#[trigger] members[m]).0,
            ),
    decreases members.len(),
{
    if members.len() > 0 {
        let init = members.drop_last();
        let before = with_members(scope, g, init);
        let after = with_members(scope, g, members);
        let n = members.len() - 1;
        assert forall|m: int| 0 <= m < init.len() implies exists|k: int|
            0 <= k < ids.len() && (#[trigger] init[m]).0 == ids[k] && #[trigger] (o.member)(
                lineage_id,
                k,
            ) == Ok::<KeyRevocationView, AcdpError<Seq<char>>>(init[m].1) by {
            assert(init[m] == members[m]);
        }
        lemma_members_looked_at(scope, o, g, lineage_id, ids, init);
        let (id, r) = members.last();
        assert(members[n] == members.last());
        if !before.seen.contains(id) {
            assert(after.seen == before.seen.push(id));
            assert(before.found =~= after.found.take(before.found.len() as int));
            assert(before.dropped =~= after.dropped.take(before.dropped.len() as int));
            let k = choose|k: int|
                0 <= k < ids.len() && members[n].0 == ids[k] && #[trigger] (o.member)(
                    lineage_id,
                    k,
                ) == Ok::<KeyRevocationView, AcdpError<Seq<char>>>(members[n].1);
            if scope.keeps(r) {
                assert(after.found[before.found.len() as int] == r);
            } else {
                assert(after.dropped[before.dropped.len() as int] == DroppedView {
                    ctx_id: id,
                    revocation: r,
                    from_walk: true,
                });
            }
            assert(is_sorted_member(scope, o, lineage_id, k, id, after.complete()));
            assert forall|i: int| 0 <= i < after.seen.len() implies looked_at(
                scope,
                o,
                #[trigger] after.seen[i],
                after.complete(),
            ) by {
                if i < before.seen.len() {
                    assert(after.seen[i] == before.seen[i]);
                    lemma_looked_at_in_more(scope, o, before.seen[i], before, after.complete());
                }
            }
        }
        assert forall|m: int| 0 <= m < members.len() implies after.seen.contains(
            (#[trigger] members[m]).0,
        ) by {
            if m < n {
                assert(init[m] == members[m]);
                let i = choose|i: int|
                    0 <= i < before.seen.len() && before.seen[i] == members[m].0;
                assert(after.seen[i] == members[m].0);
            } else if !before.seen.contains(id) {
                assert(after.seen[before.seen.len() as int] == id);
            }
        }
    }
}

proof fn lemma_accounted_in_more(
    scope: DiscoveryScopeView,
    o: DiscoveryAnswers,
    id: Seq<char>,
    g: Gathered,
    end: SearchEndView,
)
    requires
        accounted(scope, o, id, g.complete()),
        end.result matches Ok(result) && g.found.is_prefix_of(result),
        g.dropped.is_prefix_of(end.dropped),
    ensures
        accounted(scope, o, id, end),
{
    if let CandidateView::Checked(Ok(r)) = (o.candidate)(id) {
        if scope.keeps(r) {
            let i = choose|i: int| 0 <= i < g.found.len() && g.found[i] == r;
            assert(end.result->Ok_0[i] == r);
        } else {
            let d = DroppedView { ctx_id: id, revocation: r, from_walk: false };
            let i = choose|i: int| 0 <= i < g.dropped.len() && g.dropped[i] == d;
            assert(end.dropped[i] == d);
        }
    }
}

proof fn lemma_kept(
    scope: DiscoveryScopeView,
    queue: Seq<Seq<char>>,
    k: int,
    g: Gathered,
    o: DiscoveryAnswers,
)
    requires
        0 <= k <= queue.len(),
    ensures
        kept(scope, queue, k, g, o) matches Ok(all) ==> {
            &&& all.seen == g.seen
            &&& all.lineages == g.lineages
            &&& g.found.is_prefix_of(all.found)
            &&& g.dropped.is_prefix_of(all.dropped)
            &&& forall|i: int|
                g.found.len() <= i < all.found.len() ==> scope.keeps(#[trigger] all.found[i])
                    && is_verified(o, all.found[i])
            &&& forall|i: int|
                k <= i < queue.len() ==> accounted(scope, o, #[trigger] queue[i], all.complete())
        },
        kept(scope, queue, k, g, o) matches Err(end) ==> end.result is Err,
    decreases queue.len() - k,
{
    if k < queue.len() {
        match (o.candidate)(queue[k]) {
            CandidateView::Unavailable(_) => {},
            CandidateView::Checked(Ok(r)) => {
                let more = g.with(scope, queue[k], r, false);
                lemma_kept(scope, queue, k + 1, more, o);
                if let Ok(all) = kept(scope, queue, k, g, o) {
                    assert(g.found =~= all.found.take(g.found.len() as int));
                    assert(g.dropped =~= all.dropped.take(g.dropped.len() as int));
                    if scope.keeps(r) {
                        assert(all.found[g.found.len() as int] == more.found[g.found.len() as int]);
                        assert(is_verified(o, r));
                    } else {
                        assert(all.dropped[g.dropped.len() as int]
                            == more.dropped[g.dropped.len() as int]);
                    }
                }
            },
            CandidateView::Checked(Err(e)) => {
                if !e.transient() {
                    lemma_kept(scope, queue, k + 1, g, o);
                }
            },
        }
    }
}

proof fn lemma_intake(start: Intake, matches: Seq<(Seq<char>, Seq<char>)>)
    ensures
        ({
            let noted = intake(start, matches);
            &&& start.lineages.is_prefix_of(noted.lineages)
            &&& forall|i: int|
                0 <= i < matches.len() ==> noted.seen.contains((#[trigger] matches[i]).0)
                    && names_lineage(noted.lineages, matches[i].1)
            &&& forall|id: Seq<char>| #[trigger]
                noted.seen.contains(id) ==> start.seen.contains(id) || noted.queue.contains(id)
            &&& start.queue.is_prefix_of(noted.queue)
            &&& forall|i: int|
                start.queue.len() <= i < noted.queue.len() ==> noted.seen.contains(
                    #[trigger] noted.queue[i],
                ) && !start.seen.contains(noted.queue[i])
            &&& forall|i: int|
                start.queue.len() <= i < noted.queue.len() ==> exists|m: int|
                    0 <= m < matches.len() && (#[trigger] matches[m]).0 == #[trigger] noted.queue[i]
            &&& forall|id: Seq<char>| start.seen.contains(id) ==> #[trigger] noted.seen.contains(id)
            &&& forall|i: int, j: int|
                start.queue.len() <= i < j < noted.queue.len() ==> noted.queue[i] != noted.queue[j]
            &&& start.seen.no_duplicates() ==> noted.seen.no_duplicates()
        }),
    decreases matches.len(),
{
    if matches.len() > 0 {
        let init = matches.drop_last();
        let before = intake(start, init);
        let noted = intake(start, matches);
        let (ctx_id, lineage_id) = matches.last();
        lemma_intake(start, init);
        assert(start.lineages =~= noted.lineages.take(start.lineages.len() as int));
        assert(start.queue =~= noted.queue.take(start.queue.len() as int));
        assert forall|id: Seq<char>| before.seen.contains(id) implies #[trigger] noted.seen.contains(
            id,
        ) by {
            let n = choose|n: int| 0 <= n < before.seen.len() && before.seen[n] == id;
            assert(noted.seen[n] == id);
        }
        assert(noted.seen.contains(ctx_id)) by {
            if !before.seen.contains(ctx_id) {
                assert(noted.seen[before.seen.len() as int] == ctx_id);
            }
        }
        assert forall|id: Seq<char>| noted.seen.contains(id) implies before.seen.contains(id) || id
            == ctx_id by {
            let n = choose|n: int| 0 <= n < noted.seen.len() && noted.seen[n] == id;
            if n < before.seen.len() {
                assert(before.seen[n] == id);
            }
        }
        assert forall|id: Seq<char>| before.queue.contains(id) implies noted.queue.contains(id) by {
            let n = choose|n: int| 0 <= n < before.queue.len() && before.queue[n] == id;
            assert(noted.queue[n] == id);
        }
        if !before.seen.contains(ctx_id) {
            assert(noted.queue[before.queue.len() as int] == ctx_id);
            assert(noted.queue.contains(ctx_id));
        }
        assert forall|id: Seq<char>| noted.queue.contains(id) implies before.queue.contains(id) || (
        id == ctx_id && !before.seen.contains(ctx_id)) by {
            let n = choose|n: int| 0 <= n < noted.queue.len() && noted.queue[n] == id;
            if n < before.queue.len() {
                assert(before.queue[n] == id);
            }
        }
        assert forall|i: int| 0 <= i < matches.len() implies noted.seen.contains(
            (#[trigger] matches[i]).0,
        ) && names_lineage(noted.lineages, matches[i].1) by {
            if i < init.len() {
                assert(init[i] == matches[i]);
                let n = choose|n: int|
                    0 <= n < before.lineages.len() && #[trigger] before.lineages[n].0
                        == matches[i].1;
                assert(noted.lineages[n].0 == matches[i].1);
            } else if names_lineage(before.lineages, lineage_id) {
                let n = choose|n: int|
                    0 <= n < before.lineages.len() && #[trigger] before.lineages[n].0 == lineage_id;
                assert(noted.lineages[n].0 == lineage_id);
            } else {
                assert(noted.lineages[before.lineages.len() as int].0 == lineage_id);
            }
        }
        assert forall|i: int| start.queue.len() <= i < noted.queue.len() implies noted.seen.contains(
            #[trigger] noted.queue[i],
        ) && !start.seen.contains(noted.queue[i]) by {
            if i < before.queue.len() {
                assert(before.seen.contains(before.queue[i]));
            }
        }
        assert forall|i: int| start.queue.len() <= i < noted.queue.len() implies exists|m: int|
            0 <= m < matches.len() && (#[trigger] matches[m]).0 == #[trigger] noted.queue[i] by {
            if i < before.queue.len() {
                assert(noted.queue[i] == before.queue[i]);
                let m = choose|m: int|
                    0 <= m < init.len() && (#[trigger] init[m]).0 == before.queue[i];
                assert(matches[m].0 == noted.queue[i]);
            } else {
                assert(matches[matches.len() - 1].0 == noted.queue[i]);
            }
        }
        assert forall|i: int, j: int|
            start.queue.len() <= i < j < noted.queue.len() implies noted.queue[i]
            != noted.queue[j] by {
            assert(noted.queue[i] == before.queue[i]);
            if j < before.queue.len() {
                assert(before.queue[i] != before.queue[j]);
            } else {
                assert(before.seen.contains(before.queue[i]));
            }
        }
    }
}

proof fn lemma_with_members(
    scope: DiscoveryScopeView,
    g: Gathered,
    members: Seq<(Seq<char>, KeyRevocationView)>,
)
    ensures
        ({
            let after = with_members(scope, g, members);
            &&& g.found.is_prefix_of(after.found)
            &&& g.dropped.is_prefix_of(after.dropped)
            &&& forall|i: int|
                g.found.len() <= i < after.found.len() ==> scope.keeps(#[trigger] after.found[i])
                    && exists|m: int|
                    0 <= m < members.len() && #[trigger] members[m].1 == after.found[i]
        }),
    decreases members.len(),
{
    if members.len() > 0 {
        let init = members.drop_last();
        let before = with_members(scope, g, init);
        let after = with_members(scope, g, members);
        lemma_with_members(scope, g, init);
        assert(g.found =~= after.found.take(g.found.len() as int));
        assert(g.dropped =~= after.dropped.take(g.dropped.len() as int));
        assert forall|i: int| g.found.len() <= i < after.found.len() implies scope.keeps(
            #[trigger] after.found[i],
        ) && exists|m: int|
            0 <= m < members.len() && #[trigger] members[m].1 == after.found[i] by {
            if i < before.found.len() {
                assert(before.found[i] == after.found[i]);
                let m = choose|m: int|
                    0 <= m < init.len() && #[trigger] init[m].1 == before.found[i];
                assert(members[m].1 == after.found[i]);
            } else {
                assert(members[members.len() - 1].1 == after.found[i]);
            }
        }
    }
}

proof fn lemma_from_walk(scope: DiscoveryScopeView, index: int, g: Gathered, o: DiscoveryAnswers)
    requires
        0 <= index <= g.lineages.len(),
        all_looked_at(scope, o, g),
    ensures
        from_walk(scope, index, g, o).result matches Ok(result) ==> {
            &&& g.found.is_prefix_of(result)
            &&& g.dropped.is_prefix_of(from_walk(scope, index, g, o).dropped)
            &&& forall|i: int|
                g.found.len() <= i < result.len() ==> scope.keeps(#[trigger] result[i])
                    && is_verified(o, result[i])
            &&& forall|i: int|
                index <= i < g.lineages.len() ==> walked_through(
                    scope,
                    o,
                    (#[trigger] g.lineages[i]).0,
                    from_walk(scope, index, g, o),
                )
        },
    decreases g.lineages.len() - index,
{
    if index < g.lineages.len() {
        let (lineage_id, expected) = g.lineages[index];
        let answers = o.of_lineage(lineage_id);
        let walked = crate::lineage_walk::walk_outcome(lineage_id, Some(expected), answers);
        if let Ok(members) = walked {
            let next = with_members(scope, g, members);
            lemma_members_keep_lineages(scope, g, members);
            lemma_with_members(scope, g, members);
            let ids = answers.listing->Ok_0;
            assert forall|m: int| 0 <= m < members.len() implies exists|k: int|
                0 <= k < ids.len() && (#[trigger] members[m]).0 == ids[k] && #[trigger] (o.member)(
                    lineage_id,
                    k,
                ) == Ok::<KeyRevocationView, AcdpError<Seq<char>>>(members[m].1) by {
                crate::lineage_walk::law_walk_adds_nothing(
                    lineage_id,
                    Some(expected),
                    answers,
                    m,
                );
                let k = choose|k: int|
                    0 <= k < ids.len() && members[m].0 == ids[k] && #[trigger] (answers.member)(k)
                        == Ok::<KeyRevocationView, AcdpError<Seq<char>>>(members[m].1);
                assert((o.member)(lineage_id, k) == (answers.member)(k));
            }
            lemma_members_looked_at(scope, o, g, lineage_id, ids, members);
            lemma_from_walk(scope, index + 1, next, o);
            let end = from_walk(scope, index, g, o);
            if let Ok(result) = end.result {
                assert(members_looked_at(scope, o, members, end)) by {
                    assert forall|m: int| 0 <= m < members.len() implies looked_at(
                        scope,
                        o,
                        (#[trigger] members[m]).0,
                        end,
                    ) by {
                        let i = choose|i: int|
                            0 <= i < next.seen.len() && next.seen[i] == members[m].0;
                        lemma_looked_at_in_more(scope, o, next.seen[i], next, end);
                    }
                }
                assert(walked_through(scope, o, lineage_id, end));
                assert(g.found =~= result.take(g.found.len() as int));
                assert(g.dropped =~= end.dropped.take(g.dropped.len() as int));
                assert forall|i: int| g.found.len() <= i < result.len() implies scope.keeps(
                    #[trigger] result[i],
                ) && is_verified(o, result[i]) by {
                    if i < next.found.len() {
                        assert(result[i] == next.found[i]);
                        let m = choose|m: int|
                            0 <= m < members.len() && #[trigger] members[m].1 == next.found[i];
                        assert(members[m].1 == result[i]);
                    }
                }
            }
        }
    }
}

proof fn lemma_from_pass(scope: DiscoveryScopeView, pass: int, g: Gathered, o: DiscoveryAnswers)
    requires
        0 <= pass <= SEARCH_PASSES,
        all_accounted(scope, o, g),
        all_results(o, g),
    ensures
        ({
            let end = from_pass(scope, pass, g, o);
            end.result is Ok ==> extends(scope, o, g, end) && passes_taken(scope, o, pass, end)
        }),
    decreases SEARCH_PASSES - pass, MAX_SEARCH_PAGES + 1, 0int,
{
    if pass >= SEARCH_PASSES {
        assert forall|i: int| 0 <= i < g.seen.len() implies looked_at(
            scope,
            o,
            #[trigger] g.seen[i],
            g.complete(),
        ) by {
            assert(is_result(o, g.seen[i]));
        }
        lemma_from_walk(scope, 0, g, o);
    } else {
        lemma_from_page(scope, pass, 0, g, o);
        let end = from_pass(scope, pass, g, o);
        if end.result is Ok {
            assert forall|p: int| pass <= p < SEARCH_PASSES implies #[trigger] pages_taken(
                scope,
                o,
                p,
                0,
                end,
            ) by {}
        }
    }
}

proof fn lemma_from_page(
    scope: DiscoveryScopeView,
    pass: int,
    page: int,
    g: Gathered,
    o: DiscoveryAnswers,
)
    requires
        0 <= pass < SEARCH_PASSES,
        0 <= page < MAX_SEARCH_PAGES,
        is_page(o, pass, 0, page),
        all_accounted(scope, o, g),
        all_results(o, g),
    ensures
        ({
            let end = from_page(scope, pass, page, g, o);
            end.result is Ok ==> {
                &&& extends(scope, o, g, end)
                &&& pages_taken(scope, o, pass, page, end)
                &&& passes_taken(scope, o, pass + 1, end)
            }
        }),
    decreases SEARCH_PASSES - pass, MAX_SEARCH_PAGES - page, 1int,
{
    if let Ok(results) = (o.search)(pass, page) {
        let start = Intake { seen: g.seen, lineages: g.lineages, queue: Seq::empty() };
        let noted = intake(start, results.matches);
        lemma_intake(start, results.matches);
        let begun = Gathered { seen: noted.seen, lineages: noted.lineages, ..g };
        lemma_kept(scope, noted.queue, 0, begun, o);
        if let Ok(after) = kept(scope, noted.queue, 0, begun, o) {
            assert(all_accounted(scope, o, after)) by {
                assert forall|i: int| 0 <= i < after.seen.len() implies accounted(
                    scope,
                    o,
                    #[trigger] after.seen[i],
                    after.complete(),
                ) by {
                    let id = after.seen[i];
                    assert(noted.seen.contains(id));
                    if g.seen.contains(id) {
                        let n = choose|n: int| 0 <= n < g.seen.len() && g.seen[n] == id;
                        lemma_accounted_in_more(scope, o, g.seen[n], g, after.complete());
                    } else {
                        assert(noted.queue.contains(id));
                        let n = choose|n: int| 0 <= n < noted.queue.len() && noted.queue[n] == id;
                        assert(accounted(scope, o, noted.queue[n], after.complete()));
                    }
                }
            }
            assert(all_results(o, after)) by {
                assert forall|i: int| 0 <= i < after.seen.len() implies is_result(
                    o,
                    #[trigger] after.seen[i],
                ) by {
                    let id = after.seen[i];
                    assert(noted.seen.contains(id));
                    if g.seen.contains(id) {
                        let n = choose|n: int| 0 <= n < g.seen.len() && g.seen[n] == id;
                        assert(is_result(o, g.seen[n]));
                    } else {
                        let n = choose|n: int| 0 <= n < noted.queue.len() && noted.queue[n] == id;
                        let m = choose|m: int|
                            0 <= m < results.matches.len() && (#[trigger] results.matches[m]).0
                                == noted.queue[n];
                        assert(is_result_at(o, pass, page, m, id));
                    }
                }
            }
            let more = results.next_cursor is Some;
            lemma_after_page(scope, pass, page, more, after, o);
            let end = from_page(scope, pass, page, g, o);
            if let Ok(result) = end.result {
                assert(extends(scope, o, after, end));
                assert(g.found =~= result.take(g.found.len() as int));
                assert(g.dropped =~= end.dropped.take(g.dropped.len() as int));
                assert forall|i: int| g.found.len() <= i < result.len() implies scope.keeps(
                    #[trigger] result[i],
                ) && is_verified(o, result[i]) by {
                    if i < after.found.len() {
                        assert(result[i] == after.found[i]);
                    }
                }
                assert forall|i: int| 0 <= i < g.lineages.len() implies walked_through(
                    scope,
                    o,
                    (#[trigger] g.lineages[i]).0,
                    end,
                ) by {
                    assert(after.lineages[i] == g.lineages[i]);
                }
                assert(page_taken(scope, o, pass, page, end)) by {
                    assert forall|i: int| 0 <= i < results.matches.len() implies accounted(
                        scope,
                        o,
                        (#[trigger] results.matches[i]).0,
                        end,
                    ) && walked_through(scope, o, results.matches[i].1, end) by {
                        let id = results.matches[i].0;
                        let n = choose|n: int| 0 <= n < noted.seen.len() && noted.seen[n] == id;
                        assert(accounted(scope, o, after.seen[n], after.complete()));
                        lemma_accounted_in_more(scope, o, id, after, end);
                        let l = choose|l: int|
                            0 <= l < noted.lineages.len() && #[trigger] noted.lineages[l].0
                                == results.matches[i].1;
                        assert(walked_through(scope, o, after.lineages[l].0, end));
                    }
                }
                assert forall|q: int| is_page(o, pass, page, q) implies #[trigger] page_taken(
                    scope,
                    o,
                    pass,
                    q,
                    end,
                ) by {
                    if q > page {
                        assert(has_more(o, pass, page));
                        assert(is_page(o, pass, page + 1, q));
                    }
                }
            }
        }
    }
}

proof fn lemma_after_page(
    scope: DiscoveryScopeView,
    pass: int,
    page: int,
    more: bool,
    g: Gathered,
    o: DiscoveryAnswers,
)
    requires
        0 <= pass < SEARCH_PASSES,
        0 <= page < MAX_SEARCH_PAGES,
        is_page(o, pass, 0, page),
        more ==> has_more(o, pass, page),
        all_accounted(scope, o, g),
        all_results(o, g),
    ensures
        ({
            let end = after_page(scope, pass, page, more, g, o);
            end.result is Ok ==> {
                &&& extends(scope, o, g, end)
                &&& more ==> page + 1 < MAX_SEARCH_PAGES && pages_taken(
                    scope,
                    o,
                    pass,
                    page + 1,
                    end,
                )
                &&& passes_taken(scope, o, pass + 1, end)
            }
        }),
    decreases SEARCH_PASSES - pass, MAX_SEARCH_PAGES - page, 0int,
{
    if !more {
        lemma_from_pass(scope, pass + 1, g, o);
    } else if page + 1 < MAX_SEARCH_PAGES {
        lemma_from_page(scope, pass, page + 1, g, o);
    }
}

proof fn lemma_discovery(scope: DiscoveryScopeView, o: DiscoveryAnswers)
    ensures
        discovery_outcome(scope, o).result matches Ok(result) ==> {
            &&& passes_taken(scope, o, 0, discovery_outcome(scope, o))
            &&& forall|i: int|
                0 <= i < result.len() ==> scope.keeps(#[trigger] result[i]) && is_verified(
                    o,
                    result[i],
                )
        },
{
    lemma_from_pass(scope, 0, Gathered::nothing(), o);
}

/// Whatever a registry serves, a search returns nothing but verified
/// revocations within its scope: of the producer that it is about, or
/// attested by the very registry that was searched for the controller that it
/// is about.
pub proof fn law_discovery_returns_only_verified_in_scope(
    scope: DiscoveryScopeView,
    o: DiscoveryAnswers,
    i: int,
)
    ensures
        discovery_outcome(scope, o).result matches Ok(result) ==> 0 <= i < result.len()
            ==> scope.keeps(result[i]) && is_verified(o, result[i]),
{
    lemma_discovery(scope, o);
}

/// A search that succeeds is exhaustive: every page that the registry has for
/// any combination of type and status was served, there was no page beyond
/// those that are followed, every context on them is accounted for, and every
/// lineage on them was walked to its end, with every verified member of it
/// looked at, then or before: a member that was not seen before is in the
/// result if it is within the scope, and reported as dropped if it is not.
pub proof fn law_discovery_is_exhaustive(
    scope: DiscoveryScopeView,
    o: DiscoveryAnswers,
    pass: int,
    page: int,
)
    requires
        0 <= pass < SEARCH_PASSES,
        is_page(o, pass, 0, page),
    ensures
        discovery_outcome(scope, o).result is Ok ==> page_taken(
            scope,
            o,
            pass,
            page,
            discovery_outcome(scope, o),
        ),
{
    lemma_discovery(scope, o);
    if discovery_outcome(scope, o).result is Ok {
        assert(pages_taken(scope, o, pass, 0, discovery_outcome(scope, o)));
    }
}

/// Whether a dropped revocation is one that was verified and is out of scope:
/// of the very context that it is reported for, or of a member of a lineage.
pub open spec fn rightly_dropped(
    scope: DiscoveryScopeView,
    o: DiscoveryAnswers,
    d: DroppedView,
) -> bool {
    &&& !scope.keeps(d.revocation)
    &&& if d.from_walk {
        exists|id: Seq<char>, k: int| #[trigger]
            (o.member)(id, k) == Ok::<KeyRevocationView, AcdpError<Seq<char>>>(d.revocation)
    } else {
        (o.candidate)(d.ctx_id) == CandidateView::Checked(
            Ok::<KeyRevocationView, AcdpError<Seq<char>>>(d.revocation),
        )
    }
}

/// Whether everything that was dropped was rightly dropped, and each context
/// at most once.
pub open spec fn drops_in_order(
    scope: DiscoveryScopeView,
    o: DiscoveryAnswers,
    dropped: Seq<DroppedView>,
) -> bool {
    &&& forall|i: int| 0 <= i < dropped.len() ==> rightly_dropped(scope, o, #[trigger] dropped[i])
    &&& forall|i: int, j: int|
        0 <= i < j < dropped.len() ==> (#[trigger] dropped[i]).ctx_id != (
        #[trigger] dropped[j]).ctx_id
}

spec fn drops_kept_track_of(scope: DiscoveryScopeView, o: DiscoveryAnswers, g: Gathered) -> bool {
    &&& drops_in_order(scope, o, g.dropped)
    &&& forall|i: int|
        0 <= i < g.dropped.len() ==> g.seen.contains((#[trigger] g.dropped[i]).ctx_id)
}

proof fn lemma_drops_of_candidates(
    scope: DiscoveryScopeView,
    queue: Seq<Seq<char>>,
    k: int,
    g: Gathered,
    o: DiscoveryAnswers,
)
    requires
        0 <= k <= queue.len(),
        drops_kept_track_of(scope, o, g),
        queue.no_duplicates(),
        forall|i: int| k <= i < queue.len() ==> g.seen.contains(#[trigger] queue[i]),
        forall|i: int, j: int|
            k <= i < queue.len() && 0 <= j < g.dropped.len() ==> #[trigger] queue[i] != (
            #[trigger] g.dropped[j]).ctx_id,
    ensures
        match kept(scope, queue, k, g, o) {
            Ok(all) => drops_kept_track_of(scope, o, all),
            Err(end) => drops_in_order(scope, o, end.dropped),
        },
    decreases queue.len() - k,
{
    if k < queue.len() {
        match (o.candidate)(queue[k]) {
            CandidateView::Unavailable(_) => {},
            CandidateView::Checked(Ok(r)) => {
                let more = g.with(scope, queue[k], r, false);
                if !scope.keeps(r) {
                    assert(rightly_dropped(scope, o, more.dropped.last()));
                }
                assert(more.seen == g.seen);
                lemma_drops_of_candidates(scope, queue, k + 1, more, o);
            },
            CandidateView::Checked(Err(e)) => {
                if !e.transient() {
                    lemma_drops_of_candidates(scope, queue, k + 1, g, o);
                }
            },
        }
    }
}

proof fn lemma_drops_of_members(
    scope: DiscoveryScopeView,
    g: Gathered,
    lineage_id: Seq<char>,
    members: Seq<(Seq<char>, KeyRevocationView)>,
    o: DiscoveryAnswers,
)
    requires
        drops_kept_track_of(scope, o, g),
        forall|m: int|
            0 <= m < members.len() ==> exists|k: int| #[trigger]
                (o.member)(lineage_id, k) == Ok::<KeyRevocationView, AcdpError<Seq<char>>>(
                    (#[trigger] members[m]).1,
                ),
    ensures
        drops_kept_track_of(scope, o, with_members(scope, g, members)),
    decreases members.len(),
{
    if members.len() > 0 {
        let init = members.drop_last();
        let before = with_members(scope, g, init);
        let after = with_members(scope, g, members);
        assert forall|m: int| 0 <= m < init.len() implies exists|k: int| #[trigger]
            (o.member)(lineage_id, k) == Ok::<KeyRevocationView, AcdpError<Seq<char>>>(
                (#[trigger] init[m]).1,
            ) by {
            assert(init[m] == members[m]);
        }
        lemma_drops_of_members(scope, g, lineage_id, init, o);
        let (ctx_id, r) = members.last();
        assert(members[members.len() - 1] == members.last());
        if !before.seen.contains(ctx_id) {
            assert(after.seen == before.seen.push(ctx_id));
            assert(after.seen[before.seen.len() as int] == ctx_id);
            assert forall|i: int| 0 <= i < after.dropped.len() implies after.seen.contains(
                (#[trigger] after.dropped[i]).ctx_id,
            ) by {
                if i < before.dropped.len() {
                    let id = before.dropped[i].ctx_id;
                    let n = choose|n: int| 0 <= n < before.seen.len() && before.seen[n] == id;
                    assert(after.seen[n] == id);
                }
            }
            if !scope.keeps(r) {
                assert(rightly_dropped(scope, o, after.dropped.last()));
                assert forall|i: int, j: int| 0 <= i < j < after.dropped.len() implies (
                #[trigger] after.dropped[i]).ctx_id != (#[trigger] after.dropped[j]).ctx_id by {
                    assert(before.seen.contains(before.dropped[i].ctx_id));
                }
            }
        }
    }
}

proof fn lemma_drops_from_walk(
    scope: DiscoveryScopeView,
    index: int,
    g: Gathered,
    o: DiscoveryAnswers,
)
    requires
        0 <= index <= g.lineages.len(),
        drops_kept_track_of(scope, o, g),
    ensures
        drops_in_order(scope, o, from_walk(scope, index, g, o).dropped),
    decreases g.lineages.len() - index,
{
    if index < g.lineages.len() {
        let (lineage_id, expected) = g.lineages[index];
        let answers = o.of_lineage(lineage_id);
        if let Ok(members) = crate::lineage_walk::walk_outcome(lineage_id, Some(expected), answers) {
            assert forall|m: int| 0 <= m < members.len() implies exists|k: int| #[trigger]
                (o.member)(lineage_id, k) == Ok::<KeyRevocationView, AcdpError<Seq<char>>>(
                    (#[trigger] members[m]).1,
                ) by {
                crate::lineage_walk::law_walk_adds_nothing(
                    lineage_id,
                    Some(expected),
                    answers,
                    m,
                );
                let ids = answers.listing->Ok_0;
                let k = choose|k: int|
                    0 <= k < ids.len() && members[m].0 == ids[k] && #[trigger] (answers.member)(k)
                        == Ok::<KeyRevocationView, AcdpError<Seq<char>>>(members[m].1);
                assert((o.member)(lineage_id, k) == (answers.member)(k));
            }
            lemma_members_keep_lineages(scope, g, members);
            lemma_drops_of_members(scope, g, lineage_id, members, o);
            lemma_drops_from_walk(scope, index + 1, with_members(scope, g, members), o);
        }
    }
}

proof fn lemma_drops_from_pass(
    scope: DiscoveryScopeView,
    pass: int,
    g: Gathered,
    o: DiscoveryAnswers,
)
    requires
        0 <= pass <= SEARCH_PASSES,
        drops_kept_track_of(scope, o, g),
    ensures
        drops_in_order(scope, o, from_pass(scope, pass, g, o).dropped),
    decreases SEARCH_PASSES - pass, MAX_SEARCH_PAGES + 1, 0int,
{
    if pass >= SEARCH_PASSES {
        lemma_drops_from_walk(scope, 0, g, o);
    } else {
        lemma_drops_from_page(scope, pass, 0, g, o);
    }
}

proof fn lemma_drops_from_page(
    scope: DiscoveryScopeView,
    pass: int,
    page: int,
    g: Gathered,
    o: DiscoveryAnswers,
)
    requires
        0 <= pass < SEARCH_PASSES,
        0 <= page < MAX_SEARCH_PAGES,
        drops_kept_track_of(scope, o, g),
    ensures
        drops_in_order(scope, o, from_page(scope, pass, page, g, o).dropped),
    decreases SEARCH_PASSES - pass, MAX_SEARCH_PAGES - page, 1int,
{
    if let Ok(results) = (o.search)(pass, page) {
        let start = Intake { seen: g.seen, lineages: g.lineages, queue: Seq::empty() };
        let noted = intake(start, results.matches);
        lemma_intake(start, results.matches);
        let begun = Gathered { seen: noted.seen, lineages: noted.lineages, ..g };
        assert forall|i: int, j: int|
            0 <= i < noted.queue.len() && 0 <= j < begun.dropped.len() implies #[trigger]
            noted.queue[i] != (#[trigger] begun.dropped[j]).ctx_id by {
            assert(g.seen.contains(g.dropped[j].ctx_id));
        }
        assert(drops_kept_track_of(scope, o, begun)) by {
            assert forall|i: int| 0 <= i < begun.dropped.len() implies begun.seen.contains(
                (#[trigger] begun.dropped[i]).ctx_id,
            ) by {
                assert(g.seen.contains(g.dropped[i].ctx_id));
            }
        }
        lemma_drops_of_candidates(scope, noted.queue, 0, begun, o);
        lemma_kept(scope, noted.queue, 0, begun, o);
        if let Ok(after) = kept(scope, noted.queue, 0, begun, o) {
            if results.next_cursor is None {
                lemma_drops_from_pass(scope, pass + 1, after, o);
            } else if page + 1 < MAX_SEARCH_PAGES {
                lemma_drops_from_page(scope, pass, page + 1, after, o);
            }
        }
    }
}

/// Whatever a search drops as out of scope is reported, and nothing else:
/// everything reported was verified and is out of scope, no context is
/// reported twice, and this holds of a search that fails as well. Once a
/// search has succeeded, every result on every page that verified out of
/// scope is among what is reported.
pub proof fn law_drops_are_reported_once(
    scope: DiscoveryScopeView,
    o: DiscoveryAnswers,
    pass: int,
    page: int,
    i: int,
)
    requires
        0 <= pass < SEARCH_PASSES,
        is_page(o, pass, 0, page),
    ensures
        ({
            let end = discovery_outcome(scope, o);
            &&& drops_in_order(scope, o, end.dropped)
            &&& end.result is Ok ==> {
                &&& (o.search)(pass, page) matches Ok(results)
                &&& 0 <= i < results.matches.len() ==> match (o.candidate)(results.matches[i].0) {
                    CandidateView::Checked(Ok(r)) => !scope.keeps(r) ==> end.dropped.contains(
                        DroppedView {
                            ctx_id: results.matches[i].0,
                            revocation: r,
                            from_walk: false,
                        },
                    ),
                    _ => true,
                }
            }
        }),
{
    lemma_drops_from_pass(scope, 0, Gathered::nothing(), o);
    law_discovery_is_exhaustive(scope, o, pass, page);
}

/// No context is retrieved twice: what a page adds to the contexts to be
/// retrieved has not been looked at before, holds no context twice, and
/// counts as looked at from then on.
pub proof fn law_no_context_is_retrieved_twice(
    seen: Seq<Seq<char>>,
    lineages: Seq<(Seq<char>, Seq<char>)>,
    matches: Seq<(Seq<char>, Seq<char>)>,
)
    ensures
        ({
            let noted = intake(Intake { seen, lineages, queue: Seq::empty() }, matches);
            &&& noted.queue.no_duplicates()
            &&& forall|i: int|
                0 <= i < noted.queue.len() ==> !seen.contains(#[trigger] noted.queue[i])
                    && noted.seen.contains(noted.queue[i])
            &&& forall|id: Seq<char>| seen.contains(id) ==> #[trigger] noted.seen.contains(id)
        }),
{
    lemma_intake(Intake { seen, lineages, queue: Seq::empty() }, matches);
}

/// Whether a registry has a page of a pass: one of the first ten, with more
/// results behind every page before it.
pub open spec fn is_reached(o: DiscoveryAnswers, pass: int, page: int) -> bool {
    &&& 0 <= pass < 6
    &&& 0 <= page < 10
    &&& forall|q: int| 0 <= q < page ==> #[trigger] has_more(o, pass, q)
}

/// Whether there is a result at a place on a page that the registry has.
pub open spec fn lists(o: DiscoveryAnswers, pass: int, page: int, i: int) -> bool {
    &&& is_reached(o, pass, page)
    &&& (o.search)(pass, page) is Ok
    &&& 0 <= i < (o.search)(pass, page)->Ok_0.matches.len()
}

proof fn lemma_reached_is_page(o: DiscoveryAnswers, pass: int, page: int)
    ensures
        is_reached(o, pass, page) <==> 0 <= pass < SEARCH_PASSES && is_page(o, pass, 0, page),
{
}

/// A search for the revocations that a producer has signed, if it succeeds,
/// finds every result that verified as published and signed by the producer,
/// whichever key it is about, since when and for what reason.
pub proof fn law_every_signed_revocation_is_found(
    agent_id: Seq<char>,
    o: DiscoveryAnswers,
    pass: int,
    page: int,
    i: int,
    r: KeyRevocationView,
)
    requires
        lists(o, pass, page, i),
        (o.candidate)((o.search)(pass, page)->Ok_0.matches[i].0) == CandidateView::Checked(Ok(r)),
        r.publisher == agent_id,
        r.trust_class == RevocationTrustClass::ProducerSigned,
    ensures
        discovery_outcome(DiscoveryScopeView::ProducerSigned { agent_id }, o).result matches Ok(
            found,
        ) ==> found.contains(r),
{
    lemma_reached_is_page(o, pass, page);
    law_discovery_is_exhaustive(DiscoveryScopeView::ProducerSigned { agent_id }, o, pass, page);
}

/// A search for what a registry attests of a controller's keys, if it
/// succeeds, finds every result that verified as published by the registry
/// itself, under the identity of the authority that serves it, about a key of
/// that controller.
pub proof fn law_every_attested_revocation_is_found(
    controller: Seq<char>,
    serving_authority: Seq<char>,
    registry_did: Seq<char>,
    o: DiscoveryAnswers,
    pass: int,
    page: int,
    i: int,
    r: KeyRevocationView,
)
    requires
        lists(o, pass, page, i),
        (o.candidate)((o.search)(pass, page)->Ok_0.matches[i].0) == CandidateView::Checked(Ok(r)),
        r.revoked_key_controller == controller,
        r.publisher == registry_did,
        r.publisher == crate::types::did_web_of(serving_authority),
    ensures
        discovery_outcome(
            DiscoveryScopeView::RegistryAttested { controller, serving_authority, registry_did },
            o,
        ).result matches Ok(found) ==> found.contains(r),
{
    lemma_reached_is_page(o, pass, page);
    law_discovery_is_exhaustive(
        DiscoveryScopeView::RegistryAttested { controller, serving_authority, registry_did },
        o,
        pass,
        page,
    );
}

/// Whether a context says the same wherever it comes up: as a result, and as
/// a member of any lineage that it verified as one of.
pub open spec fn says_only(o: DiscoveryAnswers, id: Seq<char>, r: KeyRevocationView) -> bool {
    &&& forall|pass: int, page: int, i: int| #[trigger]
        lists(o, pass, page, i) && (o.search)(pass, page)->Ok_0.matches[i].0 == id ==> (
        o.candidate)(id) == CandidateView::Checked(Ok(r))
    &&& forall|lineage_id: Seq<char>, k: int|
        (o.lineage)(lineage_id) is Ok && 0 <= k < (o.lineage)(lineage_id)->Ok_0.len() && (o.lineage)(
            lineage_id,
        )->Ok_0[k] == id && (#[trigger] (o.member)(lineage_id, k)) is Ok ==> (o.member)(
            lineage_id,
            k,
        )->Ok_0 == r
}

proof fn lemma_member_is_sorted_in(
    scope: DiscoveryScopeView,
    o: DiscoveryAnswers,
    pass: int,
    page: int,
    i: int,
    k: int,
    r: KeyRevocationView,
)
    requires
        discovery_outcome(scope, o).result is Ok,
        lists(o, pass, page, i),
        ({
            let lineage_id = (o.search)(pass, page)->Ok_0.matches[i].1;
            &&& (o.lineage)(lineage_id) is Ok
            &&& 0 <= k < (o.lineage)(lineage_id)->Ok_0.len()
            &&& (o.member)(lineage_id, k) == Ok::<KeyRevocationView, AcdpError<Seq<char>>>(r)
            &&& says_only(o, (o.lineage)(lineage_id)->Ok_0[k], r)
        }),
        scope.keeps(r),
    ensures
        discovery_outcome(scope, o).result->Ok_0.contains(r),
{
    let end = discovery_outcome(scope, o);
    let lineage_id = (o.search)(pass, page)->Ok_0.matches[i].1;
    let ids = (o.lineage)(lineage_id)->Ok_0;
    let id = ids[k];
    lemma_reached_is_page(o, pass, page);
    law_discovery_is_exhaustive(scope, o, pass, page);
    assert(walked_through(scope, o, lineage_id, end));
    let answers = o.of_lineage(lineage_id);
    let first = choose|first: Seq<char>|
        {
            &&& (#[trigger] crate::lineage_walk::walk_outcome(lineage_id, Some(first), answers))
                matches Ok(members)
            &&& members_looked_at(scope, o, members, end)
        };
    let members = crate::lineage_walk::walk_outcome(lineage_id, Some(first), answers)->Ok_0;
    crate::lineage_walk::law_walk_gives_every_verified_member(lineage_id, Some(first), answers);
    let m = crate::lineage_walk::verified_before(answers, k) as int;
    assert((answers.member)(k) == Ok::<KeyRevocationView, AcdpError<Seq<char>>>(r));
    assert(members[m] == (id, r));
    assert(looked_at(scope, o, members[m].0, end));
    if is_result(o, id) && accounted(scope, o, id, end) {
        let (p, q, n) = choose|p: int, q: int, n: int| #[trigger] is_result_at(o, p, q, n, id);
        lemma_reached_is_page(o, p, q);
        assert(lists(o, p, q, n));
    } else {
        let (l, n) = choose|l: Seq<char>, n: int| #[trigger]
            is_sorted_member(scope, o, l, n, id, end);
        assert((o.member)(l, n) is Ok);
    }
}

/// A search for the revocations that a producer has signed, if it succeeds,
/// also finds every member of a lineage among its results that verified as
/// published and signed by the producer, whichever key it is about, since
/// when and for what reason, if the context says the same wherever it comes
/// up.
pub proof fn law_every_signed_member_is_found(
    agent_id: Seq<char>,
    o: DiscoveryAnswers,
    pass: int,
    page: int,
    i: int,
    k: int,
    r: KeyRevocationView,
)
    requires
        lists(o, pass, page, i),
        ({
            let lineage_id = (o.search)(pass, page)->Ok_0.matches[i].1;
            &&& (o.lineage)(lineage_id) is Ok
            &&& 0 <= k < (o.lineage)(lineage_id)->Ok_0.len()
            &&& (o.member)(lineage_id, k) == Ok::<KeyRevocationView, AcdpError<Seq<char>>>(r)
            &&& says_only(o, (o.lineage)(lineage_id)->Ok_0[k], r)
        }),
        r.publisher == agent_id,
        r.trust_class == RevocationTrustClass::ProducerSigned,
    ensures
        discovery_outcome(DiscoveryScopeView::ProducerSigned { agent_id }, o).result matches Ok(
            found,
        ) ==> found.contains(r),
{
    let scope = DiscoveryScopeView::ProducerSigned { agent_id };
    if discovery_outcome(scope, o).result is Ok {
        lemma_member_is_sorted_in(scope, o, pass, page, i, k, r);
    }
}

/// A search for what a registry attests of a controller's keys, if it
/// succeeds, also finds every member of a lineage among its results that
/// verified as published by the registry itself, under the identity of the
/// authority that serves it, about a key of that controller, if the context
/// says the same wherever it comes up.
pub proof fn law_every_attested_member_is_found(
    controller: Seq<char>,
    serving_authority: Seq<char>,
    registry_did: Seq<char>,
    o: DiscoveryAnswers,
    pass: int,
    page: int,
    i: int,
    k: int,
    r: KeyRevocationView,
)
    requires
        lists(o, pass, page, i),
        ({
            let lineage_id = (o.search)(pass, page)->Ok_0.matches[i].1;
            &&& (o.lineage)(lineage_id) is Ok
            &&& 0 <= k < (o.lineage)(lineage_id)->Ok_0.len()
            &&& (o.member)(lineage_id, k) == Ok::<KeyRevocationView, AcdpError<Seq<char>>>(r)
            &&& says_only(o, (o.lineage)(lineage_id)->Ok_0[k], r)
        }),
        r.revoked_key_controller == controller,
        r.publisher == registry_did,
        r.publisher == crate::types::did_web_of(serving_authority),
    ensures
        discovery_outcome(
            DiscoveryScopeView::RegistryAttested { controller, serving_authority, registry_did },
            o,
        ).result matches Ok(found) ==> found.contains(r),
{
    let scope = DiscoveryScopeView::RegistryAttested {
        controller,
        serving_authority,
        registry_did,
    };
    if discovery_outcome(scope, o).result is Ok {
        lemma_member_is_sorted_in(scope, o, pass, page, i, k, r);
    }
}

/// What a search finds is of whom it is for: published and signed by the
/// producer, or published by the registry, under the identity of the
/// authority that serves it, about a key of the controller. What it drops is
/// not.
pub proof fn law_nothing_else_is_found(
    agent_id: Seq<char>,
    controller: Seq<char>,
    serving_authority: Seq<char>,
    registry_did: Seq<char>,
    o: DiscoveryAnswers,
    r: KeyRevocationView,
    d: DroppedView,
)
    ensures
        ({
            let end = discovery_outcome(DiscoveryScopeView::ProducerSigned { agent_id }, o);
            &&& end.result is Ok && end.result->Ok_0.contains(r) ==> r.publisher == agent_id
                && r.trust_class == RevocationTrustClass::ProducerSigned && is_verified(o, r)
            &&& end.dropped.contains(d) ==> d.revocation.publisher != agent_id
                || d.revocation.trust_class != RevocationTrustClass::ProducerSigned
        }),
        ({
            let end = discovery_outcome(
                DiscoveryScopeView::RegistryAttested {
                    controller,
                    serving_authority,
                    registry_did,
                },
                o,
            );
            &&& end.result is Ok && end.result->Ok_0.contains(r) ==> r.revoked_key_controller
                == controller && r.publisher == registry_did && r.publisher
                == crate::types::did_web_of(serving_authority) && is_verified(o, r)
            &&& end.dropped.contains(d) ==> d.revocation.revoked_key_controller != controller
                || d.revocation.publisher != registry_did || d.revocation.publisher
                != crate::types::did_web_of(serving_authority)
        }),
{
    lemma_found_and_dropped(DiscoveryScopeView::ProducerSigned { agent_id }, o, r, d);
    lemma_found_and_dropped(
        DiscoveryScopeView::RegistryAttested { controller, serving_authority, registry_did },
        o,
        r,
        d,
    );
}

proof fn lemma_found_and_dropped(
    scope: DiscoveryScopeView,
    o: DiscoveryAnswers,
    r: KeyRevocationView,
    d: DroppedView,
)
    ensures
        ({
            let end = discovery_outcome(scope, o);
            &&& end.result is Ok && end.result->Ok_0.contains(r) ==> scope.keeps(r) && is_verified(
                o,
                r,
            )
            &&& end.dropped.contains(d) ==> !scope.keeps(d.revocation)
        }),
{
    let end = discovery_outcome(scope, o);
    if end.result is Ok && end.result->Ok_0.contains(r) {
        let found = end.result->Ok_0;
        let i = choose|i: int| 0 <= i < found.len() && found[i] == r;
        law_discovery_returns_only_verified_in_scope(scope, o, i);
    }
    lemma_drops_from_pass(scope, 0, Gathered::nothing(), o);
    if end.dropped.contains(d) {
        let i = choose|i: int| 0 <= i < end.dropped.len() && end.dropped[i] == d;
        assert(rightly_dropped(scope, o, end.dropped[i]));
    }
}

/// The six passes ask for both spellings of the type and for each of the
/// three statuses, a hundred results at a time, of the producer or of the
/// registry itself, from where the last page left off.
pub proof fn law_passes_ask_for_everything(
    agent_id: Seq<char>,
    controller: Seq<char>,
    serving_authority: Seq<char>,
    registry_did: Seq<char>,
    pass: usize,
    page: usize,
    cursor: Option<Seq<char>>,
)
    requires
        pass < 6,
    ensures
        ({
            let signed = search_request(
                DiscoveryScopeView::ProducerSigned { agent_id },
                pass,
                page,
                cursor,
            );
            let attested = search_request(
                DiscoveryScopeView::RegistryAttested {
                    controller,
                    serving_authority,
                    registry_did,
                },
                pass,
                page,
                cursor,
            );
            &&& signed.agent_id == agent_id
            &&& attested == SearchRequest { agent_id: registry_did, ..signed }
            &&& signed.pass == pass && signed.page == page
            &&& signed.cursor == cursor
            &&& signed.limit == 100
            &&& signed.context_type == if pass == 0 || pass == 1 || pass == 2 {
                "key-revocation"@
            } else {
                "acdp:key-revocation"@
            }
            &&& signed.status == if pass == 0 || pass == 3 {
                "active"@
            } else if pass == 1 || pass == 4 {
                "superseded"@
            } else {
                "retracted"@
            }
        }),
{
}

/// Whether nothing stands in the way of a search: every page is served, there
/// are no more than ten to a pass, every result could be looked at and every
/// lineage, no more than a hundred of them, lists the results that name it,
/// and each of its members could be looked at.
pub open spec fn can_be_searched(o: DiscoveryAnswers, lineages: Set<Seq<char>>) -> bool {
    &&& forall|pass: int, page: int| #[trigger]
        is_reached(o, pass, page) ==> (o.search)(pass, page) is Ok && (page == 9 ==> (o.search)(
            pass,
            page,
        )->Ok_0.next_cursor is None)
    &&& forall|pass: int, page: int, i: int| #[trigger]
        lists(o, pass, page, i) ==> {
            let (ctx_id, lineage_id) = (o.search)(pass, page)->Ok_0.matches[i];
            &&& (o.candidate)(ctx_id) is Checked
            &&& (o.candidate)(ctx_id)->Checked_0 is Err ==> !(o.candidate)(
                ctx_id,
            )->Checked_0->Err_0.transient()
            &&& lineages.contains(lineage_id)
            &&& (o.lineage)(lineage_id) is Ok
            &&& (o.lineage)(lineage_id)->Ok_0.contains(ctx_id)
        }
    &&& lineages.finite()
    &&& lineages.len() <= 100
    &&& forall|lineage_id: Seq<char>, k: int|
        lineages.contains(lineage_id) && (#[trigger] (o.member)(lineage_id, k)) is Err
            ==> !(o.member)(lineage_id, k)->Err_0.transient()
}

spec fn is_named(o: DiscoveryAnswers, lineage_id: Seq<char>, ctx_id: Seq<char>) -> bool {
    exists|pass: int, page: int, i: int| #[trigger]
        lists(o, pass, page, i) && (o.search)(pass, page)->Ok_0.matches[i] == (ctx_id, lineage_id)
}

spec fn lineages_are_named(o: DiscoveryAnswers, lineages: Seq<(Seq<char>, Seq<char>)>) -> bool {
    &&& forall|n: int|
        0 <= n < lineages.len() ==> is_named(o, (#[trigger] lineages[n]).0, lineages[n].1)
    &&& forall|n: int, m: int|
        0 <= n < m < lineages.len() ==> (#[trigger] lineages[n]).0 != (#[trigger] lineages[m]).0
}

proof fn lemma_noted_lineages(
    o: DiscoveryAnswers,
    pass: int,
    page: int,
    start: Intake,
    matches: Seq<(Seq<char>, Seq<char>)>,
)
    requires
        is_reached(o, pass, page),
        (o.search)(pass, page) is Ok,
        matches.is_prefix_of((o.search)(pass, page)->Ok_0.matches),
        lineages_are_named(o, start.lineages),
    ensures
        lineages_are_named(o, intake(start, matches).lineages),
    decreases matches.len(),
{
    if matches.len() > 0 {
        let all = (o.search)(pass, page)->Ok_0.matches;
        let init = matches.drop_last();
        assert(init.is_prefix_of(all)) by {
            assert(init =~= all.subrange(0, init.len() as int));
        }
        lemma_noted_lineages(o, pass, page, start, init);
        let before = intake(start, init);
        let after = intake(start, matches);
        let (ctx_id, lineage_id) = matches.last();
        let n = matches.len() - 1;
        assert(all[n] == matches[n]);
        assert(lists(o, pass, page, n));
        assert(is_named(o, lineage_id, ctx_id));
        if !names_lineage(before.lineages, lineage_id) {
            assert(after.lineages == before.lineages.push((lineage_id, ctx_id)));
            assert forall|a: int| 0 <= a < after.lineages.len() implies is_named(
                o,
                (#[trigger] after.lineages[a]).0,
                after.lineages[a].1,
            ) by {
                if a < before.lineages.len() {
                    assert(after.lineages[a] == before.lineages[a]);
                }
            }
            assert forall|a: int, b: int| 0 <= a < b < after.lineages.len() implies (
            #[trigger] after.lineages[a]).0 != (#[trigger] after.lineages[b]).0 by {
                assert(after.lineages[a] == before.lineages[a]);
                if b < before.lineages.len() {
                    assert(after.lineages[b] == before.lineages[b]);
                } else {
                    assert(before.lineages[a].0 != lineage_id);
                }
            }
        }
    }
}

proof fn lemma_candidates_are_kept(
    scope: DiscoveryScopeView,
    queue: Seq<Seq<char>>,
    k: int,
    g: Gathered,
    o: DiscoveryAnswers,
)
    requires
        0 <= k <= queue.len(),
        forall|i: int|
            0 <= i < queue.len() ==> (o.candidate)(#[trigger] queue[i]) is Checked && ((o.candidate)(
                queue[i],
            )->Checked_0 is Err ==> !(o.candidate)(queue[i])->Checked_0->Err_0.transient()),
    ensures
        kept(scope, queue, k, g, o) is Ok,
    decreases queue.len() - k,
{
    if k < queue.len() {
        assert((o.candidate)(queue[k]) is Checked);
        if let CandidateView::Checked(Ok(r)) = (o.candidate)(queue[k]) {
            lemma_candidates_are_kept(scope, queue, k + 1, g.with(scope, queue[k], r, false), o);
        } else {
            lemma_candidates_are_kept(scope, queue, k + 1, g, o);
        }
    }
}

proof fn lemma_walks_succeed(
    scope: DiscoveryScopeView,
    index: int,
    g: Gathered,
    o: DiscoveryAnswers,
    lineages: Set<Seq<char>>,
)
    requires
        0 <= index <= g.lineages.len(),
        can_be_searched(o, lineages),
        lineages_are_named(o, g.lineages),
    ensures
        from_walk(scope, index, g, o).result is Ok,
    decreases g.lineages.len() - index,
{
    if index < g.lineages.len() {
        let (lineage_id, expected) = g.lineages[index];
        let answers = o.of_lineage(lineage_id);
        assert(is_named(o, g.lineages[index].0, g.lineages[index].1));
        let (p, q, i) = choose|p: int, q: int, i: int| #[trigger]
            lists(o, p, q, i) && (o.search)(p, q)->Ok_0.matches[i] == (expected, lineage_id);
        assert(lists(o, p, q, i));
        assert(lineages.contains(lineage_id));
        crate::lineage_walk::law_walk_gives_every_verified_member(
            lineage_id,
            Some(expected),
            answers,
        );
        let ids = answers.listing->Ok_0;
        assert(ids.len() > 0);
        assert forall|j: int| 0 <= j < ids.len() implies (#[trigger] (answers.member)(j)) is Ok
            || !(answers.member)(j)->Err_0.transient() by {
            assert((answers.member)(j) == (o.member)(lineage_id, j));
        }
        let members = crate::lineage_walk::walk_outcome(
            lineage_id,
            Some(expected),
            answers,
        )->Ok_0;
        lemma_members_keep_lineages(scope, g, members);
        lemma_walks_succeed(scope, index + 1, with_members(scope, g, members), o, lineages);
    }
}

proof fn lemma_few_lineages(
    o: DiscoveryAnswers,
    named: Seq<(Seq<char>, Seq<char>)>,
    lineages: Set<Seq<char>>,
)
    requires
        can_be_searched(o, lineages),
        lineages_are_named(o, named),
    ensures
        named.len() <= 100,
{
    let ids = named.map_values(|l: (Seq<char>, Seq<char>)| l.0);
    assert forall|n: int, m: int| 0 <= n < ids.len() && 0 <= m < ids.len() && n != m implies ids[n]
        != ids[m] by {
        assert(named[n].0 == ids[n] && named[m].0 == ids[m]);
        if n < m {
            assert(named[n].0 != named[m].0);
        } else {
            assert(named[m].0 != named[n].0);
        }
    }
    ids.unique_seq_to_set();
    assert(ids.to_set().subset_of(lineages)) by {
        assert forall|id: Seq<char>| ids.to_set().contains(id) implies lineages.contains(id) by {
            let n = choose|n: int| 0 <= n < ids.len() && ids[n] == id;
            assert(is_named(o, named[n].0, named[n].1));
            let (p, q, i) = choose|p: int, q: int, i: int| #[trigger]
                lists(o, p, q, i) && (o.search)(p, q)->Ok_0.matches[i] == (named[n].1, named[n].0);
            assert(lists(o, p, q, i));
        }
    }
    vstd::set_lib::lemma_len_subset(ids.to_set(), lineages);
}

proof fn lemma_passes_succeed(
    scope: DiscoveryScopeView,
    pass: int,
    g: Gathered,
    o: DiscoveryAnswers,
    lineages: Set<Seq<char>>,
)
    requires
        0 <= pass <= 6,
        can_be_searched(o, lineages),
        lineages_are_named(o, g.lineages),
    ensures
        from_pass(scope, pass, g, o).result is Ok,
    decreases 6 - pass, 11int, 0int,
{
    if pass >= 6 {
        lemma_few_lineages(o, g.lineages, lineages);
        lemma_walks_succeed(scope, 0, g, o, lineages);
    } else {
        lemma_pages_succeed(scope, pass, 0, g, o, lineages);
    }
}

proof fn lemma_pages_succeed(
    scope: DiscoveryScopeView,
    pass: int,
    page: int,
    g: Gathered,
    o: DiscoveryAnswers,
    lineages: Set<Seq<char>>,
)
    requires
        is_reached(o, pass, page),
        can_be_searched(o, lineages),
        lineages_are_named(o, g.lineages),
    ensures
        from_page(scope, pass, page, g, o).result is Ok,
    decreases 6 - pass, 10 - page, 0int,
{
    let results = (o.search)(pass, page)->Ok_0;
    let start = Intake { seen: g.seen, lineages: g.lineages, queue: Seq::empty() };
    let noted = intake(start, results.matches);
    lemma_intake(start, results.matches);
    assert(results.matches.is_prefix_of(results.matches)) by {
        assert(results.matches =~= results.matches.subrange(0, results.matches.len() as int));
    }
    lemma_noted_lineages(o, pass, page, start, results.matches);
    let begun = Gathered { seen: noted.seen, lineages: noted.lineages, ..g };
    assert forall|i: int| 0 <= i < noted.queue.len() implies (o.candidate)(
        #[trigger] noted.queue[i],
    ) is Checked && ((o.candidate)(noted.queue[i])->Checked_0 is Err ==> !(o.candidate)(
        noted.queue[i],
    )->Checked_0->Err_0.transient()) by {
        let m = choose|m: int|
            0 <= m < results.matches.len() && (#[trigger] results.matches[m]).0 == noted.queue[i];
        assert(lists(o, pass, page, m));
    }
    lemma_candidates_are_kept(scope, noted.queue, 0, begun, o);
    lemma_kept(scope, noted.queue, 0, begun, o);
    let after = kept(scope, noted.queue, 0, begun, o)->Ok_0;
    if results.next_cursor is None {
        lemma_passes_succeed(scope, pass + 1, after, o, lineages);
    } else {
        assert(has_more(o, pass, page));
        assert(is_reached(o, pass, page + 1));
        lemma_pages_succeed(scope, pass, page + 1, after, o, lineages);
    }
}

/// A search succeeds whenever nothing stands in its way, whatever its scope
/// and whatever the results and members say; one that failed verification for
/// good is no reason to fail.
pub proof fn law_search_succeeds_within_its_limits(
    scope: DiscoveryScopeView,
    o: DiscoveryAnswers,
    lineages: Set<Seq<char>>,
)
    requires
        can_be_searched(o, lineages),
    ensures
        discovery_outcome(scope, o).result is Ok,
{
    lemma_passes_succeed(scope, 0, Gathered::nothing(), o, lineages);
}

spec fn names_all(
    o: DiscoveryAnswers,
    pass: int,
    page: int,
    lineages: Seq<(Seq<char>, Seq<char>)>,
) -> bool {
    forall|p: int, q: int, i: int| #[trigger]
        lists(o, p, q, i) && (p > pass || (p == pass && q >= page)) ==> names_lineage(
            lineages,
            (o.search)(p, q)->Ok_0.matches[i].1,
        )
}

spec fn is_end_of_passes(
    o: DiscoveryAnswers,
    pass: int,
    page: int,
    g: Gathered,
    lineages: Seq<(Seq<char>, Seq<char>)>,
) -> bool {
    &&& lineages.len() <= 100
    &&& g.lineages.is_prefix_of(lineages)
    &&& names_all(o, pass, page, lineages)
}

proof fn lemma_passes_name_lineages(
    scope: DiscoveryScopeView,
    pass: int,
    g: Gathered,
    o: DiscoveryAnswers,
) -> (lineages: Seq<(Seq<char>, Seq<char>)>)
    requires
        0 <= pass <= 6,
        from_pass(scope, pass, g, o).result is Ok,
    ensures
        is_end_of_passes(o, pass, 0, g, lineages),
    decreases 6 - pass, 11int, 0int,
{
    if pass >= 6 {
        assert(g.lineages.is_prefix_of(g.lineages)) by {
            assert(g.lineages =~= g.lineages.subrange(0, g.lineages.len() as int));
        }
        g.lineages
    } else {
        lemma_pages_name_lineages(scope, pass, 0, g, o)
    }
}

proof fn lemma_pages_name_lineages(
    scope: DiscoveryScopeView,
    pass: int,
    page: int,
    g: Gathered,
    o: DiscoveryAnswers,
) -> (lineages: Seq<(Seq<char>, Seq<char>)>)
    requires
        is_reached(o, pass, page),
        from_page(scope, pass, page, g, o).result is Ok,
    ensures
        is_end_of_passes(o, pass, page, g, lineages),
    decreases 6 - pass, 10 - page, 0int,
{
    let results = (o.search)(pass, page)->Ok_0;
    let start = Intake { seen: g.seen, lineages: g.lineages, queue: Seq::empty() };
    let noted = intake(start, results.matches);
    lemma_intake(start, results.matches);
    let begun = Gathered { seen: noted.seen, lineages: noted.lineages, ..g };
    lemma_kept(scope, noted.queue, 0, begun, o);
    let after = kept(scope, noted.queue, 0, begun, o)->Ok_0;
    let more = results.next_cursor is Some;
    if more {
        assert(has_more(o, pass, page));
    }
    let lineages = if more {
        lemma_pages_name_lineages(scope, pass, page + 1, after, o)
    } else {
        lemma_passes_name_lineages(scope, pass + 1, after, o)
    };
    assert(g.lineages.is_prefix_of(lineages)) by {
        assert(g.lineages =~= lineages.subrange(0, g.lineages.len() as int));
    }
    assert forall|p: int, q: int, i: int| #[trigger]
        lists(o, p, q, i) && (p > pass || (p == pass && q >= page)) implies names_lineage(
        lineages,
        (o.search)(p, q)->Ok_0.matches[i].1,
    ) by {
        if p == pass && q == page {
            let name = results.matches[i].1;
            let n = choose|n: int|
                0 <= n < noted.lineages.len() && #[trigger] noted.lineages[n].0 == name;
            assert(lineages[n].0 == name);
        } else if p == pass {
            assert(has_more(o, pass, page));
        }
    }
    lineages
}

/// Whether a lineage is that of a result on a page that the registry has.
pub open spec fn is_named_lineage(o: DiscoveryAnswers, lineage_id: Seq<char>) -> bool {
    exists|pass: int, page: int, i: int| #[trigger]
        lists(o, pass, page, i) && (o.search)(pass, page)->Ok_0.matches[i].1 == lineage_id
}

/// A search that would have to leave something out fails: one with more than
/// ten pages to a pass, and one that names more than a hundred lineages.
pub proof fn law_nothing_is_left_out_in_silence(
    scope: DiscoveryScopeView,
    o: DiscoveryAnswers,
    pass: int,
    names: Seq<Seq<char>>,
)
    ensures
        is_reached(o, pass, 9) && has_more(o, pass, 9) ==> discovery_outcome(scope, o).result
            is Err,
        names.len() > 100 && names.no_duplicates() && (forall|n: int|
            0 <= n < names.len() ==> is_named_lineage(o, #[trigger] names[n]))
            ==> discovery_outcome(scope, o).result is Err,
{
    if is_reached(o, pass, 9) {
        lemma_reached_is_page(o, pass, 9);
        law_discovery_is_exhaustive(scope, o, pass, 9);
    }
    if discovery_outcome(scope, o).result is Ok && names.no_duplicates() && forall|n: int|
        0 <= n < names.len() ==> is_named_lineage(o, #[trigger] names[n]) {
        let lineages = lemma_passes_name_lineages(scope, 0, Gathered::nothing(), o);
        let ids = lineages.map_values(|l: (Seq<char>, Seq<char>)| l.0);
        names.unique_seq_to_set();
        assert forall|id: Seq<char>| names.to_set().contains(id) implies ids.to_set().contains(
            id,
        ) by {
            let n = choose|n: int| 0 <= n < names.len() && names[n] == id;
            assert(is_named_lineage(o, names[n]));
            let (p, q, i) = choose|p: int, q: int, i: int| #[trigger]
                lists(o, p, q, i) && (o.search)(p, q)->Ok_0.matches[i].1 == names[n];
            assert(lists(o, p, q, i));
            assert(names_lineage(lineages, id));
            let m = choose|m: int| 0 <= m < lineages.len() && #[trigger] lineages[m].0 == id;
            assert(ids[m] == id);
        }
        assert(names.to_set().subset_of(ids.to_set()));
        ids.lemma_cardinality_of_set();
        vstd::set_lib::lemma_len_subset(names.to_set(), ids.to_set());
        assert(names.to_set().len() == names.len());
    }
}

/// A search that fails hands on the failure of the first thing that it could
/// not have: of the first page already, where that is not served.
pub proof fn law_search_failures_are_handed_on(
    scope: DiscoveryScopeView,
    o: DiscoveryAnswers,
    i: int,
)
    ensures
        (o.search)(0, 0) is Err ==> discovery_outcome(scope, o).result == Err::<
            Seq<KeyRevocationView>,
            AcdpError<Seq<char>>,
        >((o.search)(0, 0)->Err_0),
        lists(o, 0, 0, 0) ==> ({
            let first = (o.candidate)((o.search)(0, 0)->Ok_0.matches[0].0);
            &&& first is Unavailable ==> discovery_outcome(scope, o).result == Err::<
                Seq<KeyRevocationView>,
                AcdpError<Seq<char>>,
            >(first->Unavailable_0)
            &&& first is Checked && first->Checked_0 is Err && first->Checked_0->Err_0.transient()
                ==> discovery_outcome(scope, o).result == Err::<
                Seq<KeyRevocationView>,
                AcdpError<Seq<char>>,
            >(first->Checked_0->Err_0)
        }),
        lists(o, 0, 0, i) && ((o.candidate)((o.search)(0, 0)->Ok_0.matches[i].0) is Unavailable
            || ((o.candidate)((o.search)(0, 0)->Ok_0.matches[i].0)->Checked_0 is Err
            && (o.candidate)((o.search)(0, 0)->Ok_0.matches[i].0)->Checked_0->Err_0.transient()))
            ==> discovery_outcome(scope, o).result is Err,
{
    lemma_reached_is_page(o, 0, 0);
    if lists(o, 0, 0, i) {
        law_discovery_is_exhaustive(scope, o, 0, 0);
    }
    if lists(o, 0, 0, 0) {
        let matches = (o.search)(0, 0)->Ok_0.matches;
        let start = Intake { seen: Seq::empty(), lineages: Seq::empty(), queue: Seq::empty() };
        lemma_first_in_queue(start, matches);
    }
}

proof fn lemma_first_in_queue(start: Intake, matches: Seq<(Seq<char>, Seq<char>)>)
    requires
        start.queue.len() == 0,
        start.seen.len() == 0,
        matches.len() > 0,
    ensures
        intake(start, matches).queue.len() > 0,
        intake(start, matches).queue[0] == matches[0].0,
    decreases matches.len(),
{
    let init = matches.drop_last();
    if init.len() == 0 {
        assert(intake(start, init) == start);
        assert(!start.seen.contains(matches[0].0));
        assert(matches.last() == matches[0]);
    } else {
        lemma_first_in_queue(start, init);
        assert(init[0] == matches[0]);
    }
}

/// A search is about the keys of the producer whose contexts it looks
/// through, or about those of the controller while it looks through the
/// registry's own.
pub proof fn law_whose_keys_a_search_is_about(
    agent_id: Seq<char>,
    controller: Seq<char>,
    serving_authority: Seq<char>,
    registry_did: Seq<char>,
)
    ensures
        ({
            let signed = DiscoveryScopeView::ProducerSigned { agent_id };
            let attested = DiscoveryScopeView::RegistryAttested {
                controller,
                serving_authority,
                registry_did,
            };
            &&& signed.subject() == agent_id
            &&& signed.searched_agent() == agent_id
            &&& attested.subject() == controller
            &&& attested.searched_agent() == registry_did
        }),
{
}

/// Whether a context that was looked at states a revocation: as a result, or
/// as a member of a lineage that lists it.
pub open spec fn is_stated_in(o: DiscoveryAnswers, id: Seq<char>, r: KeyRevocationView) -> bool {
    ||| (o.candidate)(id) == CandidateView::Checked(Ok::<KeyRevocationView, AcdpError<Seq<char>>>(r))
    ||| exists|lineage_id: Seq<char>, k: int|
        (o.lineage)(lineage_id) is Ok && 0 <= k < (o.lineage)(lineage_id)->Ok_0.len() && (o.lineage)(
            lineage_id,
        )->Ok_0[k] == id && #[trigger] (o.member)(lineage_id, k) == Ok::<
            KeyRevocationView,
            AcdpError<Seq<char>>,
        >(r)
}

/// Whether each of these revocations is stated in a context of its own.
pub open spec fn have_their_own(
    o: DiscoveryAnswers,
    found: Seq<KeyRevocationView>,
    ids: Seq<Seq<char>>,
) -> bool {
    &&& ids.len() == found.len()
    &&& ids.no_duplicates()
    &&& forall|i: int| 0 <= i < ids.len() ==> is_stated_in(o, #[trigger] ids[i], found[i])
}

spec fn own_are_seen(o: DiscoveryAnswers, g: Gathered, ids: Seq<Seq<char>>) -> bool {
    &&& have_their_own(o, g.found, ids)
    &&& forall|i: int| 0 <= i < ids.len() ==> g.seen.contains(#[trigger] ids[i])
}

proof fn lemma_one_more_own(
    o: DiscoveryAnswers,
    found: Seq<KeyRevocationView>,
    ids: Seq<Seq<char>>,
    id: Seq<char>,
    r: KeyRevocationView,
)
    requires
        have_their_own(o, found, ids),
        is_stated_in(o, id, r),
        !ids.contains(id),
    ensures
        have_their_own(o, found.push(r), ids.push(id)),
{
    let more = ids.push(id);
    assert forall|i: int, j: int|
        0 <= i < more.len() && 0 <= j < more.len() && i != j implies more[i] != more[j] by {
        if i < ids.len() {
            assert(ids.contains(ids[i]));
        }
        if j < ids.len() {
            assert(ids.contains(ids[j]));
        }
    }
    assert forall|i: int| 0 <= i < more.len() implies is_stated_in(
        o,
        #[trigger] more[i],
        found.push(r)[i],
    ) by {
        if i < ids.len() {
            assert(is_stated_in(o, ids[i], found[i]));
        }
    }
}

proof fn lemma_own_of_candidates(
    scope: DiscoveryScopeView,
    queue: Seq<Seq<char>>,
    k: int,
    g: Gathered,
    o: DiscoveryAnswers,
    ids: Seq<Seq<char>>,
) -> (own: Seq<Seq<char>>)
    requires
        0 <= k <= queue.len(),
        own_are_seen(o, g, ids),
        queue.no_duplicates(),
        forall|i: int| k <= i < queue.len() ==> g.seen.contains(#[trigger] queue[i]),
        forall|i: int| k <= i < queue.len() ==> !ids.contains(#[trigger] queue[i]),
    ensures
        kept(scope, queue, k, g, o) matches Ok(all) ==> own_are_seen(o, all, own),
    decreases queue.len() - k,
{
    if k < queue.len() {
        match (o.candidate)(queue[k]) {
            CandidateView::Unavailable(_) => ids,
            CandidateView::Checked(Ok(r)) => {
                let more = g.with(scope, queue[k], r, false);
                assert(more.seen == g.seen);
                if scope.keeps(r) {
                    let next = ids.push(queue[k]);
                    assert(!ids.contains(queue[k]));
                    lemma_one_more_own(o, g.found, ids, queue[k], r);
                    assert(g.seen.contains(queue[k]));
                    assert forall|i: int| k + 1 <= i < queue.len() implies !next.contains(
                        #[trigger] queue[i],
                    ) by {
                        if next.contains(queue[i]) {
                            let j = choose|j: int| 0 <= j < next.len() && next[j] == queue[i];
                            if j < ids.len() {
                                assert(ids.contains(ids[j]));
                            }
                        }
                    }
                    lemma_own_of_candidates(scope, queue, k + 1, more, o, next)
                } else {
                    lemma_own_of_candidates(scope, queue, k + 1, more, o, ids)
                }
            },
            CandidateView::Checked(Err(e)) => if e.transient() {
                ids
            } else {
                lemma_own_of_candidates(scope, queue, k + 1, g, o, ids)
            },
        }
    } else {
        ids
    }
}

proof fn lemma_own_of_members(
    scope: DiscoveryScopeView,
    g: Gathered,
    members: Seq<(Seq<char>, KeyRevocationView)>,
    o: DiscoveryAnswers,
    ids: Seq<Seq<char>>,
) -> (own: Seq<Seq<char>>)
    requires
        own_are_seen(o, g, ids),
        forall|m: int|
            0 <= m < members.len() ==> is_stated_in(o, (#[trigger] members[m]).0, members[m].1),
    ensures
        own_are_seen(o, with_members(scope, g, members), own),
    decreases members.len(),
{
    if members.len() == 0 {
        ids
    } else {
        let init = members.drop_last();
        let before = with_members(scope, g, init);
        let after = with_members(scope, g, members);
        assert forall|m: int| 0 <= m < init.len() implies is_stated_in(
            o,
            (#[trigger] init[m]).0,
            init[m].1,
        ) by {
            assert(init[m] == members[m]);
        }
        let own = lemma_own_of_members(scope, g, init, o, ids);
        let (id, r) = members.last();
        assert(members[members.len() - 1] == members.last());
        if before.seen.contains(id) {
            own
        } else {
            assert(after.seen == before.seen.push(id));
            assert(after.seen[before.seen.len() as int] == id);
            assert forall|x: Seq<char>| before.seen.contains(x) implies #[trigger] after.seen.contains(
                x,
            ) by {
                let n = choose|n: int| 0 <= n < before.seen.len() && before.seen[n] == x;
                assert(after.seen[n] == x);
            }
            if scope.keeps(r) {
                assert(!own.contains(id)) by {
                    if own.contains(id) {
                        let n = choose|n: int| 0 <= n < own.len() && own[n] == id;
                        assert(before.seen.contains(own[n]));
                    }
                }
                lemma_one_more_own(o, before.found, own, id, r);
                let more = own.push(id);
                assert forall|i: int| 0 <= i < more.len() implies after.seen.contains(
                    #[trigger] more[i],
                ) by {
                    if i < own.len() {
                        assert(before.seen.contains(own[i]));
                    }
                }
                more
            } else {
                assert forall|i: int| 0 <= i < own.len() implies after.seen.contains(
                    #[trigger] own[i],
                ) by {
                    assert(before.seen.contains(own[i]));
                }
                own
            }
        }
    }
}

proof fn lemma_own_from_walk(
    scope: DiscoveryScopeView,
    index: int,
    g: Gathered,
    o: DiscoveryAnswers,
    ids: Seq<Seq<char>>,
) -> (own: Seq<Seq<char>>)
    requires
        0 <= index <= g.lineages.len(),
        own_are_seen(o, g, ids),
    ensures
        from_walk(scope, index, g, o).result matches Ok(found) ==> have_their_own(o, found, own),
    decreases g.lineages.len() - index,
{
    if index < g.lineages.len() {
        let (lineage_id, expected) = g.lineages[index];
        let answers = o.of_lineage(lineage_id);
        let walked = crate::lineage_walk::walk_outcome(lineage_id, Some(expected), answers);
        if let Ok(members) = walked {
            assert forall|m: int| 0 <= m < members.len() implies is_stated_in(
                o,
                (#[trigger] members[m]).0,
                members[m].1,
            ) by {
                crate::lineage_walk::law_walk_adds_nothing(
                    lineage_id,
                    Some(expected),
                    answers,
                    m,
                );
                let listed = answers.listing->Ok_0;
                let k = choose|k: int|
                    0 <= k < listed.len() && members[m].0 == listed[k] && #[trigger] (
                    answers.member)(k) == Ok::<KeyRevocationView, AcdpError<Seq<char>>>(
                        members[m].1,
                    );
                assert((o.member)(lineage_id, k) == (answers.member)(k));
            }
            lemma_members_keep_lineages(scope, g, members);
            let next = lemma_own_of_members(scope, g, members, o, ids);
            lemma_own_from_walk(scope, index + 1, with_members(scope, g, members), o, next)
        } else {
            ids
        }
    } else {
        ids
    }
}

proof fn lemma_own_from_pass(
    scope: DiscoveryScopeView,
    pass: int,
    g: Gathered,
    o: DiscoveryAnswers,
    ids: Seq<Seq<char>>,
) -> (own: Seq<Seq<char>>)
    requires
        0 <= pass <= SEARCH_PASSES,
        own_are_seen(o, g, ids),
    ensures
        from_pass(scope, pass, g, o).result matches Ok(found) ==> have_their_own(o, found, own),
    decreases SEARCH_PASSES - pass, MAX_SEARCH_PAGES + 1, 0int,
{
    if pass >= SEARCH_PASSES {
        lemma_own_from_walk(scope, 0, g, o, ids)
    } else {
        lemma_own_from_page(scope, pass, 0, g, o, ids)
    }
}

proof fn lemma_own_from_page(
    scope: DiscoveryScopeView,
    pass: int,
    page: int,
    g: Gathered,
    o: DiscoveryAnswers,
    ids: Seq<Seq<char>>,
) -> (own: Seq<Seq<char>>)
    requires
        0 <= pass < SEARCH_PASSES,
        0 <= page < MAX_SEARCH_PAGES,
        own_are_seen(o, g, ids),
    ensures
        from_page(scope, pass, page, g, o).result matches Ok(found) ==> have_their_own(
            o,
            found,
            own,
        ),
    decreases SEARCH_PASSES - pass, MAX_SEARCH_PAGES - page, 1int,
{
    if let Ok(results) = (o.search)(pass, page) {
        let start = Intake { seen: g.seen, lineages: g.lineages, queue: Seq::empty() };
        let noted = intake(start, results.matches);
        lemma_intake(start, results.matches);
        let begun = Gathered { seen: noted.seen, lineages: noted.lineages, ..g };
        assert forall|i: int| 0 <= i < noted.queue.len() implies !ids.contains(
            #[trigger] noted.queue[i],
        ) by {
            if ids.contains(noted.queue[i]) {
                let j = choose|j: int| 0 <= j < ids.len() && ids[j] == noted.queue[i];
                assert(g.seen.contains(ids[j]));
            }
        }
        assert forall|i: int| 0 <= i < ids.len() implies begun.seen.contains(
            #[trigger] ids[i],
        ) by {
            assert(g.seen.contains(ids[i]));
        }
        let next = lemma_own_of_candidates(scope, noted.queue, 0, begun, o, ids);
        lemma_kept(scope, noted.queue, 0, begun, o);
        if let Ok(after) = kept(scope, noted.queue, 0, begun, o) {
            if results.next_cursor is None {
                lemma_own_from_pass(scope, pass + 1, after, o, next)
            } else if page + 1 < MAX_SEARCH_PAGES {
                lemma_own_from_page(scope, pass, page + 1, after, o, next)
            } else {
                next
            }
        } else {
            next
        }
    } else {
        ids
    }
}

/// A search finds nothing twice over: each revocation that it finds is stated
/// in a context of its own, which the registry gave as a result or listed in
/// a lineage.
pub proof fn law_each_context_is_found_once(scope: DiscoveryScopeView, o: DiscoveryAnswers)
    ensures
        discovery_outcome(scope, o).result matches Ok(found) ==> exists|ids: Seq<Seq<char>>|
            #[trigger] have_their_own(o, found, ids),
{
    let own = lemma_own_from_pass(scope, 0, Gathered::nothing(), o, Seq::empty());
    if let Ok(found) = discovery_outcome(scope, o).result {
        assert(have_their_own(o, found, own));
    }
}

} // verus!
