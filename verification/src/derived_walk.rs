//! Walking the contexts that a context is derived from.
//!
//! The walk goes through the ancestors breadth first, closer ones before more
//! distant ones. It resolves no context twice, so that it comes to an end on a
//! cycle, and gives up where an ancestor is too far away, there are too many
//! of them, or a context has too many parents.

use vstd::prelude::*;
use crate::cross_registry::{CrossRegistryResolver, ResolverOptions};
use crate::error::{AcdpError, ResolutionFault};
use crate::lineage_walk::has_id;
use crate::types::{Body, CtxId};
use crate::verified::{VerifiedContext, VerifiedContextView};

verus! {

/// The answer to every resolution that a walk may ask for.
pub type Resolutions = spec_fn(Seq<char>) -> Result<VerifiedContextView, AcdpError<Seq<char>>>;

/// The ancestors that a walk has resolved, in order.
pub struct WalkTrace {
    pub ids: Seq<Seq<char>>,
    /// How many steps away each one was found.
    pub depths: Seq<int>,
    pub contexts: Seq<VerifiedContextView>,
}

impl WalkTrace {
    /// Nothing resolved yet.
    pub open spec fn empty() -> WalkTrace {
        WalkTrace { ids: Seq::empty(), depths: Seq::empty(), contexts: Seq::empty() }
    }

    /// One more ancestor.
    pub open spec fn push(self, id: Seq<char>, depth: int, ctx: VerifiedContextView) -> WalkTrace {
        WalkTrace {
            ids: self.ids.push(id),
            depths: self.depths.push(depth),
            contexts: self.contexts.push(ctx),
        }
    }
}

/// The contexts that a verified context is derived from.
pub open spec fn parents_of(v: VerifiedContextView) -> Seq<Seq<char>> {
    crate::lineage_walk::ids_view(v.ctx.body.derived_from@)
}

/// Whether a context needs no more visit: it is the root, or was resolved.
pub open spec fn is_seen(root: Seq<char>, ids: Seq<Seq<char>>, id: Seq<char>) -> bool {
    id == root || ids.contains(id)
}

/// The parents that still need a visit, with how many steps away they are.
pub open spec fn queued(
    parents: Seq<Seq<char>>,
    root: Seq<char>,
    ids: Seq<Seq<char>>,
    depth: int,
) -> Seq<(Seq<char>, int)>
    decreases parents.len(),
{
    if parents.len() == 0 {
        Seq::empty()
    } else {
        let before = queued(parents.drop_last(), root, ids, depth);
        if is_seen(root, ids, parents.last()) {
            before
        } else {
            before.push((parents.last(), depth))
        }
    }
}

/// What a walk comes to that has this ahead and this behind it.
pub open spec fn walk_from(
    limits: ResolverOptions,
    root: Seq<char>,
    ahead: Seq<(Seq<char>, int)>,
    trace: WalkTrace,
    o: Resolutions,
) -> Result<WalkTrace, AcdpError<Seq<char>>>
    decreases limits.max_nodes - trace.ids.len(), ahead.len(),
{
    if ahead.len() == 0 {
        Ok(trace)
    } else {
        let (next, depth) = ahead[0];
        let rest = ahead.skip(1);
        if is_seen(root, trace.ids, next) {
            walk_from(limits, root, rest, trace, o)
        } else if depth > limits.max_depth {
            Err(
                AcdpError::CrossRegistryResolutionFailed(
                    ResolutionFault::Depth { ctx_id: next, limit: limits.max_depth as u64 },
                ),
            )
        } else if trace.ids.len() >= limits.max_nodes {
            Err(
                AcdpError::CrossRegistryResolutionFailed(
                    ResolutionFault::Nodes { ctx_id: next, limit: limits.max_nodes as u64 },
                ),
            )
        } else {
            match o(next) {
                Err(e) => Err(e),
                Ok(v) => if parents_of(v).len() > limits.max_fanout {
                    Err(
                        AcdpError::CrossRegistryResolutionFailed(
                            ResolutionFault::Fanout {
                                ctx_id: next,
                                count: parents_of(v).len() as u64,
                                limit: limits.max_fanout as u64,
                            },
                        ),
                    )
                } else {
                    let seen = trace.push(next, depth, v);
                    walk_from(
                        limits,
                        root,
                        rest + queued(parents_of(v), root, seen.ids, depth + 1),
                        seen,
                        o,
                    )
                },
            }
        }
    }
}

/// The parents of the root, one step away.
pub open spec fn first_ahead(parents: Seq<Seq<char>>) -> Seq<(Seq<char>, int)> {
    parents.map_values(|p: Seq<char>| (p, 1int))
}

/// What the walk from a context comes to.
pub open spec fn walk_trace(
    limits: ResolverOptions,
    root: Seq<char>,
    parents: Seq<Seq<char>>,
    o: Resolutions,
) -> Result<WalkTrace, AcdpError<Seq<char>>> {
    if parents.len() > limits.max_fanout {
        Err(
            AcdpError::CrossRegistryResolutionFailed(
                ResolutionFault::RootFanout {
                    ctx_id: root,
                    count: parents.len() as u64,
                    limit: limits.max_fanout as u64,
                },
            ),
        )
    } else {
        walk_from(limits, root, first_ahead(parents), WalkTrace::empty(), o)
    }
}

/// The ancestors that a walk gives.
pub open spec fn ancestors(r: Result<WalkTrace, AcdpError<Seq<char>>>) -> Result<
    Seq<VerifiedContextView>,
    AcdpError<Seq<char>>,
> {
    match r {
        Ok(t) => Ok(t.contexts),
        Err(e) => Err(e),
    }
}

/// Verified contexts as a contract sees them.
pub open spec fn contexts_view(contexts: Seq<VerifiedContext>) -> Seq<VerifiedContextView> {
    contexts.map_values(|v: VerifiedContext| v@)
}

/// Verified contexts, or a failure, as a contract sees them.
pub open spec fn contexts_result(r: Result<Vec<VerifiedContext>, AcdpError>) -> Result<
    Seq<VerifiedContextView>,
    AcdpError<Seq<char>>,
> {
    match r {
        Ok(c) => Ok(contexts_view(c@)),
        Err(e) => Err(e@),
    }
}

spec fn ahead_view(ahead: Seq<(CtxId, u128)>) -> Seq<(Seq<char>, int)> {
    ahead.map_values(|a: (CtxId, u128)| (a.0@, a.1 as int))
}

/// A walk under way.
pub struct DerivedWalk {
    limits: ResolverOptions,
    root: CtxId,
    queue: Vec<(CtxId, u128)>,
    head: usize,
    ids: Vec<CtxId>,
    contexts: Vec<VerifiedContext>,
    depths: Ghost<Seq<int>>,
}

/// Where a walk has got to.
pub enum DerivedProgress {
    /// A context is to be resolved.
    Pending(DerivedWalk),
    /// The walk is over.
    Finished(Result<Vec<VerifiedContext>, AcdpError>),
}

impl DerivedProgress {
    /// What the walk will come to under these answers.
    pub open spec fn outcome(&self, o: Resolutions) -> Result<
        Seq<VerifiedContextView>,
        AcdpError<Seq<char>>,
    > {
        match self {
            DerivedProgress::Pending(w) => w.outcome(o),
            DerivedProgress::Finished(r) => contexts_result(*r),
        }
    }
}

impl DerivedWalk {
    spec fn ahead(&self) -> Seq<(Seq<char>, int)> {
        ahead_view(self.queue@.skip(self.head as int))
    }

    spec fn trace(&self) -> WalkTrace {
        WalkTrace {
            ids: crate::lineage_walk::ids_view(self.ids@),
            depths: self.depths@,
            contexts: contexts_view(self.contexts@),
        }
    }

    /// What the walk will come to under these answers.
    pub closed spec fn outcome(&self, o: Resolutions) -> Result<
        Seq<VerifiedContextView>,
        AcdpError<Seq<char>>,
    > {
        ancestors(walk_from(self.limits, self.root@, self.ahead(), self.trace(), o))
    }

    spec fn in_bounds(&self) -> bool {
        &&& self.head <= self.queue@.len()
        &&& self.ids@.len() == self.contexts@.len()
        &&& self.ids@.len() <= self.limits.max_nodes
        &&& forall|k: int|
            0 <= k < self.queue@.len() ==> (#[trigger] self.queue@[k]).1 <= self.ids@.len() + 1
    }

    /// Whether the walk is in one of the states that it can be in.
    pub closed spec fn well_formed(&self) -> bool {
        &&& self.in_bounds()
        &&& self.head < self.queue@.len()
        &&& !is_seen(self.root@, self.trace().ids, self.ahead()[0].0)
        &&& self.ahead()[0].1 <= self.limits.max_depth
        &&& self.ids@.len() < self.limits.max_nodes
    }

    /// The context that is to be resolved next.
    pub closed spec fn asks(&self) -> Seq<char> {
        self.ahead()[0].0
    }

    /// The limits that the walk keeps to.
    pub closed spec fn keeps_to(&self) -> ResolverOptions {
        self.limits
    }

    /// How many contexts can at most still be asked for.
    pub closed spec fn remaining(&self) -> nat {
        (self.limits.max_nodes - self.ids@.len()) as nat
    }

    /// The context that is to be resolved next.
    pub fn next(&self) -> (id: &CtxId)
        requires
            self.well_formed(),
        ensures
            id@ == self.asks(),
    {
        proof {
            assert(self.queue@.skip(self.head as int)[0] == self.queue@[self.head as int]);
        }
        &self.queue[self.head].0
    }

    fn settle(self) -> (progress: DerivedProgress)
        requires
            self.in_bounds(),
        ensures
            forall|o: Resolutions| #[trigger] progress.outcome(o) == self.outcome(o),
            progress matches DerivedProgress::Pending(w) ==> w.well_formed() && w.remaining()
                == self.remaining() && w.keeps_to() == self.keeps_to() && self.head
                < self.queue@.len(),
    {
        let ghost start = self;
        let mut walk: DerivedWalk = self;
        while walk.head < walk.queue.len()
            invariant
                start == self,
                walk.in_bounds(),
                walk.remaining() == start.remaining(),
                walk.limits == start.limits,
                walk.queue == start.queue,
                walk.head >= start.head,
                forall|o: Resolutions| #[trigger] walk.outcome(o) == start.outcome(o),
            decreases walk.queue@.len() - walk.head,
        {
            let ghost before = walk;
            proof {
                assert(walk.ahead()[0] == (
                    walk.queue@[walk.head as int].0@,
                    walk.queue@[walk.head as int].1 as int,
                ));
                assert(walk.ahead().skip(1) =~= ahead_view(walk.queue@.skip(walk.head + 1)));
            }
            if !walk.queue[walk.head].0.same(&walk.root) && !has_id(
                &walk.ids,
                &walk.queue[walk.head].0,
            ) {
                let depth: u128 = walk.queue[walk.head].1;
                if depth > walk.limits.max_depth as u128 {
                    let failed: DerivedProgress = DerivedProgress::Finished(
                        Err(
                            AcdpError::CrossRegistryResolutionFailed(
                                ResolutionFault::Depth {
                                    ctx_id: walk.queue[walk.head].0.0.clone(),
                                    limit: walk.limits.max_depth as u64,
                                },
                            ),
                        ),
                    );
                    proof {
                        assert forall|o: Resolutions| #[trigger]
                            failed.outcome(o) == start.outcome(o) by {
                            assert(walk.outcome(o) == start.outcome(o));
                        }
                    }
                    return failed;
                }
                if walk.contexts.len() >= walk.limits.max_nodes {
                    let failed: DerivedProgress = DerivedProgress::Finished(
                        Err(
                            AcdpError::CrossRegistryResolutionFailed(
                                ResolutionFault::Nodes {
                                    ctx_id: walk.queue[walk.head].0.0.clone(),
                                    limit: walk.limits.max_nodes as u64,
                                },
                            ),
                        ),
                    );
                    proof {
                        assert forall|o: Resolutions| #[trigger]
                            failed.outcome(o) == start.outcome(o) by {
                            assert(walk.outcome(o) == start.outcome(o));
                        }
                    }
                    return failed;
                }
                return DerivedProgress::Pending(walk);
            }
            walk.head = walk.head + 1;
            proof {
                assert(walk.trace() == before.trace());
                assert forall|o: Resolutions| #[trigger]
                    walk.outcome(o) == start.outcome(o) by {
                    assert(before.outcome(o) == start.outcome(o));
                }
            }
        }
        proof {
            assert(walk.ahead() =~= Seq::empty());
        }
        let r: DerivedProgress = DerivedProgress::Finished(Ok(walk.contexts));
        proof {
            assert forall|o: Resolutions| #[trigger] r.outcome(o) == start.outcome(o) by {
                assert(walk.outcome(o) == start.outcome(o));
            }
        }
        r
    }

    /// Goes on with what came of resolving the context that was asked for.
    ///
    /// Whatever answers the resolutions give, the outcome that they lead to
    /// stays the same, and fewer contexts remain. Nothing more is resolved
    /// once a context could not be, or has more parents than it may.
    pub fn advance(self, resolved: Result<VerifiedContext, AcdpError>) -> (progress:
        DerivedProgress)
        requires
            self.well_formed(),
        ensures
            forall|o: Resolutions|
                o(self.asks()) == crate::verified::verified_result(resolved)
                    ==> #[trigger] progress.outcome(o) == self.outcome(o),
            progress matches DerivedProgress::Pending(w) ==> {
                &&& w.well_formed()
                &&& w.remaining() == self.remaining() - 1
                &&& w.keeps_to() == self.keeps_to()
                &&& resolved matches Ok(v)
                &&& parents_of(v@).len() <= self.keeps_to().max_fanout
            },
    {
        let ghost start = self;
        proof {
            assert(self.queue@.skip(self.head as int)[0] == self.queue@[self.head as int]);
            assert(self.ahead().skip(1) =~= ahead_view(self.queue@.skip(self.head + 1)));
        }
        let mut walk: DerivedWalk = self;
        match resolved {
            Err(e) => DerivedProgress::Finished(Err(e)),
            Ok(verified) => {
                let next: CtxId = walk.queue[walk.head].0.clone();
                let depth: u128 = walk.queue[walk.head].1;
                let count: usize = verified.body().derived_from.len();
                if count > walk.limits.max_fanout {
                    return DerivedProgress::Finished(
                        Err(
                            AcdpError::CrossRegistryResolutionFailed(
                                ResolutionFault::Fanout {
                                    ctx_id: next.0,
                                    count: count as u64,
                                    limit: walk.limits.max_fanout as u64,
                                },
                            ),
                        ),
                    );
                }
                walk.ids.push(next);
                walk.depths = Ghost(walk.depths@.push(depth as int));
                assert(walk.head < walk.queue.len());
                walk.head = walk.head + 1;
                proof {
                    assert(crate::lineage_walk::ids_view(walk.ids@)
                        =~= crate::lineage_walk::ids_view(start.ids@).push(next@));
                }
                walk.enqueue(verified.body(), depth + 1);
                walk.contexts.push(verified);
                proof {
                    assert(contexts_view(walk.contexts@) =~= contexts_view(start.contexts@).push(
                        verified@,
                    ));
                    assert(walk.trace() == start.trace().push(next@, depth as int, verified@));
                    assert(walk.ahead() == start.ahead().skip(1) + queued(
                        parents_of(verified@),
                        start.root@,
                        walk.trace().ids,
                        depth + 1,
                    ));
                    assert forall|o: Resolutions|
                        o(start.asks()) == Ok::<VerifiedContextView, AcdpError<Seq<char>>>(
                            verified@,
                        ) implies #[trigger] walk.outcome(o) == start.outcome(o) by {}
                }
                walk.settle()
            },
        }
    }

    fn enqueue(&mut self, body: &Body, depth: u128)
        requires
            old(self).head <= old(self).queue@.len(),
        ensures
            final(self).limits == old(self).limits,
            final(self).root == old(self).root,
            final(self).head == old(self).head,
            final(self).ids == old(self).ids,
            final(self).contexts == old(self).contexts,
            final(self).depths == old(self).depths,
            final(self).queue@.len() >= old(self).queue@.len(),
            forall|k: int|
                0 <= k < old(self).queue@.len() ==> #[trigger] final(self).queue@[k]
                    == old(self).queue@[k],
            forall|k: int|
                old(self).queue@.len() <= k < final(self).queue@.len() ==> (
                #[trigger] final(self).queue@[k]).1 == depth,
            final(self).ahead() == old(self).ahead() + queued(
                crate::lineage_walk::ids_view(body.derived_from@),
                old(self).root@,
                crate::lineage_walk::ids_view(old(self).ids@),
                depth as int,
            ),
    {
        let ghost parents = crate::lineage_walk::ids_view(body.derived_from@);
        let ghost ids = crate::lineage_walk::ids_view(self.ids@);
        let ghost start = *self;
        let mut i: usize = 0;
        proof {
            assert(parents.take(0) =~= Seq::empty());
            assert(self.ahead() =~= start.ahead() + queued(
                parents.take(0),
                start.root@,
                ids,
                depth as int,
            ));
        }
        while i < body.derived_from.len()
            invariant
                i <= body.derived_from@.len(),
                parents == crate::lineage_walk::ids_view(body.derived_from@),
                ids == crate::lineage_walk::ids_view(self.ids@),
                self.limits == start.limits,
                self.root == start.root,
                self.head == start.head,
                self.ids == start.ids,
                self.contexts == start.contexts,
                self.depths == start.depths,
                start.head <= start.queue@.len() <= self.queue@.len(),
                forall|k: int|
                    0 <= k < start.queue@.len() ==> #[trigger] self.queue@[k] == start.queue@[k],
                forall|k: int|
                    start.queue@.len() <= k < self.queue@.len() ==> (#[trigger] self.queue@[k]).1
                        == depth,
                self.ahead() == start.ahead() + queued(
                    parents.take(i as int),
                    start.root@,
                    ids,
                    depth as int,
                ),
            decreases body.derived_from@.len() - i,
        {
            let ghost before = self.queue@;
            proof {
                assert(parents.take(i + 1).drop_last() =~= parents.take(i as int));
                assert(parents.take(i + 1).last() == body.derived_from@[i as int]@);
            }
            if !body.derived_from[i].same(&self.root) && !has_id(&self.ids, &body.derived_from[i]) {
                self.queue.push((body.derived_from[i].clone(), depth));
                proof {
                    assert(self.queue@.skip(self.head as int) =~= before.skip(
                        self.head as int,
                    ).push((body.derived_from@[i as int], depth)));
                    assert(self.ahead() =~= ahead_view(before.skip(self.head as int)).push(
                        (body.derived_from@[i as int]@, depth as int),
                    ));
                    assert(self.ahead() =~= start.ahead() + queued(
                        parents.take(i + 1),
                        start.root@,
                        ids,
                        depth as int,
                    ));
                }
            }
            i = i + 1;
        }
        proof {
            assert(parents.take(i as int) =~= parents);
        }
    }
}

impl<K, C> CrossRegistryResolver<K, C> {
    /// Begins to walk the contexts that a context is derived from.
    pub fn walk_derived_from(&self, body: &Body) -> (progress: DerivedProgress)
        ensures
            forall|o: Resolutions| #[trigger]
                progress.outcome(o) == ancestors(
                    walk_trace(
                        self.limits(),
                        body.ctx_id@,
                        crate::lineage_walk::ids_view(body.derived_from@),
                        o,
                    ),
                ),
            progress matches DerivedProgress::Pending(w) ==> {
                &&& w.well_formed()
                &&& w.remaining() == self.limits().max_nodes
                &&& w.keeps_to() == self.limits()
                &&& 0 < body.derived_from@.len() <= self.limits().max_fanout
            },
    {
        let limits: ResolverOptions = *self.options();
        let count: usize = body.derived_from.len();
        if count > limits.max_fanout {
            return DerivedProgress::Finished(
                Err(
                    AcdpError::CrossRegistryResolutionFailed(
                        ResolutionFault::RootFanout {
                            ctx_id: body.ctx_id.0.clone(),
                            count: count as u64,
                            limit: limits.max_fanout as u64,
                        },
                    ),
                ),
            );
        }
        let mut queue: Vec<(CtxId, u128)> = Vec::new();
        let mut i: usize = 0;
        while i < body.derived_from.len()
            invariant
                i <= body.derived_from@.len(),
                queue@.len() == i,
                forall|k: int|
                    0 <= k < i ==> #[trigger] queue@[k] == (body.derived_from@[k], 1u128),
            decreases body.derived_from@.len() - i,
        {
            queue.push((body.derived_from[i].clone(), 1));
            i = i + 1;
        }
        let walk: DerivedWalk = DerivedWalk {
            limits,
            root: body.ctx_id.clone(),
            queue,
            head: 0,
            ids: Vec::new(),
            contexts: Vec::new(),
            depths: Ghost(Seq::empty()),
        };
        proof {
            assert(walk.ahead() =~= first_ahead(
                crate::lineage_walk::ids_view(body.derived_from@),
            ));
            assert(walk.trace().ids =~= Seq::empty());
            assert(walk.trace().contexts =~= Seq::empty());
            assert(walk.trace() == WalkTrace::empty());
        }
        walk.settle()
    }
}

/// The failure of a walk that has taken longer than it may.
pub fn walk_timeout(limits: &ResolverOptions) -> (e: AcdpError)
    ensures
        e@ == AcdpError::<Seq<char>>::CrossRegistryResolutionFailed(
            ResolutionFault::WalkTimeout { allowed: limits.total_timeout },
        ),
{
    AcdpError::CrossRegistryResolutionFailed(
        ResolutionFault::WalkTimeout { allowed: limits.total_timeout },
    )
}

proof fn lemma_queued(
    parents: Seq<Seq<char>>,
    root: Seq<char>,
    ids: Seq<Seq<char>>,
    depth: int,
)
    ensures
        forall|k: int|
            0 <= k < queued(parents, root, ids, depth).len() ==> (#[trigger] queued(
                parents,
                root,
                ids,
                depth,
            )[k]).1 == depth && parents.contains(queued(parents, root, ids, depth)[k].0),
        forall|p: Seq<char>|
            parents.contains(p) ==> is_seen(root, ids, p) || #[trigger] queued(
                parents,
                root,
                ids,
                depth,
            ).contains((p, depth)),
    decreases parents.len(),
{
    if parents.len() > 0 {
        let less = parents.drop_last();
        let before = queued(less, root, ids, depth);
        let all = queued(parents, root, ids, depth);
        lemma_queued(less, root, ids, depth);
        assert(less.push(parents.last()) =~= parents);
        assert forall|k: int| 0 <= k < all.len() implies (#[trigger] all[k]).1 == depth
            && parents.contains(all[k].0) by {
            if k < before.len() {
                assert(less.contains(before[k].0));
                let j = choose|j: int| 0 <= j < less.len() && less[j] == before[k].0;
                assert(parents[j] == before[k].0);
            } else {
                assert(parents[parents.len() - 1] == all[k].0);
            }
        }
        assert forall|p: Seq<char>| parents.contains(p) implies is_seen(root, ids, p)
            || #[trigger] all.contains((p, depth)) by {
            let j = choose|j: int| 0 <= j < parents.len() && parents[j] == p;
            if j < less.len() {
                assert(less[j] == p);
                assert(less.contains(p));
                if !is_seen(root, ids, p) {
                    assert(before.contains((p, depth)));
                    let m = choose|m: int| 0 <= m < before.len() && before[m] == (p, depth);
                    assert(all[m] == (p, depth));
                }
            } else if !is_seen(root, ids, p) {
                assert(p == parents.last());
                assert(all[all.len() - 1] == (p, depth));
            }
        }
    }
}

/// Whether a trace is one of ancestors that were each resolved once, within
/// the limits.
pub open spec fn is_bounded_trace(
    limits: ResolverOptions,
    root: Seq<char>,
    trace: WalkTrace,
    o: Resolutions,
) -> bool {
    &&& trace.contexts.len() == trace.ids.len()
    &&& trace.depths.len() == trace.ids.len()
    &&& trace.ids.len() <= limits.max_nodes
    &&& trace.ids.no_duplicates()
    &&& !trace.ids.contains(root)
    &&& forall|k: int|
        0 <= k < trace.ids.len() ==> o(#[trigger] trace.ids[k]) == Ok::<
            VerifiedContextView,
            AcdpError<Seq<char>>,
        >(trace.contexts[k])
    &&& forall|k: int|
        0 <= k < trace.ids.len() ==> parents_of(#[trigger] trace.contexts[k]).len()
            <= limits.max_fanout
    &&& forall|k: int| 0 <= k < trace.ids.len() ==> #[trigger] trace.depths[k] <= limits.max_depth
}

proof fn lemma_bounded(
    limits: ResolverOptions,
    root: Seq<char>,
    ahead: Seq<(Seq<char>, int)>,
    trace: WalkTrace,
    o: Resolutions,
)
    requires
        is_bounded_trace(limits, root, trace, o),
    ensures
        walk_from(limits, root, ahead, trace, o) matches Ok(t) ==> is_bounded_trace(
            limits,
            root,
            t,
            o,
        ),
    decreases limits.max_nodes - trace.ids.len(), ahead.len(),
{
    if ahead.len() > 0 {
        let (next, depth) = ahead[0];
        let rest = ahead.skip(1);
        if is_seen(root, trace.ids, next) {
            lemma_bounded(limits, root, rest, trace, o);
        } else if depth <= limits.max_depth && trace.ids.len() < limits.max_nodes {
            if let Ok(v) = o(next) {
                if parents_of(v).len() <= limits.max_fanout {
                    let seen = trace.push(next, depth, v);
                    assert(!seen.ids.contains(root)) by {
                        if seen.ids.contains(root) {
                            let k = choose|k: int| 0 <= k < seen.ids.len() && seen.ids[k] == root;
                            assert(trace.ids[k] == root);
                        }
                    }
                    lemma_bounded(
                        limits,
                        root,
                        rest + queued(parents_of(v), root, seen.ids, depth + 1),
                        seen,
                        o,
                    );
                }
            }
        }
    }
}

/// A walk resolves no context twice and never the root, whatever cycles there
/// are; it resolves no more contexts than it may, none further away than it
/// may, none with more parents than it may; and what it gives is what their
/// resolutions gave.
pub proof fn law_walk_is_bounded(
    limits: ResolverOptions,
    root: Seq<char>,
    parents: Seq<Seq<char>>,
    o: Resolutions,
)
    ensures
        walk_trace(limits, root, parents, o) matches Ok(t) ==> is_bounded_trace(
            limits,
            root,
            t,
            o,
        ) && parents.len() <= limits.max_fanout,
{
    lemma_bounded(limits, root, first_ahead(parents), WalkTrace::empty(), o);
}

/// Whether a context was found this many steps away: it is a parent of the
/// root, or of a context among the first `upto` resolved that is one step
/// closer.
pub open spec fn is_found(
    parents: Seq<Seq<char>>,
    trace: WalkTrace,
    upto: int,
    id: Seq<char>,
    depth: int,
) -> bool {
    ||| depth == 1 && parents.contains(id)
    ||| exists|j: int|
        0 <= j < upto && depth == trace.depths[j] + 1 && parents_of(
            #[trigger] trace.contexts[j],
        ).contains(id)
}

/// Whether the ancestors in a trace are just that, closer ones first.
pub open spec fn is_ordered_trace(parents: Seq<Seq<char>>, trace: WalkTrace) -> bool {
    &&& trace.contexts.len() == trace.ids.len()
    &&& trace.depths.len() == trace.ids.len()
    &&& forall|k: int|
        0 <= k < trace.ids.len() ==> #[trigger] is_found(
            parents,
            trace,
            k,
            trace.ids[k],
            trace.depths[k],
        )
    &&& forall|j: int, k: int|
        0 <= j <= k < trace.ids.len() ==> #[trigger] trace.depths[j] <= #[trigger] trace.depths[k]
}

spec fn is_ordered_ahead(
    parents: Seq<Seq<char>>,
    ahead: Seq<(Seq<char>, int)>,
    trace: WalkTrace,
) -> bool {
    &&& forall|k: int|
        0 <= k < ahead.len() ==> is_found(
            parents,
            trace,
            trace.ids.len() as int,
            (#[trigger] ahead[k]).0,
            ahead[k].1,
        )
    &&& forall|j: int, k: int|
        0 <= j <= k < ahead.len() ==> (#[trigger] ahead[j]).1 <= (#[trigger] ahead[k]).1
    &&& forall|k: int| 0 <= k < ahead.len() ==> (#[trigger] ahead[k]).1 <= ahead[0].1 + 1
    &&& forall|j: int, k: int|
        0 <= j < trace.ids.len() && 0 <= k < ahead.len() ==> #[trigger] trace.depths[j] <= (
        #[trigger] ahead[k]).1
}

proof fn lemma_ordered_after_visit(
    root: Seq<char>,
    parents: Seq<Seq<char>>,
    ahead: Seq<(Seq<char>, int)>,
    trace: WalkTrace,
    v: VerifiedContextView,
)
    requires
        ahead.len() > 0,
        is_ordered_trace(parents, trace),
        is_ordered_ahead(parents, ahead, trace),
    ensures
        ({
            let (next, depth) = ahead[0];
            let seen = trace.push(next, depth, v);
            &&& is_ordered_trace(parents, seen)
            &&& is_ordered_ahead(
                parents,
                ahead.skip(1) + queued(parents_of(v), root, seen.ids, depth + 1),
                seen,
            )
        }),
{
    let (next, depth) = ahead[0];
    let rest = ahead.skip(1);
    assert(forall|k: int| 0 <= k < rest.len() ==> #[trigger] rest[k] == ahead[k + 1]);
    let seen = trace.push(next, depth, v);
    let found = queued(parents_of(v), root, seen.ids, depth + 1);
    let then_ahead = rest + found;
    lemma_queued(parents_of(v), root, seen.ids, depth + 1);
    lemma_found_stays(parents, trace, next, depth, v);
    let n = trace.ids.len() as int;
    assert forall|k: int| 0 <= k < seen.ids.len() implies #[trigger] is_found(
        parents,
        seen,
        k,
        seen.ids[k],
        seen.depths[k],
    ) by {
        if k < n {
            assert(is_found(parents, trace, k, trace.ids[k], trace.depths[k]));
        } else {
            assert(is_found(parents, trace, n, ahead[0].0, ahead[0].1));
        }
    }
    assert forall|k: int| 0 <= k < then_ahead.len() implies is_found(
        parents,
        seen,
        n + 1,
        (#[trigger] then_ahead[k]).0,
        then_ahead[k].1,
    ) by {
        if k < rest.len() {
            assert(is_found(parents, trace, n, ahead[k + 1].0, ahead[k + 1].1));
            assert(is_found(parents, seen, n, ahead[k + 1].0, ahead[k + 1].1));
        } else {
            assert(then_ahead[k] == found[k - rest.len()]);
            assert(seen.contexts[n] == v);
            assert(seen.depths[n] == depth);
        }
    }
    assert forall|k: int| 0 <= k < then_ahead.len() implies depth <= (
    #[trigger] then_ahead[k]).1 <= depth + 1 by {
        if k >= rest.len() {
            assert(then_ahead[k] == found[k - rest.len()]);
        } else {
            assert(ahead[0].1 <= ahead[k + 1].1);
        }
    }
    assert forall|j: int, k: int| 0 <= j <= k < then_ahead.len() implies (
    #[trigger] then_ahead[j]).1 <= (#[trigger] then_ahead[k]).1 by {
        if k >= rest.len() {
            assert(then_ahead[k] == found[k - rest.len()]);
        } else {
            assert(ahead[j + 1].1 <= ahead[k + 1].1);
        }
    }
}

proof fn lemma_ordered(
    limits: ResolverOptions,
    root: Seq<char>,
    parents: Seq<Seq<char>>,
    ahead: Seq<(Seq<char>, int)>,
    trace: WalkTrace,
    o: Resolutions,
)
    requires
        is_ordered_trace(parents, trace),
        is_ordered_ahead(parents, ahead, trace),
    ensures
        walk_from(limits, root, ahead, trace, o) matches Ok(t) ==> is_ordered_trace(parents, t),
    decreases limits.max_nodes - trace.ids.len(), ahead.len(),
{
    if ahead.len() > 0 {
        let (next, depth) = ahead[0];
        let rest = ahead.skip(1);
        assert(forall|k: int| 0 <= k < rest.len() ==> #[trigger] rest[k] == ahead[k + 1]);
        if is_seen(root, trace.ids, next) {
            assert(is_ordered_ahead(parents, rest, trace));
            lemma_ordered(limits, root, parents, rest, trace, o);
        } else if depth <= limits.max_depth && trace.ids.len() < limits.max_nodes {
            if let Ok(v) = o(next) {
                if parents_of(v).len() <= limits.max_fanout {
                    lemma_ordered_after_visit(root, parents, ahead, trace, v);
                    let seen = trace.push(next, depth, v);
                    let then_ahead = rest + queued(parents_of(v), root, seen.ids, depth + 1);
                    lemma_ordered(limits, root, parents, then_ahead, seen, o);
                }
            }
        }
    }
}

proof fn lemma_found_stays(
    parents: Seq<Seq<char>>,
    trace: WalkTrace,
    next: Seq<char>,
    depth: int,
    v: VerifiedContextView,
)
    requires
        trace.contexts.len() == trace.ids.len(),
        trace.depths.len() == trace.ids.len(),
    ensures
        forall|upto: int, id: Seq<char>, d: int|
            upto <= trace.ids.len() && is_found(parents, trace, upto, id, d)
                ==> #[trigger] is_found(parents, trace.push(next, depth, v), upto, id, d),
{
    let seen = trace.push(next, depth, v);
    assert forall|upto: int, id: Seq<char>, d: int|
        upto <= trace.ids.len() && is_found(parents, trace, upto, id, d) implies #[trigger] is_found(
        parents,
        seen,
        upto,
        id,
        d,
    ) by {
        if !(d == 1 && parents.contains(id)) {
            let j = choose|j: int|
                0 <= j < upto && d == trace.depths[j] + 1 && parents_of(
                    #[trigger] trace.contexts[j],
                ).contains(id);
            assert(seen.contexts[j] == trace.contexts[j]);
            assert(seen.depths[j] == trace.depths[j]);
        }
    }
}

/// A walk gives nothing but ancestors: each context is a parent of the root
/// or of a context before it. Closer ancestors come first.
pub proof fn law_closer_ancestors_come_first(
    limits: ResolverOptions,
    root: Seq<char>,
    parents: Seq<Seq<char>>,
    o: Resolutions,
)
    ensures
        walk_trace(limits, root, parents, o) matches Ok(t) ==> is_ordered_trace(parents, t),
{
    let ahead = first_ahead(parents);
    assert forall|k: int| 0 <= k < ahead.len() implies is_found(
        parents,
        WalkTrace::empty(),
        0,
        (#[trigger] ahead[k]).0,
        ahead[k].1,
    ) by {
        assert(parents[k] == ahead[k].0);
    }
    lemma_ordered(limits, root, parents, ahead, WalkTrace::empty(), o);
}

/// Whether every parent of the root and of every context in a trace is the
/// root or in the trace.
pub open spec fn is_closed_trace(
    root: Seq<char>,
    parents: Seq<Seq<char>>,
    trace: WalkTrace,
) -> bool {
    &&& forall|p: Seq<char>| #[trigger] parents.contains(p) ==> is_seen(root, trace.ids, p)
    &&& forall|k: int, p: Seq<char>|
        0 <= k < trace.contexts.len() && #[trigger] parents_of(trace.contexts[k]).contains(p)
            ==> is_seen(root, trace.ids, p)
}

spec fn is_ahead(ahead: Seq<(Seq<char>, int)>, id: Seq<char>) -> bool {
    exists|j: int| 0 <= j < ahead.len() && (#[trigger] ahead[j]).0 == id
}

spec fn nothing_missed(
    root: Seq<char>,
    parents: Seq<Seq<char>>,
    ahead: Seq<(Seq<char>, int)>,
    trace: WalkTrace,
) -> bool {
    &&& forall|p: Seq<char>| #[trigger]
        parents.contains(p) ==> is_seen(root, trace.ids, p) || is_ahead(ahead, p)
    &&& forall|k: int, p: Seq<char>|
        0 <= k < trace.contexts.len() && #[trigger] parents_of(trace.contexts[k]).contains(p)
            ==> is_seen(root, trace.ids, p) || is_ahead(ahead, p)
}

proof fn lemma_nothing_missed(
    limits: ResolverOptions,
    root: Seq<char>,
    parents: Seq<Seq<char>>,
    ahead: Seq<(Seq<char>, int)>,
    trace: WalkTrace,
    o: Resolutions,
)
    requires
        nothing_missed(root, parents, ahead, trace),
    ensures
        walk_from(limits, root, ahead, trace, o) matches Ok(t) ==> is_closed_trace(
            root,
            parents,
            t,
        ),
    decreases limits.max_nodes - trace.ids.len(), ahead.len(),
{
    if ahead.len() > 0 {
        let (next, depth) = ahead[0];
        let rest = ahead.skip(1);
        assert forall|p: Seq<char>| #[trigger] is_ahead(ahead, p) implies p == next || is_ahead(
            rest,
            p,
        ) by {
            let j = choose|j: int| 0 <= j < ahead.len() && (#[trigger] ahead[j]).0 == p;
            if j > 0 {
                assert(rest[j - 1] == ahead[j]);
            }
        }
        if is_seen(root, trace.ids, next) {
            lemma_nothing_missed(limits, root, parents, rest, trace, o);
        } else if depth <= limits.max_depth && trace.ids.len() < limits.max_nodes {
            if let Ok(v) = o(next) {
                if parents_of(v).len() <= limits.max_fanout {
                    let seen = trace.push(next, depth, v);
                    let found = queued(parents_of(v), root, seen.ids, depth + 1);
                    let then_ahead = rest + found;
                    lemma_queued(parents_of(v), root, seen.ids, depth + 1);
                    assert forall|p: Seq<char>|
                        is_seen(root, trace.ids, p) || is_ahead(ahead, p) implies #[trigger] is_seen(
                        root,
                        seen.ids,
                        p,
                    ) || is_ahead(then_ahead, p) by {
                        if trace.ids.contains(p) {
                            let j = choose|j: int| 0 <= j < trace.ids.len() && trace.ids[j] == p;
                            assert(seen.ids[j] == p);
                        } else if p == next {
                            assert(seen.ids[trace.ids.len() as int] == p);
                        } else if is_ahead(ahead, p) {
                            let j = choose|j: int| 0 <= j < rest.len() && (#[trigger] rest[j]).0
                                == p;
                            assert(then_ahead[j] == rest[j]);
                        }
                    }
                    assert forall|k: int, p: Seq<char>|
                        0 <= k < seen.contexts.len() && #[trigger] parents_of(
                            seen.contexts[k],
                        ).contains(p) implies is_seen(root, seen.ids, p) || is_ahead(
                        then_ahead,
                        p,
                    ) by {
                        if k < trace.contexts.len() {
                            assert(parents_of(trace.contexts[k]).contains(p));
                        } else if !is_seen(root, seen.ids, p) {
                            assert(found.contains((p, depth + 1)));
                            let m = choose|m: int| 0 <= m < found.len() && found[m] == (
                                p,
                                depth + 1,
                            );
                            assert(then_ahead[rest.len() + m] == found[m]);
                        }
                    }
                    lemma_nothing_missed(limits, root, parents, then_ahead, seen, o);
                }
            }
        }
    }
}

/// A walk that succeeds leaves no ancestor out: every parent of the root and
/// of every context that it gives is the root or among them.
pub proof fn law_walk_gives_every_ancestor(
    limits: ResolverOptions,
    root: Seq<char>,
    parents: Seq<Seq<char>>,
    o: Resolutions,
)
    ensures
        walk_trace(limits, root, parents, o) matches Ok(t) ==> is_closed_trace(root, parents, t),
{
    let ahead = first_ahead(parents);
    assert forall|p: Seq<char>| #[trigger] parents.contains(p) implies is_ahead(ahead, p) by {
        let j = choose|j: int| 0 <= j < parents.len() && parents[j] == p;
        assert(ahead[j].0 == p);
    }
    lemma_nothing_missed(limits, root, parents, ahead, WalkTrace::empty(), o);
}

/// Whether a verified context names `p` among what it is derived from.
pub open spec fn derives_from(v: VerifiedContextView, p: Seq<char>) -> bool {
    exists|j: int|
        0 <= j < v.ctx.body.derived_from@.len() && (#[trigger] v.ctx.body.derived_from@[j])@ == p
}

/// Whether a step on a path leads from a context that resolves to something
/// that it is derived from.
pub open spec fn is_step(o: Resolutions, path: Seq<Seq<char>>, k: int) -> bool {
    o(path[k - 1]) matches Ok(v) && derives_from(v, path[k])
}

/// Whether a path leads from the root through its ancestors without coming
/// back to the root: it begins at a parent of the root, and every step leads
/// to a parent.
pub open spec fn is_path(
    root: Seq<char>,
    parents: Seq<Seq<char>>,
    o: Resolutions,
    path: Seq<Seq<char>>,
) -> bool {
    &&& path.len() > 0
    &&& parents.contains(path[0])
    &&& forall|k: int| 0 <= k < path.len() ==> #[trigger] path[k] != root
    &&& forall|k: int| 0 < k < path.len() ==> #[trigger] is_step(o, path, k)
}

/// Whether an ancestor is at most this many steps away from the root.
pub open spec fn is_within(
    root: Seq<char>,
    parents: Seq<Seq<char>>,
    o: Resolutions,
    id: Seq<char>,
    steps: int,
) -> bool {
    exists|path: Seq<Seq<char>>| #[trigger]
        is_path(root, parents, o, path) && path.last() == id && path.len() <= steps
}

spec fn is_near(
    root: Seq<char>,
    ahead: Seq<(Seq<char>, int)>,
    trace: WalkTrace,
    id: Seq<char>,
    depth: int,
) -> bool {
    ||| id == root
    ||| exists|j: int|
        0 <= j < trace.ids.len() && (#[trigger] trace.ids[j]) == id && trace.depths[j] <= depth
    ||| is_ahead_within(ahead, id, depth)
}

spec fn is_ahead_within(ahead: Seq<(Seq<char>, int)>, id: Seq<char>, depth: int) -> bool {
    exists|j: int| 0 <= j < ahead.len() && (#[trigger] ahead[j]).0 == id && ahead[j].1 <= depth
}

spec fn parents_are_near(
    root: Seq<char>,
    parents: Seq<Seq<char>>,
    ahead: Seq<(Seq<char>, int)>,
    trace: WalkTrace,
) -> bool {
    &&& forall|p: Seq<char>| #[trigger] parents.contains(p) ==> is_near(root, ahead, trace, p, 1)
    &&& forall|k: int, p: Seq<char>|
        0 <= k < trace.contexts.len() && #[trigger] parents_of(trace.contexts[k]).contains(p)
            ==> is_near(root, ahead, trace, p, trace.depths[k] + 1)
}

/// Every ancestor on a path has been resolved no later than the path has it,
/// or something on the path before it is still ahead.
proof fn lemma_path_is_near(
    root: Seq<char>,
    parents: Seq<Seq<char>>,
    ahead: Seq<(Seq<char>, int)>,
    trace: WalkTrace,
    o: Resolutions,
    path: Seq<Seq<char>>,
    k: int,
)
    requires
        parents_are_near(root, parents, ahead, trace),
        trace.contexts.len() == trace.ids.len(),
        forall|j: int|
            0 <= j < trace.ids.len() ==> o(#[trigger] trace.ids[j]) == Ok::<
                VerifiedContextView,
                AcdpError<Seq<char>>,
            >(trace.contexts[j]),
        is_path(root, parents, o, path),
        0 <= k < path.len(),
    ensures
        (exists|j: int|
            0 <= j < trace.ids.len() && (#[trigger] trace.ids[j]) == path[k] && trace.depths[j] <= k
                + 1) || (exists|i: int|
            0 <= i <= k && #[trigger] is_ahead_within(ahead, path[i], i + 1)),
    decreases k,
{
    if k == 0 {
        assert(parents.contains(path[0]));
        assert(is_near(root, ahead, trace, path[0], 1));
        if is_ahead_within(ahead, path[0], 1) {
            assert(is_ahead_within(ahead, path[0int], 0int + 1));
        }
    } else {
        lemma_path_is_near(root, parents, ahead, trace, o, path, k - 1);
        if exists|i: int| 0 <= i <= k - 1 && #[trigger] is_ahead_within(ahead, path[i], i + 1) {
            let i = choose|i: int|
                0 <= i <= k - 1 && #[trigger] is_ahead_within(ahead, path[i], i + 1);
            assert(is_ahead_within(ahead, path[i], i + 1));
        } else {
            let j = choose|j: int|
                0 <= j < trace.ids.len() && (#[trigger] trace.ids[j]) == path[k - 1]
                    && trace.depths[j] <= k;
            assert(is_step(o, path, k));
            let v = o(path[k - 1])->Ok_0;
            assert(o(trace.ids[j]) == Ok::<VerifiedContextView, AcdpError<Seq<char>>>(
                trace.contexts[j],
            ));
            lemma_derives(v, path[k]);
            assert(parents_of(trace.contexts[j]).contains(path[k]));
            assert(is_near(root, ahead, trace, path[k], trace.depths[j] + 1));
            if is_ahead_within(ahead, path[k], trace.depths[j] + 1) {
                let a = choose|a: int|
                    0 <= a < ahead.len() && (#[trigger] ahead[a]).0 == path[k] && ahead[a].1
                        <= trace.depths[j] + 1;
                assert(ahead[a].1 <= k + 1);
                assert(is_ahead_within(ahead, path[k], k + 1));
            }
        }
    }
}

proof fn lemma_derives(v: VerifiedContextView, p: Seq<char>)
    ensures
        derives_from(v, p) <==> parents_of(v).contains(p),
        parents_of(v).len() == v.ctx.body.derived_from@.len(),
{
    if derives_from(v, p) {
        let j = choose|j: int|
            0 <= j < v.ctx.body.derived_from@.len() && (#[trigger] v.ctx.body.derived_from@[j])@
                == p;
        assert(parents_of(v)[j] == p);
    }
    if parents_of(v).contains(p) {
        let j = choose|j: int| 0 <= j < parents_of(v).len() && parents_of(v)[j] == p;
        assert(v.ctx.body.derived_from@[j]@ == p);
    }
}

proof fn lemma_near_after_skip(
    root: Seq<char>,
    parents: Seq<Seq<char>>,
    ahead: Seq<(Seq<char>, int)>,
    trace: WalkTrace,
)
    requires
        ahead.len() > 0,
        is_seen(root, trace.ids, ahead[0].0),
        is_ordered_ahead(parents, ahead, trace),
        parents_are_near(root, parents, ahead, trace),
    ensures
        parents_are_near(root, parents, ahead.skip(1), trace),
{
    let rest = ahead.skip(1);
    assert forall|p: Seq<char>, d: int| is_near(root, ahead, trace, p, d) implies #[trigger] is_near(
        root,
        rest,
        trace,
        p,
        d,
    ) by {
        if is_ahead_within(ahead, p, d) {
            let j = choose|j: int|
                0 <= j < ahead.len() && (#[trigger] ahead[j]).0 == p && ahead[j].1 <= d;
            if j > 0 {
                assert(rest[j - 1] == ahead[j]);
                assert(is_ahead_within(rest, p, d));
            } else if p != root {
                let i = choose|i: int| 0 <= i < trace.ids.len() && trace.ids[i] == p;
                assert(trace.depths[i] <= ahead[0].1);
            }
        }
    }
}

proof fn lemma_near_after_visit(
    root: Seq<char>,
    parents: Seq<Seq<char>>,
    ahead: Seq<(Seq<char>, int)>,
    trace: WalkTrace,
    v: VerifiedContextView,
)
    requires
        ahead.len() > 0,
        trace.contexts.len() == trace.ids.len(),
        trace.depths.len() == trace.ids.len(),
        is_ordered_ahead(parents, ahead, trace),
        parents_are_near(root, parents, ahead, trace),
    ensures
        ({
            let (next, depth) = ahead[0];
            let seen = trace.push(next, depth, v);
            parents_are_near(
                root,
                parents,
                ahead.skip(1) + queued(parents_of(v), root, seen.ids, depth + 1),
                seen,
            )
        }),
{
    let (next, depth) = ahead[0];
    let rest = ahead.skip(1);
    let seen = trace.push(next, depth, v);
    let found = queued(parents_of(v), root, seen.ids, depth + 1);
    let then_ahead = rest + found;
    let n = trace.ids.len() as int;
    lemma_queued(parents_of(v), root, seen.ids, depth + 1);
    assert forall|p: Seq<char>, d: int| is_near(root, ahead, trace, p, d) implies #[trigger] is_near(
        root,
        then_ahead,
        seen,
        p,
        d,
    ) by {
        if p == root {
        } else if is_ahead_within(ahead, p, d) {
            let j = choose|j: int|
                0 <= j < ahead.len() && (#[trigger] ahead[j]).0 == p && ahead[j].1 <= d;
            if j > 0 {
                assert(then_ahead[j - 1] == ahead[j]);
                assert(is_ahead_within(then_ahead, p, d));
            } else {
                assert(seen.ids[n] == p && seen.depths[n] <= d);
            }
        } else {
            let i = choose|i: int|
                0 <= i < trace.ids.len() && (#[trigger] trace.ids[i]) == p && trace.depths[i] <= d;
            assert(seen.ids[i] == p && seen.depths[i] <= d);
        }
    }
    assert forall|k: int, p: Seq<char>|
        0 <= k < seen.contexts.len() && #[trigger] parents_of(seen.contexts[k]).contains(
            p,
        ) implies is_near(root, then_ahead, seen, p, seen.depths[k] + 1) by {
        if k < n {
            assert(parents_of(trace.contexts[k]).contains(p));
            assert(is_near(root, ahead, trace, p, trace.depths[k] + 1));
        } else if p == root {
        } else if seen.ids.contains(p) {
            let i = choose|i: int| 0 <= i < seen.ids.len() && seen.ids[i] == p;
            if i < n {
                assert(trace.depths[i] <= ahead[0].1);
            }
            assert(seen.ids[i] == p && seen.depths[i] <= depth + 1);
        } else {
            assert(found.contains((p, depth + 1)));
            let m = choose|m: int| 0 <= m < found.len() && found[m] == (p, depth + 1);
            assert(then_ahead[rest.len() + m] == found[m]);
            assert(is_ahead_within(then_ahead, p, depth + 1));
        }
    }
}

/// Whether these are ancestors that a walk within these limits can all visit:
/// each resolves, names no more parents than it may, and names nothing but
/// the root and others among them.
pub open spec fn can_be_visited(
    limits: ResolverOptions,
    root: Seq<char>,
    o: Resolutions,
    all: Set<Seq<char>>,
) -> bool {
    forall|id: Seq<char>| #[trigger]
        all.contains(id) ==> {
            &&& o(id) matches Ok(v)
            &&& v.ctx.body.derived_from@.len() <= limits.max_fanout
            &&& forall|j: int|
                0 <= j < v.ctx.body.derived_from@.len() ==> (
                #[trigger] v.ctx.body.derived_from@[j])@ == root || all.contains(
                    v.ctx.body.derived_from@[j]@,
                )
        }
}

spec fn stays_among(
    root: Seq<char>,
    ahead: Seq<(Seq<char>, int)>,
    trace: WalkTrace,
    all: Set<Seq<char>>,
) -> bool {
    &&& forall|k: int| 0 <= k < trace.ids.len() ==> all.contains(#[trigger] trace.ids[k])
    &&& forall|k: int|
        0 <= k < ahead.len() ==> (#[trigger] ahead[k]).0 == root || all.contains(ahead[k].0)
}

proof fn lemma_next_is_close_enough(
    limits: ResolverOptions,
    root: Seq<char>,
    parents: Seq<Seq<char>>,
    ahead: Seq<(Seq<char>, int)>,
    trace: WalkTrace,
    o: Resolutions,
)
    requires
        ahead.len() > 0,
        !is_seen(root, trace.ids, ahead[0].0),
        is_within(root, parents, o, ahead[0].0, limits.max_depth as int),
        is_bounded_trace(limits, root, trace, o),
        is_ordered_ahead(parents, ahead, trace),
        parents_are_near(root, parents, ahead, trace),
    ensures
        ahead[0].1 <= limits.max_depth,
{
    let next = ahead[0].0;
    let path = choose|path: Seq<Seq<char>>| #[trigger]
        is_path(root, parents, o, path) && path.last() == next && path.len() <= limits.max_depth;
    let k = path.len() - 1;
    lemma_path_is_near(root, parents, ahead, trace, o, path, k);
    if exists|j: int|
        0 <= j < trace.ids.len() && (#[trigger] trace.ids[j]) == path[k] && trace.depths[j] <= k
            + 1 {
        assert(trace.ids.contains(next));
    }
    let i = choose|i: int| 0 <= i <= k && #[trigger] is_ahead_within(ahead, path[i], i + 1);
    let a = choose|a: int|
        0 <= a < ahead.len() && (#[trigger] ahead[a]).0 == path[i] && ahead[a].1 <= i + 1;
    assert(ahead[0].1 <= ahead[a].1);
}

proof fn lemma_there_is_room(ids: Seq<Seq<char>>, next: Seq<char>, all: Set<Seq<char>>)
    requires
        all.finite(),
        ids.no_duplicates(),
        !ids.contains(next),
        all.contains(next),
        forall|k: int| 0 <= k < ids.len() ==> all.contains(#[trigger] ids[k]),
    ensures
        ids.len() < all.len(),
{
    ids.unique_seq_to_set();
    vstd::seq_lib::seq_to_set_is_finite(ids);
    let more = ids.to_set().insert(next);
    assert(!ids.to_set().contains(next));
    assert forall|id: Seq<char>| #[trigger] more.contains(id) implies all.contains(id) by {
        if id != next {
            let k = choose|k: int| 0 <= k < ids.len() && ids[k] == id;
            assert(all.contains(ids[k]));
        }
    }
    vstd::set_lib::lemma_len_subset(more, all);
}

proof fn lemma_stays_among(
    limits: ResolverOptions,
    root: Seq<char>,
    ahead: Seq<(Seq<char>, int)>,
    trace: WalkTrace,
    o: Resolutions,
    all: Set<Seq<char>>,
)
    requires
        ahead.len() > 0,
        all.contains(ahead[0].0),
        can_be_visited(limits, root, o, all),
        stays_among(root, ahead, trace, all),
    ensures
        ({
            let (next, depth) = ahead[0];
            let v = o(next)->Ok_0;
            let seen = trace.push(next, depth, v);
            stays_among(
                root,
                ahead.skip(1) + queued(parents_of(v), root, seen.ids, depth + 1),
                seen,
                all,
            )
        }),
{
    let (next, depth) = ahead[0];
    let rest = ahead.skip(1);
    let v = o(next)->Ok_0;
    let seen = trace.push(next, depth, v);
    let found = queued(parents_of(v), root, seen.ids, depth + 1);
    let then_ahead = rest + found;
    lemma_queued(parents_of(v), root, seen.ids, depth + 1);
    assert forall|k: int| 0 <= k < seen.ids.len() implies all.contains(#[trigger] seen.ids[k]) by {
        if k < trace.ids.len() {
            assert(all.contains(trace.ids[k]));
        }
    }
    assert forall|k: int| 0 <= k < then_ahead.len() implies (#[trigger] then_ahead[k]).0 == root
        || all.contains(then_ahead[k].0) by {
        if k < rest.len() {
            assert(then_ahead[k] == ahead[k + 1]);
        } else {
            let p = found[k - rest.len()].0;
            assert(parents_of(v).contains(p));
            let j = choose|j: int| 0 <= j < parents_of(v).len() && parents_of(v)[j] == p;
            assert(v.ctx.body.derived_from@[j]@ == p);
        }
    }
}

proof fn lemma_bounded_after_visit(
    limits: ResolverOptions,
    root: Seq<char>,
    trace: WalkTrace,
    o: Resolutions,
    next: Seq<char>,
    depth: int,
    v: VerifiedContextView,
)
    requires
        is_bounded_trace(limits, root, trace, o),
        !is_seen(root, trace.ids, next),
        o(next) == Ok::<VerifiedContextView, AcdpError<Seq<char>>>(v),
        parents_of(v).len() <= limits.max_fanout,
        depth <= limits.max_depth,
        trace.ids.len() < limits.max_nodes,
    ensures
        is_bounded_trace(limits, root, trace.push(next, depth, v), o),
{
    let seen = trace.push(next, depth, v);
    assert(!seen.ids.contains(root)) by {
        if seen.ids.contains(root) {
            let k = choose|k: int| 0 <= k < seen.ids.len() && seen.ids[k] == root;
            assert(trace.ids[k] == root);
        }
    }
}

proof fn lemma_ordered_after_skip(
    parents: Seq<Seq<char>>,
    ahead: Seq<(Seq<char>, int)>,
    trace: WalkTrace,
)
    requires
        ahead.len() > 0,
        is_ordered_ahead(parents, ahead, trace),
    ensures
        is_ordered_ahead(parents, ahead.skip(1), trace),
{
    let rest = ahead.skip(1);
    assert(forall|k: int| 0 <= k < rest.len() ==> #[trigger] rest[k] == ahead[k + 1]);
}

#[verifier::opaque]
spec fn is_on_course(
    limits: ResolverOptions,
    root: Seq<char>,
    parents: Seq<Seq<char>>,
    ahead: Seq<(Seq<char>, int)>,
    trace: WalkTrace,
    o: Resolutions,
    all: Set<Seq<char>>,
) -> bool {
    &&& all.finite()
    &&& all.len() <= limits.max_nodes
    &&& can_be_visited(limits, root, o, all)
    &&& forall|id: Seq<char>| #[trigger]
        all.contains(id) ==> is_within(root, parents, o, id, limits.max_depth as int)
    &&& is_bounded_trace(limits, root, trace, o)
    &&& is_ordered_trace(parents, trace)
    &&& is_ordered_ahead(parents, ahead, trace)
    &&& parents_are_near(root, parents, ahead, trace)
    &&& stays_among(root, ahead, trace, all)
}

proof fn lemma_on_course_after_skip(
    limits: ResolverOptions,
    root: Seq<char>,
    parents: Seq<Seq<char>>,
    ahead: Seq<(Seq<char>, int)>,
    trace: WalkTrace,
    o: Resolutions,
    all: Set<Seq<char>>,
)
    requires
        is_on_course(limits, root, parents, ahead, trace, o, all),
        ahead.len() > 0,
        is_seen(root, trace.ids, ahead[0].0),
    ensures
        is_on_course(limits, root, parents, ahead.skip(1), trace, o, all),
{
    reveal(is_on_course);
    let rest = ahead.skip(1);
    lemma_near_after_skip(root, parents, ahead, trace);
    lemma_ordered_after_skip(parents, ahead, trace);
    assert(stays_among(root, rest, trace, all)) by {
        assert(forall|k: int| 0 <= k < rest.len() ==> #[trigger] rest[k] == ahead[k + 1]);
    }
}

proof fn lemma_next_can_be_visited(
    limits: ResolverOptions,
    root: Seq<char>,
    parents: Seq<Seq<char>>,
    ahead: Seq<(Seq<char>, int)>,
    trace: WalkTrace,
    o: Resolutions,
    all: Set<Seq<char>>,
)
    requires
        is_on_course(limits, root, parents, ahead, trace, o, all),
        ahead.len() > 0,
        !is_seen(root, trace.ids, ahead[0].0),
    ensures
        all.contains(ahead[0].0),
        ahead[0].1 <= limits.max_depth,
        trace.ids.len() < limits.max_nodes,
        o(ahead[0].0) matches Ok(v) && parents_of(v).len() <= limits.max_fanout,
{
    reveal(is_on_course);
    let next = ahead[0].0;
    assert(all.contains(next));
    lemma_next_is_close_enough(limits, root, parents, ahead, trace, o);
    lemma_there_is_room(trace.ids, next, all);
    lemma_derives(o(next)->Ok_0, next);
}

proof fn lemma_on_course_after_visit(
    limits: ResolverOptions,
    root: Seq<char>,
    parents: Seq<Seq<char>>,
    ahead: Seq<(Seq<char>, int)>,
    trace: WalkTrace,
    o: Resolutions,
    all: Set<Seq<char>>,
)
    requires
        is_on_course(limits, root, parents, ahead, trace, o, all),
        ahead.len() > 0,
        !is_seen(root, trace.ids, ahead[0].0),
    ensures
        ({
            let (next, depth) = ahead[0];
            let v = o(next)->Ok_0;
            let seen = trace.push(next, depth, v);
            is_on_course(
                limits,
                root,
                parents,
                ahead.skip(1) + queued(parents_of(v), root, seen.ids, depth + 1),
                seen,
                o,
                all,
            )
        }),
{
    lemma_next_can_be_visited(limits, root, parents, ahead, trace, o, all);
    reveal(is_on_course);
    let (next, depth) = ahead[0];
    let v = o(next)->Ok_0;
    lemma_near_after_visit(root, parents, ahead, trace, v);
    lemma_ordered_after_visit(root, parents, ahead, trace, v);
    lemma_bounded_after_visit(limits, root, trace, o, next, depth, v);
    lemma_stays_among(limits, root, ahead, trace, o, all);
}

proof fn lemma_walk_completes(
    limits: ResolverOptions,
    root: Seq<char>,
    parents: Seq<Seq<char>>,
    ahead: Seq<(Seq<char>, int)>,
    trace: WalkTrace,
    o: Resolutions,
    all: Set<Seq<char>>,
)
    requires
        is_on_course(limits, root, parents, ahead, trace, o, all),
        trace.ids.len() <= limits.max_nodes,
    ensures
        walk_from(limits, root, ahead, trace, o) matches Ok(t) && is_on_course(
            limits,
            root,
            parents,
            Seq::empty(),
            t,
            o,
            all,
        ),
    decreases limits.max_nodes - trace.ids.len(), ahead.len(),
{
    if ahead.len() > 0 {
        let (next, depth) = ahead[0];
        if is_seen(root, trace.ids, next) {
            lemma_on_course_after_skip(limits, root, parents, ahead, trace, o, all);
            lemma_walk_completes(limits, root, parents, ahead.skip(1), trace, o, all);
        } else {
            lemma_next_can_be_visited(limits, root, parents, ahead, trace, o, all);
            lemma_on_course_after_visit(limits, root, parents, ahead, trace, o, all);
            let v = o(next)->Ok_0;
            let seen = trace.push(next, depth, v);
            lemma_walk_completes(
                limits,
                root,
                parents,
                ahead.skip(1) + queued(parents_of(v), root, seen.ids, depth + 1),
                seen,
                o,
                all,
            );
        }
    } else {
        assert(ahead =~= Seq::empty());
    }
}

/// Whether a verified context is what one of these ancestors resolved to.
pub open spec fn is_resolution_of(
    all: Set<Seq<char>>,
    o: Resolutions,
    v: VerifiedContextView,
) -> bool {
    exists|id: Seq<char>| #[trigger]
        all.contains(id) && o(id) == Ok::<VerifiedContextView, AcdpError<Seq<char>>>(v)
}

/// A walk succeeds wherever it can: if the ancestors that the root's parents
/// lead to all resolve, none names more parents than it may, there are no
/// more of them than may be visited, and each is at most as many steps away
/// as it may be, then the walk gives each of them once, as it resolved. In
/// particular a walk gives up for distance only over an ancestor that no
/// path within the limit leads to.
pub proof fn law_walk_succeeds_within_its_limits(
    limits: ResolverOptions,
    root: Seq<char>,
    parents: Seq<Seq<char>>,
    o: Resolutions,
    all: Set<Seq<char>>,
)
    requires
        parents.len() <= limits.max_fanout,
        all.finite(),
        all.len() <= limits.max_nodes,
        !all.contains(root),
        forall|k: int|
            0 <= k < parents.len() ==> (#[trigger] parents[k]) == root || all.contains(parents[k]),
        can_be_visited(limits, root, o, all),
        forall|id: Seq<char>| #[trigger]
            all.contains(id) ==> is_within(root, parents, o, id, limits.max_depth as int),
    ensures
        ancestors(walk_trace(limits, root, parents, o)) matches Ok(contexts) && {
            &&& contexts.len() == all.len()
            &&& forall|id: Seq<char>| #[trigger]
                all.contains(id) ==> contexts.contains(o(id)->Ok_0)
            &&& forall|k: int|
                0 <= k < contexts.len() ==> is_resolution_of(all, o, #[trigger] contexts[k])
        },
{
    lemma_on_course_at_the_start(limits, root, parents, o, all);
    lemma_walk_completes(limits, root, parents, first_ahead(parents), WalkTrace::empty(), o, all);
    let t = walk_trace(limits, root, parents, o)->Ok_0;
    lemma_all_are_visited(limits, root, parents, o, all);
    lemma_visited_are_all(t, o, all);
}

proof fn lemma_on_course_at_the_start(
    limits: ResolverOptions,
    root: Seq<char>,
    parents: Seq<Seq<char>>,
    o: Resolutions,
    all: Set<Seq<char>>,
)
    requires
        all.finite(),
        all.len() <= limits.max_nodes,
        forall|k: int|
            0 <= k < parents.len() ==> (#[trigger] parents[k]) == root || all.contains(parents[k]),
        can_be_visited(limits, root, o, all),
        forall|id: Seq<char>| #[trigger]
            all.contains(id) ==> is_within(root, parents, o, id, limits.max_depth as int),
    ensures
        is_on_course(limits, root, parents, first_ahead(parents), WalkTrace::empty(), o, all),
{
    reveal(is_on_course);
    let ahead = first_ahead(parents);
    let trace = WalkTrace::empty();
    assert forall|k: int| 0 <= k < ahead.len() implies is_found(
        parents,
        trace,
        0,
        (#[trigger] ahead[k]).0,
        ahead[k].1,
    ) by {
        assert(parents[k] == ahead[k].0);
    }
    assert(parents_are_near(root, parents, ahead, trace)) by {
        assert forall|p: Seq<char>| #[trigger] parents.contains(p) implies is_near(
            root,
            ahead,
            trace,
            p,
            1,
        ) by {
            let j = choose|j: int| 0 <= j < parents.len() && parents[j] == p;
            assert(ahead[j].0 == p && ahead[j].1 <= 1);
            assert(is_ahead_within(ahead, p, 1));
        }
    }
    assert(stays_among(root, ahead, trace, all)) by {
        assert forall|k: int| 0 <= k < ahead.len() implies (#[trigger] ahead[k]).0 == root
            || all.contains(ahead[k].0) by {
            assert(parents[k] == ahead[k].0);
        }
    }
}

proof fn lemma_course_facts(
    limits: ResolverOptions,
    root: Seq<char>,
    parents: Seq<Seq<char>>,
    trace: WalkTrace,
    o: Resolutions,
    all: Set<Seq<char>>,
)
    requires
        is_on_course(limits, root, parents, Seq::empty(), trace, o, all),
    ensures
        is_bounded_trace(limits, root, trace, o),
        stays_among(root, Seq::empty(), trace, all),
        forall|id: Seq<char>| #[trigger]
            all.contains(id) ==> is_within(root, parents, o, id, limits.max_depth as int),
{
    reveal(is_on_course);
}

proof fn lemma_all_are_visited(
    limits: ResolverOptions,
    root: Seq<char>,
    parents: Seq<Seq<char>>,
    o: Resolutions,
    all: Set<Seq<char>>,
)
    requires
        walk_trace(limits, root, parents, o) matches Ok(t) && is_on_course(
            limits,
            root,
            parents,
            Seq::empty(),
            t,
            o,
            all,
        ),
    ensures
        ({
            let t = walk_trace(limits, root, parents, o)->Ok_0;
            &&& t.contexts.len() == t.ids.len()
            &&& t.ids.no_duplicates()
            &&& forall|k: int|
                0 <= k < t.ids.len() ==> o(#[trigger] t.ids[k]) == Ok::<
                    VerifiedContextView,
                    AcdpError<Seq<char>>,
                >(t.contexts[k])
            &&& forall|k: int| 0 <= k < t.ids.len() ==> all.contains(#[trigger] t.ids[k])
            &&& forall|id: Seq<char>| #[trigger] all.contains(id) ==> t.ids.contains(id)
        }),
{
    let t = walk_trace(limits, root, parents, o)->Ok_0;
    lemma_course_facts(limits, root, parents, t, o, all);
    assert forall|id: Seq<char>| #[trigger] all.contains(id) implies t.ids.contains(id) by {
        lemma_is_visited(limits, root, parents, o, id);
    }
}

proof fn lemma_is_visited(
    limits: ResolverOptions,
    root: Seq<char>,
    parents: Seq<Seq<char>>,
    o: Resolutions,
    id: Seq<char>,
)
    requires
        walk_trace(limits, root, parents, o) is Ok,
        is_within(root, parents, o, id, limits.max_depth as int),
    ensures
        walk_trace(limits, root, parents, o)->Ok_0.ids.contains(id),
{
    let t = walk_trace(limits, root, parents, o)->Ok_0;
    law_walk_is_bounded(limits, root, parents, o);
    law_walk_gives_every_ancestor(limits, root, parents, o);
    let path = choose|path: Seq<Seq<char>>| #[trigger]
        is_path(root, parents, o, path) && path.last() == id && path.len() <= limits.max_depth;
    lemma_path_is_visited(limits, root, parents, o, t, path, path.len() - 1);
}

proof fn lemma_visited_are_all(t: WalkTrace, o: Resolutions, all: Set<Seq<char>>)
    requires
        t.contexts.len() == t.ids.len(),
        t.ids.no_duplicates(),
        forall|k: int|
            0 <= k < t.ids.len() ==> o(#[trigger] t.ids[k]) == Ok::<
                VerifiedContextView,
                AcdpError<Seq<char>>,
            >(t.contexts[k]),
        forall|k: int| 0 <= k < t.ids.len() ==> all.contains(#[trigger] t.ids[k]),
        forall|id: Seq<char>| #[trigger] all.contains(id) ==> t.ids.contains(id),
    ensures
        t.contexts.len() == all.len(),
        forall|id: Seq<char>| #[trigger] all.contains(id) ==> t.contexts.contains(o(id)->Ok_0),
        forall|k: int|
            0 <= k < t.contexts.len() ==> is_resolution_of(all, o, #[trigger] t.contexts[k]),
{
    assert(t.ids.to_set() =~= all) by {
        assert forall|id: Seq<char>| #[trigger] t.ids.to_set().contains(id) implies all.contains(
            id,
        ) by {
            let k = choose|k: int| 0 <= k < t.ids.len() && t.ids[k] == id;
            assert(all.contains(t.ids[k]));
        }
    }
    t.ids.unique_seq_to_set();
    assert forall|id: Seq<char>| #[trigger] all.contains(id) implies t.contexts.contains(
        o(id)->Ok_0,
    ) by {
        let k = choose|k: int| 0 <= k < t.ids.len() && t.ids[k] == id;
        assert(o(t.ids[k]) == Ok::<VerifiedContextView, AcdpError<Seq<char>>>(t.contexts[k]));
    }
    assert forall|k: int| 0 <= k < t.contexts.len() implies is_resolution_of(
        all,
        o,
        #[trigger] t.contexts[k],
    ) by {
        assert(all.contains(t.ids[k]));
    }
}

proof fn lemma_path_is_visited(
    limits: ResolverOptions,
    root: Seq<char>,
    parents: Seq<Seq<char>>,
    o: Resolutions,
    t: WalkTrace,
    path: Seq<Seq<char>>,
    k: int,
)
    requires
        is_bounded_trace(limits, root, t, o),
        is_closed_trace(root, parents, t),
        is_path(root, parents, o, path),
        0 <= k < path.len(),
    ensures
        t.ids.contains(path[k]),
    decreases k,
{
    assert(path[k] != root);
    if k == 0 {
        assert(parents.contains(path[0]));
    } else {
        lemma_path_is_visited(limits, root, parents, o, t, path, k - 1);
        let j = choose|j: int| 0 <= j < t.ids.len() && t.ids[j] == path[k - 1];
        assert(o(t.ids[j]) == Ok::<VerifiedContextView, AcdpError<Seq<char>>>(t.contexts[j]));
        assert(is_step(o, path, k));
        lemma_derives(t.contexts[j], path[k]);
        assert(parents_of(t.contexts[j]).contains(path[k]));
    }
}

#[verifier::opaque]
spec fn is_kept_trace(
    limits: ResolverOptions,
    root: Seq<char>,
    parents: Seq<Seq<char>>,
    trace: WalkTrace,
    o: Resolutions,
) -> bool {
    &&& is_bounded_trace(limits, root, trace, o)
    &&& is_ordered_trace(parents, trace)
    &&& is_closed_trace(root, parents, trace)
}

proof fn lemma_trace_facts(
    limits: ResolverOptions,
    root: Seq<char>,
    parents: Seq<Seq<char>>,
    trace: WalkTrace,
    o: Resolutions,
    k: int,
)
    requires
        is_kept_trace(limits, root, parents, trace, o),
        0 <= k < trace.ids.len(),
    ensures
        trace.ids.len() == trace.contexts.len() == trace.depths.len(),
        trace.ids[k] != root,
        o(trace.ids[k]) == Ok::<VerifiedContextView, AcdpError<Seq<char>>>(trace.contexts[k]),
        trace.depths[k] <= limits.max_depth,
        k > 0 ==> trace.depths[k - 1] <= trace.depths[k],
        parents_of(trace.contexts[k]).len() <= limits.max_fanout,
{
    reveal(is_kept_trace);
    assert(trace.ids.contains(trace.ids[k]));
    assert(parents_of(trace.contexts[k]).len() <= limits.max_fanout);
    assert(trace.depths[k] <= limits.max_depth);
}

proof fn lemma_trace_is_closed(
    limits: ResolverOptions,
    root: Seq<char>,
    parents: Seq<Seq<char>>,
    trace: WalkTrace,
    o: Resolutions,
    k: int,
    p: Seq<char>,
)
    requires
        is_kept_trace(limits, root, parents, trace, o),
    ensures
        parents.contains(p) ==> p == root || trace.ids.contains(p),
        0 <= k < trace.ids.len() && derives_from(trace.contexts[k], p) ==> p == root
            || trace.ids.contains(p),
{
    reveal(is_kept_trace);
    if 0 <= k < trace.ids.len() {
        lemma_derives(trace.contexts[k], p);
        if derives_from(trace.contexts[k], p) {
            assert(parents_of(trace.contexts[k]).contains(p));
            assert(is_seen(root, trace.ids, p));
        }
    }
    if parents.contains(p) {
        assert(is_seen(root, trace.ids, p));
    }
}

proof fn lemma_found_from(
    limits: ResolverOptions,
    root: Seq<char>,
    parents: Seq<Seq<char>>,
    trace: WalkTrace,
    o: Resolutions,
    k: int,
) -> (j: int)
    requires
        is_kept_trace(limits, root, parents, trace, o),
        0 <= k < trace.ids.len(),
    ensures
        (trace.depths[k] == 1 && parents.contains(trace.ids[k])) || (0 <= j < k && trace.depths[k]
            == trace.depths[j] + 1 && derives_from(trace.contexts[j], trace.ids[k])),
{
    reveal(is_kept_trace);
    let id = trace.ids[k];
    assert(is_found(parents, trace, k, trace.ids[k], trace.depths[k]));
    if trace.depths[k] == 1 && parents.contains(id) {
        0
    } else {
        let j = choose|j: int|
            0 <= j < k && trace.depths[k] == trace.depths[j] + 1 && parents_of(
                #[trigger] trace.contexts[j],
            ).contains(id);
        lemma_derives(trace.contexts[j], id);
        j
    }
}

proof fn lemma_longer_path(
    root: Seq<char>,
    parents: Seq<Seq<char>>,
    o: Resolutions,
    before: Seq<Seq<char>>,
    v: VerifiedContextView,
    id: Seq<char>,
)
    requires
        is_path(root, parents, o, before),
        o(before.last()) == Ok::<VerifiedContextView, AcdpError<Seq<char>>>(v),
        derives_from(v, id),
        id != root,
    ensures
        is_path(root, parents, o, before.push(id)),
{
    let path = before.push(id);
    assert forall|n: int| 0 < n < path.len() implies #[trigger] is_step(o, path, n) by {
        if n < before.len() {
            assert(is_step(o, before, n));
            assert(path[n] == before[n] && path[n - 1] == before[n - 1]);
        } else {
            assert(path[n - 1] == before.last());
        }
    }
    assert forall|n: int| 0 <= n < path.len() implies #[trigger] path[n] != root by {
        if n < before.len() {
            assert(path[n] == before[n]);
        }
    }
    assert(path[0] == before[0]);
}

proof fn lemma_found_by_a_path(
    limits: ResolverOptions,
    root: Seq<char>,
    parents: Seq<Seq<char>>,
    trace: WalkTrace,
    o: Resolutions,
    k: int,
)
    requires
        is_kept_trace(limits, root, parents, trace, o),
        0 <= k < trace.ids.len(),
    ensures
        exists|path: Seq<Seq<char>>| #[trigger]
            is_path(root, parents, o, path) && path.last() == trace.ids[k] && path.len()
                == trace.depths[k],
    decreases k,
{
    let id = trace.ids[k];
    lemma_trace_facts(limits, root, parents, trace, o, k);
    let j = lemma_found_from(limits, root, parents, trace, o, k);
    if trace.depths[k] == 1 && parents.contains(id) {
        let path = seq![id];
        assert(is_path(root, parents, o, path));
    } else {
        lemma_trace_facts(limits, root, parents, trace, o, j);
        lemma_found_by_a_path(limits, root, parents, trace, o, j);
        let before = choose|path: Seq<Seq<char>>| #[trigger]
            is_path(root, parents, o, path) && path.last() == trace.ids[j] && path.len()
                == trace.depths[j];
        lemma_longer_path(root, parents, o, before, trace.contexts[j], id);
        assert(before.push(id).last() == id);
    }
}

proof fn lemma_found_within(
    limits: ResolverOptions,
    root: Seq<char>,
    parents: Seq<Seq<char>>,
    trace: WalkTrace,
    o: Resolutions,
    k: int,
)
    requires
        is_kept_trace(limits, root, parents, trace, o),
        0 <= k < trace.ids.len(),
    ensures
        is_within(root, parents, o, trace.ids[k], limits.max_depth as int),
        is_within(root, parents, o, trace.ids[k], trace.depths[k]),
{
    lemma_trace_facts(limits, root, parents, trace, o, k);
    lemma_found_by_a_path(limits, root, parents, trace, o, k);
}

proof fn lemma_trace_is_kept(
    limits: ResolverOptions,
    root: Seq<char>,
    parents: Seq<Seq<char>>,
    o: Resolutions,
)
    ensures
        walk_trace(limits, root, parents, o) matches Ok(t) ==> {
            &&& is_kept_trace(limits, root, parents, t, o)
            &&& t.ids.len() == t.contexts.len() <= limits.max_nodes
            &&& t.ids.no_duplicates()
            &&& !t.ids.contains(root)
        },
{
    law_walk_is_bounded(limits, root, parents, o);
    law_closer_ancestors_come_first(limits, root, parents, o);
    law_walk_gives_every_ancestor(limits, root, parents, o);
    reveal(is_kept_trace);
}

/// A walk that succeeds has kept to its limits and left nothing out: it gives
/// what different ancestors resolved to, no more of them than may be visited,
/// each no further away than it may be, the closer first; none of them, nor
/// the root, names more parents than it may; and whatever one of them or the
/// root is derived from is the root or among them.
pub proof fn law_walk_keeps_its_limits(
    limits: ResolverOptions,
    root: Seq<char>,
    parents: Seq<Seq<char>>,
    o: Resolutions,
    k: int,
    p: Seq<char>,
)
    ensures
        parents.len() > limits.max_fanout ==> walk_trace(limits, root, parents, o) is Err,
        walk_trace(limits, root, parents, o) matches Ok(t) ==> {
            &&& ancestors(walk_trace(limits, root, parents, o)) == Ok::<
                Seq<VerifiedContextView>,
                AcdpError<Seq<char>>,
            >(t.contexts)
            &&& t.ids.len() == t.contexts.len() <= limits.max_nodes
            &&& t.ids.no_duplicates()
            &&& !t.ids.contains(root)
            &&& 0 <= k < t.ids.len() ==> {
                &&& o(t.ids[k]) == Ok::<VerifiedContextView, AcdpError<Seq<char>>>(t.contexts[k])
                &&& is_within(root, parents, o, t.ids[k], limits.max_depth as int)
                &&& is_within(root, parents, o, t.ids[k], t.depths[k])
                &&& k > 0 ==> t.depths[k - 1] <= t.depths[k]
                &&& t.contexts[k].ctx.body.derived_from@.len() <= limits.max_fanout
                &&& derives_from(t.contexts[k], p) ==> p == root || t.ids.contains(p)
            }
            &&& parents.contains(p) ==> p == root || t.ids.contains(p)
        },
{
    lemma_trace_is_kept(limits, root, parents, o);
    if let Ok(t) = walk_trace(limits, root, parents, o) {
        if 0 <= k < t.ids.len() {
            lemma_trace_facts(limits, root, parents, t, o, k);
            lemma_found_within(limits, root, parents, t, o, k);
            lemma_derives(t.contexts[k], p);
        }
        lemma_trace_is_closed(limits, root, parents, t, o, k, p);
    }
}

/// Whether a failure of a walk is one that it has for a reason: an ancestor
/// did not resolve, names more parents than it may, is too far away, or is
/// one too many.
pub open spec fn is_reason_to_stop(
    limits: ResolverOptions,
    o: Resolutions,
    id: Seq<char>,
    e: AcdpError<Seq<char>>,
) -> bool {
    ||| o(id) == Err::<VerifiedContextView, AcdpError<Seq<char>>>(e)
    ||| e == AcdpError::CrossRegistryResolutionFailed(
        ResolutionFault::Depth { ctx_id: id, limit: limits.max_depth as u64 },
    )
    ||| e == AcdpError::CrossRegistryResolutionFailed(
        ResolutionFault::Nodes { ctx_id: id, limit: limits.max_nodes as u64 },
    )
    ||| o(id) is Ok && o(id)->Ok_0.ctx.body.derived_from@.len() > limits.max_fanout && e
        == AcdpError::CrossRegistryResolutionFailed(
        ResolutionFault::Fanout {
            ctx_id: id,
            count: o(id)->Ok_0.ctx.body.derived_from@.len() as u64,
            limit: limits.max_fanout as u64,
        },
    )
}

proof fn lemma_walk_stops_for_a_reason(
    limits: ResolverOptions,
    root: Seq<char>,
    ahead: Seq<(Seq<char>, int)>,
    trace: WalkTrace,
    o: Resolutions,
)
    ensures
        walk_from(limits, root, ahead, trace, o) matches Err(e) ==> exists|id: Seq<char>| #[trigger]
            is_reason_to_stop(limits, o, id, e),
    decreases limits.max_nodes - trace.ids.len(), ahead.len(),
{
    if ahead.len() > 0 {
        let (next, depth) = ahead[0];
        let rest = ahead.skip(1);
        if is_seen(root, trace.ids, next) {
            lemma_walk_stops_for_a_reason(limits, root, rest, trace, o);
        } else if depth <= limits.max_depth && trace.ids.len() < limits.max_nodes {
            if let Ok(v) = o(next) {
                lemma_derives(v, next);
                if parents_of(v).len() <= limits.max_fanout {
                    let seen = trace.push(next, depth, v);
                    lemma_walk_stops_for_a_reason(
                        limits,
                        root,
                        rest + queued(parents_of(v), root, seen.ids, depth + 1),
                        seen,
                        o,
                    );
                } else {
                    assert(is_reason_to_stop(
                        limits,
                        o,
                        next,
                        walk_from(limits, root, ahead, trace, o)->Err_0,
                    ));
                }
            } else {
                assert(is_reason_to_stop(
                    limits,
                    o,
                    next,
                    walk_from(limits, root, ahead, trace, o)->Err_0,
                ));
            }
        } else {
            assert(is_reason_to_stop(
                limits,
                o,
                next,
                walk_from(limits, root, ahead, trace, o)->Err_0,
            ));
        }
    }
}

/// A walk that fails says why: the root names more parents than it may, or
/// some ancestor did not resolve, names too many, is too far away or is one
/// too many.
pub proof fn law_walk_stops_for_a_reason(
    limits: ResolverOptions,
    root: Seq<char>,
    parents: Seq<Seq<char>>,
    o: Resolutions,
)
    ensures
        ({
            let r = walk_trace(limits, root, parents, o);
            &&& parents.len() > limits.max_fanout ==> r == Err::<WalkTrace, AcdpError<Seq<char>>>(
                AcdpError::CrossRegistryResolutionFailed(
                    ResolutionFault::RootFanout {
                        ctx_id: root,
                        count: parents.len() as u64,
                        limit: limits.max_fanout as u64,
                    },
                ),
            )
            &&& parents.len() <= limits.max_fanout && r is Err ==> exists|id: Seq<char>| #[trigger]
                is_reason_to_stop(limits, o, id, r->Err_0)
            &&& r is Err ==> ancestors(r) == Err::<
                Seq<VerifiedContextView>,
                AcdpError<Seq<char>>,
            >(r->Err_0)
        }),
{
    lemma_walk_stops_for_a_reason(limits, root, first_ahead(parents), WalkTrace::empty(), o);
}

} // verus!
