//! What is remembered between searches for revocations.
//!
//! Two things are remembered about a producer. *Facts* are verified
//! revocations; they are permanent, and always count. *Markers* say that one
//! registry was searched to the end at some moment; they are an absence of
//! findings, so they only count for a limited time and only for that
//! registry. Both stand in one entry and leave together, so no marker ever
//! outlives the facts that it goes with.

use vstd::prelude::*;
use vstd::string::*;
use crate::key_revocation::{KeyRevocation, KeyRevocationView, RevocationTrustClass};
use crate::text::same_text;
use crate::time::{Moment, Span};

verus! {

/// How many producers are remembered at most.
pub const MAX_CACHE_ENTRIES: usize = 1000;

/// How many facts are remembered about one producer at most.
pub const MAX_FACTS_PER_ENTRY: usize = 256;

#[derive(Debug)]
struct Marker {
    authority: String,
    attested: bool,
    minted_at: Moment,
}

#[derive(Debug)]
struct CacheEntry {
    agent_id: String,
    facts: Vec<KeyRevocation>,
    markers: Vec<Marker>,
    at_cap: bool,
}

/// What is remembered about one producer.
pub struct CacheEntryView {
    pub facts: Seq<KeyRevocationView>,
    /// When a search of an authority for a trust class, `true` for the
    /// registry-attested one, was last completed.
    pub markers: Map<(Seq<char>, bool), Moment>,
    /// No more facts are taken in.
    pub at_cap: bool,
}

impl Marker {
    spec fn pair(self) -> ((Seq<char>, bool), Moment) {
        ((self.authority@, self.attested), self.minted_at)
    }
}

spec fn marker_pairs(markers: Seq<Marker>) -> Seq<((Seq<char>, bool), Moment)> {
    markers.map_values(|m: Marker| m.pair())
}

impl CacheEntry {
    spec fn view(&self) -> CacheEntryView {
        CacheEntryView {
            facts: crate::key_revocation::revocations_view(self.facts@),
            markers: crate::assoc::as_map(marker_pairs(self.markers@)),
            at_cap: self.at_cap,
        }
    }

    spec fn well_formed(self) -> bool {
        &&& crate::assoc::distinct_keys(marker_pairs(self.markers@))
        &&& self@.in_order()
    }

    spec fn pair(self) -> (Seq<char>, CacheEntryView) {
        (self.agent_id@, self@)
    }
}

impl CacheEntryView {
    /// What holds of every entry: no fact twice, no more facts than fit, and
    /// no marker once no more fit.
    pub open spec fn in_order(self) -> bool {
        &&& self.facts.no_duplicates()
        &&& self.facts.len() <= MAX_FACTS_PER_ENTRY
        &&& self.at_cap == (self.facts.len() == MAX_FACTS_PER_ENTRY)
        &&& self.at_cap ==> self.markers == Map::<(Seq<char>, bool), Moment>::empty()
    }

    /// Nothing remembered.
    pub open spec fn blank() -> CacheEntryView {
        CacheEntryView { facts: Seq::empty(), markers: Map::empty(), at_cap: false }
    }

    /// The entry after a completed search of `authority` for a trust class
    /// found `found`: new facts are added as far as they fit, and the search
    /// is marked unless no more fit.
    pub open spec fn after_success(
        self,
        authority: Seq<char>,
        attested: bool,
        found: Seq<KeyRevocationView>,
        now: Moment,
    ) -> CacheEntryView {
        let facts = merged(self.facts, found);
        let at_cap = facts.len() >= MAX_FACTS_PER_ENTRY;
        CacheEntryView {
            facts,
            markers: if at_cap {
                Map::empty()
            } else {
                self.markers.insert((authority, attested), now)
            },
            at_cap,
        }
    }
}

/// `facts` with every element of `found` added that is not among them, as far
/// as they fit.
pub open spec fn merged(facts: Seq<KeyRevocationView>, found: Seq<KeyRevocationView>) -> Seq<
    KeyRevocationView,
>
    decreases found.len(),
{
    if found.len() == 0 {
        facts
    } else {
        let before = merged(facts, found.drop_last());
        if before.len() < MAX_FACTS_PER_ENTRY && !before.contains(found.last()) {
            before.push(found.last())
        } else {
            before
        }
    }
}

/// Whether a trust class is the registry-attested one.
pub open spec fn is_attested(class: RevocationTrustClass) -> bool {
    class == RevocationTrustClass::RegistryAttested
}

/// The key of a trust class in a marker: `true` for the registry-attested
/// one.
pub fn class_key(class: RevocationTrustClass) -> (key: bool)
    ensures
        key == is_attested(class),
{
    match class {
        RevocationTrustClass::RegistryAttested => true,
        RevocationTrustClass::ProducerSigned => false,
    }
}

/// What is remembered about producers between searches.
#[derive(Debug)]
pub struct RevocationCache {
    entries: Vec<CacheEntry>,
}

spec fn entry_pairs(entries: Seq<CacheEntry>) -> Seq<(Seq<char>, CacheEntryView)> {
    entries.map_values(|e: CacheEntry| e.pair())
}

/// Whether a revocation is of a class that a caller has asked for.
pub open spec fn class_wanted(r: KeyRevocationView, include_registry_attested: bool) -> bool {
    include_registry_attested || r.trust_class == RevocationTrustClass::ProducerSigned
}

/// The revocations of the classes that a caller has asked for.
pub open spec fn of_wanted_class(
    facts: Seq<KeyRevocationView>,
    include_registry_attested: bool,
) -> Seq<KeyRevocationView>
    decreases facts.len(),
{
    if facts.len() == 0 {
        facts
    } else {
        let before = of_wanted_class(facts.drop_last(), include_registry_attested);
        if class_wanted(facts.last(), include_registry_attested) {
            before.push(facts.last())
        } else {
            before
        }
    }
}

impl RevocationCache {
    /// What is remembered, by producer.
    pub closed spec fn view(&self) -> Map<Seq<char>, CacheEntryView> {
        crate::assoc::as_map(entry_pairs(self.entries@))
    }

    /// The cache's invariant: at most as many entries as fit, each in order.
    pub closed spec fn well_formed(&self) -> bool {
        &&& self.entries@.len() <= MAX_CACHE_ENTRIES
        &&& crate::assoc::distinct_keys(entry_pairs(self.entries@))
        &&& forall|i: int|
            0 <= i < self.entries@.len() ==> #[trigger] self.entries@[i].well_formed()
    }

    /// A cache that remembers nothing.
    pub fn new() -> (cache: Self)
        ensures
            cache.well_formed(),
            cache@ == Map::<Seq<char>, CacheEntryView>::empty(),
    {
        let cache: RevocationCache = RevocationCache { entries: Vec::new() };
        proof {
            assert(entry_pairs(cache.entries@) =~= Seq::empty());
        }
        cache
    }

    fn find(&self, agent_id: &str) -> (index: Option<usize>)
        requires
            self.well_formed(),
        ensures
            match index {
                Some(i) => {
                    &&& i < self.entries@.len()
                    &&& self.entries@[i as int].agent_id@ == agent_id@
                    &&& self@.contains_key(agent_id@)
                    &&& self@[agent_id@] == self.entries@[i as int]@
                },
                None => !self@.contains_key(agent_id@),
            },
    {
        let ghost pairs = entry_pairs(self.entries@);
        let mut i: usize = 0;
        while i < self.entries.len()
            invariant
                i <= self.entries@.len(),
                self.well_formed(),
                pairs == entry_pairs(self.entries@),
                forall|k: int| 0 <= k < i ==> #[trigger] pairs[k].0 != agent_id@,
            decreases self.entries@.len() - i,
        {
            assert(pairs[i as int] == self.entries@[i as int].pair());
            if same_text(self.entries[i].agent_id.as_str(), agent_id) {
                proof {
                    crate::assoc::lemma_map_value(pairs, i as int);
                }
                return Some(i);
            }
            i = i + 1;
        }
        proof {
            crate::assoc::lemma_map_keys(pairs, agent_id@);
        }
        None
    }

    /// The facts remembered about a producer, of the trust classes that the
    /// caller has asked for.
    pub fn facts_for(&self, agent_id: &str, include_registry_attested: bool) -> (facts: Vec<
        KeyRevocation,
    >)
        requires
            self.well_formed(),
        ensures
            crate::key_revocation::revocations_view(facts@) == if self@.contains_key(agent_id@) {
                of_wanted_class(self@[agent_id@].facts, include_registry_attested)
            } else {
                Seq::empty()
            },
    {
        let mut out: Vec<KeyRevocation> = Vec::new();
        proof {
            assert(crate::key_revocation::revocations_view(out@) =~= Seq::empty());
        }
        match self.find(agent_id) {
            None => out,
            Some(e) => {
                let facts: &Vec<KeyRevocation> = &self.entries[e].facts;
                let ghost all = crate::key_revocation::revocations_view(facts@);
                let mut i: usize = 0;
                proof {
                    assert(all.take(0) =~= Seq::empty());
                }
                while i < facts.len()
                    invariant
                        i <= facts@.len(),
                        all == crate::key_revocation::revocations_view(facts@),
                        crate::key_revocation::revocations_view(out@) == of_wanted_class(
                            all.take(i as int),
                            include_registry_attested,
                        ),
                    decreases facts@.len() - i,
                {
                    proof {
                        assert(all.take(i as int + 1).drop_last() =~= all.take(i as int));
                        assert(all.take(i as int + 1).last() == facts@[i as int]@);
                    }
                    let ghost before = out@;
                    if include_registry_attested || facts[i].trust_class
                        == RevocationTrustClass::ProducerSigned {
                        out.push(facts[i].clone());
                        proof {
                            assert(crate::key_revocation::revocations_view(out@)
                                =~= crate::key_revocation::revocations_view(before).push(
                                facts@[i as int]@,
                            ));
                        }
                    }
                    i = i + 1;
                }
                proof {
                    assert(all.take(i as int) =~= all);
                }
                out
            },
        }
    }

    /// Whether `authority` was searched for a producer's revocations of this
    /// class less than `freshness` ago. No time at all is never enough.
    pub fn marker_fresh(
        &self,
        authority: &str,
        agent_id: &str,
        class: RevocationTrustClass,
        freshness: Span,
        now: Moment,
    ) -> (fresh: bool)
        requires
            self.well_formed(),
        ensures
            fresh == is_fresh(self@, authority@, agent_id@, class, freshness, now),
    {
        if freshness.is_zero() {
            return false;
        }
        match self.find(agent_id) {
            None => false,
            Some(e) => {
                proof {
                    assert(self.entries@[e as int].well_formed());
                }
                match find_marker(&self.entries[e].markers, authority, class_key(class)) {
                    Some(m) => now.within(self.entries[e].markers[m].minted_at, freshness),
                    None => false,
                }
            },
        }
    }

    /// Remembers a completed search of `authority` for a producer's
    /// revocations of this class. Where a new producer does not fit, some
    /// other entry makes room.
    pub fn record_success(
        &mut self,
        authority: &str,
        agent_id: &str,
        class: RevocationTrustClass,
        facts: &Vec<KeyRevocation>,
        now: Moment,
    )
        requires
            old(self).well_formed(),
        ensures
            final(self).well_formed(),
            remembers(
                old(self)@,
                final(self)@,
                agent_id@,
                entry_or_blank(old(self)@, agent_id@).after_success(
                    authority@,
                    is_attested(class),
                    crate::key_revocation::revocations_view(facts@),
                    now,
                ),
            ),
    {
        let ghost before = entry_pairs(self.entries@);
        proof {
            crate::assoc::lemma_map_len(before);
        }
        let mut entry: CacheEntry = match self.find(agent_id) {
            Some(i) => {
                proof {
                    assert(self.entries@[i as int].well_formed());
                    assert(before[i as int] == self.entries@[i as int].pair());
                    crate::assoc::lemma_map_remove(before, i as int);
                }
                let entry: CacheEntry = self.entries.remove(i);
                proof {
                    assert(entry_pairs(self.entries@) =~= before.remove(i as int));
                }
                entry
            },
            None => {
                if self.entries.len() >= MAX_CACHE_ENTRIES {
                    proof {
                        assert(before[0] == self.entries@[0].pair());
                        crate::assoc::lemma_map_value(before, 0);
                        crate::assoc::lemma_map_remove(before, 0);
                    }
                    let _victim: CacheEntry = self.entries.remove(0);
                    proof {
                        assert(entry_pairs(self.entries@) =~= before.remove(0));
                    }
                }
                let fresh: CacheEntry = CacheEntry {
                    agent_id: agent_id.to_owned(),
                    facts: Vec::new(),
                    markers: Vec::new(),
                    at_cap: false,
                };
                proof {
                    assert(marker_pairs(fresh.markers@) =~= Seq::empty());
                    assert(crate::key_revocation::revocations_view(fresh.facts@) =~= Seq::empty());
                }
                fresh
            },
        };
        let ghost base = entry@;
        let ghost rest = entry_pairs(self.entries@);
        let ghost rest_entries = self.entries@;
        assert(base == entry_or_blank(old(self)@, agent_id@));
        assert forall|i: int|
            0 <= i < self.entries@.len() implies #[trigger] self.entries@[i].well_formed() by {
            assert(exists|j: int|
                0 <= j < old(self).entries@.len() && old(self).entries@[j] == self.entries@[i]);
        }
        entry.record(authority, class_key(class), facts, now);
        let ghost done = entry@;
        proof {
            crate::assoc::lemma_push_distinct(rest, agent_id@, done);
        }
        self.entries.push(entry);
        proof {
            assert(entry_pairs(self.entries@) =~= rest.push((agent_id@, done)));
            assert forall|i: int|
                0 <= i < self.entries@.len() implies #[trigger] self.entries@[i].well_formed() by {
                if i < rest_entries.len() {
                    assert(rest_entries[i].well_formed());
                }
            }
            if !old(self)@.contains_key(agent_id@) && old(self)@.dom().len() >= MAX_CACHE_ENTRIES {
                let victim = before[0].0;
                assert(self@ == old(self)@.remove(victim).insert(agent_id@, done));
                assert(old(self)@.contains_key(victim));
            } else {
                assert(self@ =~= old(self)@.insert(agent_id@, done));
            }
        }
    }
}

/// Whether a marker in `entries` says that `authority` was searched less than
/// `freshness` ago.
pub open spec fn is_fresh(
    entries: Map<Seq<char>, CacheEntryView>,
    authority: Seq<char>,
    agent_id: Seq<char>,
    class: RevocationTrustClass,
    freshness: Span,
    now: Moment,
) -> bool {
    &&& entries.contains_key(agent_id)
    &&& entries[agent_id].markers.contains_key((authority, is_attested(class)))
    &&& now.nanos_since(entries[agent_id].markers[(authority, is_attested(class))])
        < freshness.total_nanos()
}

/// What is remembered about a producer, or nothing.
pub open spec fn entry_or_blank(
    entries: Map<Seq<char>, CacheEntryView>,
    agent_id: Seq<char>,
) -> CacheEntryView {
    if entries.contains_key(agent_id) {
        entries[agent_id]
    } else {
        CacheEntryView::blank()
    }
}

/// Whether `after` is `before` with `entry` remembered about `agent_id`. The
/// other entries stay; only where a new producer did not fit, one of them is
/// gone as a whole.
pub open spec fn remembers(
    before: Map<Seq<char>, CacheEntryView>,
    after: Map<Seq<char>, CacheEntryView>,
    agent_id: Seq<char>,
    entry: CacheEntryView,
) -> bool {
    if !before.contains_key(agent_id) && before.dom().len() >= MAX_CACHE_ENTRIES {
        exists|victim: Seq<char>|
            #[trigger] before.contains_key(victim) && after == before.remove(victim).insert(
                agent_id,
                entry,
            )
    } else {
        after == before.insert(agent_id, entry)
    }
}

fn find_marker(markers: &Vec<Marker>, authority: &str, attested: bool) -> (index: Option<usize>)
    requires
        crate::assoc::distinct_keys(marker_pairs(markers@)),
    ensures
        match index {
            Some(i) => {
                &&& i < markers@.len()
                &&& markers@[i as int].pair().0 == (authority@, attested)
                &&& crate::assoc::as_map(marker_pairs(markers@)).contains_key((authority@, attested))
                &&& crate::assoc::as_map(marker_pairs(markers@))[(authority@, attested)]
                    == markers@[i as int].minted_at
            },
            None => !crate::assoc::as_map(marker_pairs(markers@)).contains_key((authority@, attested)),
        },
{
    let ghost pairs = marker_pairs(markers@);
    let mut i: usize = 0;
    while i < markers.len()
        invariant
            i <= markers@.len(),
            pairs == marker_pairs(markers@),
            crate::assoc::distinct_keys(pairs),
            forall|k: int| 0 <= k < i ==> #[trigger] pairs[k].0 != (authority@, attested),
        decreases markers@.len() - i,
    {
        assert(pairs[i as int] == markers@[i as int].pair());
        if markers[i].attested == attested && same_text(markers[i].authority.as_str(), authority) {
            proof {
                crate::assoc::lemma_map_value(pairs, i as int);
            }
            return Some(i);
        }
        i = i + 1;
    }
    proof {
        crate::assoc::lemma_map_keys(pairs, (authority@, attested));
    }
    None
}

impl CacheEntry {
    fn record(&mut self, authority: &str, attested: bool, found: &Vec<KeyRevocation>, now: Moment)
        requires
            old(self).well_formed(),
        ensures
            final(self).well_formed(),
            final(self).agent_id == old(self).agent_id,
            final(self)@ == old(self)@.after_success(
                authority@,
                attested,
                crate::key_revocation::revocations_view(found@),
                now,
            ),
    {
        self.merge(found);
        self.at_cap = self.facts.len() >= MAX_FACTS_PER_ENTRY;
        if self.at_cap {
            self.markers = Vec::new();
            proof {
                assert(marker_pairs(self.markers@) =~= Seq::empty());
            }
            return ;
        }
        let ghost before = marker_pairs(self.markers@);
        if let Some(i) = find_marker(&self.markers, authority, attested) {
            proof {
                crate::assoc::lemma_map_remove(before, i as int);
                assert(before[i as int] == self.markers@[i as int].pair());
            }
            let _old: Marker = self.markers.remove(i);
            proof {
                assert(marker_pairs(self.markers@) =~= before.remove(i as int));
            }
        }
        let ghost rest = marker_pairs(self.markers@);
        proof {
            crate::assoc::lemma_push_distinct(rest, (authority@, attested), now);
        }
        self.markers.push(Marker { authority: authority.to_owned(), attested, minted_at: now });
        proof {
            assert(marker_pairs(self.markers@) =~= rest.push(((authority@, attested), now)));
            assert(crate::assoc::as_map(marker_pairs(self.markers@)) =~= crate::assoc::as_map(before).insert(
                (authority@, attested),
                now,
            ));
        }
    }

    fn merge(&mut self, found: &Vec<KeyRevocation>)
        requires
            old(self).well_formed(),
        ensures
            final(self).agent_id == old(self).agent_id,
            final(self).markers == old(self).markers,
            final(self).at_cap == old(self).at_cap,
            final(self)@.facts.no_duplicates(),
            final(self)@.facts.len() <= MAX_FACTS_PER_ENTRY,
            final(self)@.facts == merged(
                old(self)@.facts,
                crate::key_revocation::revocations_view(found@),
            ),
    {
        let ghost all = crate::key_revocation::revocations_view(found@);
        let ghost start = self@.facts;
        let mut i: usize = 0;
        proof {
            assert(all.take(0) =~= Seq::empty());
        }
        while i < found.len()
            invariant
                i <= found@.len(),
                all == crate::key_revocation::revocations_view(found@),
                start == old(self)@.facts,
                self.agent_id == old(self).agent_id,
                self.markers == old(self).markers,
                self.at_cap == old(self).at_cap,
                self@.facts.no_duplicates(),
                self@.facts.len() <= MAX_FACTS_PER_ENTRY,
                self@.facts == merged(start, all.take(i as int)),
            decreases found@.len() - i,
        {
            proof {
                assert(all.take(i as int + 1).drop_last() =~= all.take(i as int));
                assert(all.take(i as int + 1).last() == found@[i as int]@);
            }
            let ghost before = self.facts@;
            if self.facts.len() < MAX_FACTS_PER_ENTRY && !has_fact(&self.facts, &found[i]) {
                self.facts.push(found[i].clone());
                proof {
                    assert(crate::key_revocation::revocations_view(self.facts@)
                        =~= crate::key_revocation::revocations_view(before).push(
                        found@[i as int]@,
                    ));
                }
            }
            i = i + 1;
        }
        proof {
            assert(all.take(i as int) =~= all);
        }
    }
}

fn has_fact(facts: &Vec<KeyRevocation>, r: &KeyRevocation) -> (yes: bool)
    ensures
        yes == crate::key_revocation::revocations_view(facts@).contains(r@),
{
    let ghost all = crate::key_revocation::revocations_view(facts@);
    let mut i: usize = 0;
    while i < facts.len()
        invariant
            i <= facts@.len(),
            all == crate::key_revocation::revocations_view(facts@),
            forall|k: int| 0 <= k < i ==> #[trigger] all[k] != r@,
        decreases facts@.len() - i,
    {
        assert(all[i as int] == facts@[i as int]@);
        if facts[i].same(r) {
            return true;
        }
        i = i + 1;
    }
    false
}

impl Default for RevocationCache {
    fn default() -> (cache: Self)
        ensures
            cache.well_formed(),
            cache@ == Map::<Seq<char>, CacheEntryView>::empty(),
    {
        Self::new()
    }
}

/// Facts are never forgotten by remembering more, and nothing is remembered
/// that was neither a fact nor found.
pub proof fn law_facts_are_kept(
    entry: CacheEntryView,
    authority: Seq<char>,
    attested: bool,
    found: Seq<KeyRevocationView>,
    now: Moment,
)
    ensures
        entry.facts.is_prefix_of(entry.after_success(authority, attested, found, now).facts),
        forall|r: KeyRevocationView|
            entry.after_success(authority, attested, found, now).facts.contains(r)
                ==> entry.facts.contains(r) || found.contains(r),
{
    lemma_merged(entry.facts, found);
}

proof fn lemma_merged(facts: Seq<KeyRevocationView>, found: Seq<KeyRevocationView>)
    ensures
        facts.is_prefix_of(merged(facts, found)),
        forall|r: KeyRevocationView|
            merged(facts, found).contains(r) ==> facts.contains(r) || found.contains(r),
        facts.len() <= MAX_FACTS_PER_ENTRY ==> merged(facts, found).len() <= MAX_FACTS_PER_ENTRY,
        facts.no_duplicates() ==> merged(facts, found).no_duplicates(),
        merged(facts, found).len() < MAX_FACTS_PER_ENTRY ==> forall|r: KeyRevocationView|
            found.contains(r) ==> merged(facts, found).contains(r),
    decreases found.len(),
{
    if found.len() > 0 {
        let init = found.drop_last();
        let before = merged(facts, init);
        let after = merged(facts, found);
        lemma_merged(facts, init);
        assert(found.last() == found[found.len() - 1]);
        assert(facts.is_prefix_of(after)) by {
            assert(after.take(facts.len() as int) =~= before.take(facts.len() as int));
        }
        assert forall|r: KeyRevocationView| after.contains(r) implies facts.contains(r)
            || found.contains(r) by {
            let i = choose|i: int| 0 <= i < after.len() && after[i] == r;
            if i < before.len() {
                assert(before.contains(before[i]));
                if init.contains(r) {
                    let j = choose|j: int| 0 <= j < init.len() && init[j] == r;
                    assert(found[j] == r);
                }
            } else {
                assert(found.contains(found.last()));
            }
        }
        if after.len() < MAX_FACTS_PER_ENTRY {
            assert forall|r: KeyRevocationView| found.contains(r) implies after.contains(r) by {
                let j = choose|j: int| 0 <= j < found.len() && found[j] == r;
                if j < found.len() - 1 {
                    assert(init.contains(init[j]));
                    assert(before.contains(r));
                    let i = choose|i: int| 0 <= i < before.len() && before[i] == r;
                    assert(after[i] == r);
                } else if before.contains(r) {
                    let i = choose|i: int| 0 <= i < before.len() && before[i] == r;
                    assert(after[i] == r);
                } else {
                    assert(after[before.len() as int] == r);
                }
            }
        }
    }
}

/// A marker never stands over an incomplete set: right after a search has
/// been remembered, either its marker is there and so is everything it found,
/// or no marker is there at all.
pub proof fn law_marker_means_complete(
    entry: CacheEntryView,
    authority: Seq<char>,
    attested: bool,
    found: Seq<KeyRevocationView>,
    now: Moment,
)
    ensures
        ({
            let after = entry.after_success(authority, attested, found, now);
            ||| after.markers == Map::<(Seq<char>, bool), Moment>::empty()
            ||| after.markers.contains_key((authority, attested)) && forall|r: KeyRevocationView|
                found.contains(r) ==> after.facts.contains(r)
        }),
{
    lemma_merged(entry.facts, found);
}

/// Remembering keeps every entry in order.
pub proof fn law_entries_stay_in_order(
    entry: CacheEntryView,
    authority: Seq<char>,
    attested: bool,
    found: Seq<KeyRevocationView>,
    now: Moment,
)
    requires
        entry.in_order(),
    ensures
        entry.after_success(authority, attested, found, now).in_order(),
{
    lemma_merged(entry.facts, found);
}

/// Remembering the same search again adds no fact.
pub proof fn law_remembering_twice_adds_nothing(
    entry: CacheEntryView,
    authority: Seq<char>,
    attested: bool,
    found: Seq<KeyRevocationView>,
    first: Moment,
    second: Moment,
)
    ensures
        ({
            let once = entry.after_success(authority, attested, found, first);
            once.after_success(authority, attested, found, second).facts == once.facts
        }),
{
    lemma_merged(entry.facts, found);
    let once = merged(entry.facts, found);
    if once.len() < MAX_FACTS_PER_ENTRY {
        lemma_merge_of_known(once, found);
    } else {
        lemma_merge_when_full(once, found);
    }
}

proof fn lemma_merge_of_known(facts: Seq<KeyRevocationView>, found: Seq<KeyRevocationView>)
    requires
        forall|r: KeyRevocationView| found.contains(r) ==> facts.contains(r),
    ensures
        merged(facts, found) == facts,
    decreases found.len(),
{
    if found.len() > 0 {
        assert forall|r: KeyRevocationView| found.drop_last().contains(r) implies facts.contains(
            r,
        ) by {
            let j = choose|j: int| 0 <= j < found.drop_last().len() && found.drop_last()[j] == r;
            assert(found[j] == r);
        }
        lemma_merge_of_known(facts, found.drop_last());
        assert(found[found.len() - 1] == found.last());
        assert(found.contains(found.last()));
    }
}

proof fn lemma_merge_when_full(facts: Seq<KeyRevocationView>, found: Seq<KeyRevocationView>)
    requires
        facts.len() >= MAX_FACTS_PER_ENTRY,
    ensures
        merged(facts, found) == facts,
    decreases found.len(),
{
    if found.len() > 0 {
        lemma_merge_when_full(facts, found.drop_last());
    }
}

/// Without any freshness no marker ever makes a search unnecessary.
pub proof fn law_zero_freshness_never_suppresses(
    entries: Map<Seq<char>, CacheEntryView>,
    authority: Seq<char>,
    agent_id: Seq<char>,
    class: RevocationTrustClass,
    freshness: Span,
    now: Moment,
)
    requires
        freshness.total_nanos() == 0,
    ensures
        !is_fresh(entries, authority, agent_id, class, freshness, now),
{
}

/// A search of one registry, for one trust class, about one producer, makes
/// no other search unnecessary: whatever was not fresh before and differs in
/// one of these is not fresh after it.
pub proof fn law_markers_do_not_spill(
    before: Map<Seq<char>, CacheEntryView>,
    after: Map<Seq<char>, CacheEntryView>,
    authority: Seq<char>,
    agent_id: Seq<char>,
    class: RevocationTrustClass,
    found: Seq<KeyRevocationView>,
    minted: Moment,
    other_authority: Seq<char>,
    other_agent: Seq<char>,
    other_class: RevocationTrustClass,
    freshness: Span,
    now: Moment,
)
    requires
        remembers(
            before,
            after,
            agent_id,
            entry_or_blank(before, agent_id).after_success(
                authority,
                is_attested(class),
                found,
                minted,
            ),
        ),
        other_authority != authority || other_agent != agent_id || other_class != class,
        !is_fresh(before, other_authority, other_agent, other_class, freshness, now),
    ensures
        !is_fresh(after, other_authority, other_agent, other_class, freshness, now),
{
}

/// A completed search that was remembered.
pub struct RememberedSearch {
    pub authority: Seq<char>,
    pub agent_id: Seq<char>,
    pub class: RevocationTrustClass,
    pub found: Seq<KeyRevocationView>,
    pub now: Moment,
}

impl RememberedSearch {
    /// Whether remembering the search can lead from one state of a cache to
    /// another.
    pub open spec fn leads(
        self,
        before: Map<Seq<char>, CacheEntryView>,
        after: Map<Seq<char>, CacheEntryView>,
    ) -> bool {
        remembers(
            before,
            after,
            self.agent_id,
            entry_or_blank(before, self.agent_id).after_success(
                self.authority,
                is_attested(self.class),
                self.found,
                self.now,
            ),
        )
    }
}

/// Whether these are the states of a cache from its beginning on, with these
/// searches remembered between them.
pub open spec fn is_history(
    states: Seq<Map<Seq<char>, CacheEntryView>>,
    searches: Seq<RememberedSearch>,
) -> bool {
    &&& states.len() == searches.len() + 1
    &&& states[0] == Map::<Seq<char>, CacheEntryView>::empty()
    &&& forall|k: int|
        0 <= k < searches.len() ==> (#[trigger] searches[k]).leads(states[k], states[k + 1])
}

/// Whether everything that was found about a producer since the search at
/// place `k` is still remembered: the producer's entry never left, and no
/// fact was refused for want of room.
pub open spec fn nothing_lost_since(
    states: Seq<Map<Seq<char>, CacheEntryView>>,
    searches: Seq<RememberedSearch>,
    agent_id: Seq<char>,
    k: int,
) -> bool {
    &&& forall|j: int|
        k < j < states.len() ==> (#[trigger] states[j]).contains_key(agent_id)
            && !states[j][agent_id].at_cap
    &&& forall|j: int, r: KeyRevocationView|
        k <= j < searches.len() && (#[trigger] searches[j]).agent_id == agent_id
            && searches[j].found.contains(r) ==> #[trigger] states[j + 1][agent_id].facts.contains(r)
}

/// A marker counts only for a search that was made: where a search is
/// unnecessary, this very registry was searched, about this producer and for
/// this trust class, less than `freshness` ago, and nothing about the
/// producer has been lost since.
pub proof fn law_fresh_marker_has_its_search(
    states: Seq<Map<Seq<char>, CacheEntryView>>,
    searches: Seq<RememberedSearch>,
    authority: Seq<char>,
    agent_id: Seq<char>,
    class: RevocationTrustClass,
    freshness: Span,
    now: Moment,
)
    requires
        is_history(states, searches),
        is_fresh(states.last(), authority, agent_id, class, freshness, now),
    ensures
        freshness.total_nanos() > 0,
        exists|k: int|
            {
                &&& 0 <= k < searches.len()
                &&& (#[trigger] searches[k]).authority == authority
                &&& searches[k].agent_id == agent_id
                &&& searches[k].class == class
                &&& now.nanos_since(searches[k].now) < freshness.total_nanos()
                &&& nothing_lost_since(states, searches, agent_id, k)
            },
    decreases searches.len(),
{
    if searches.len() > 0 {
        let n = searches.len() - 1;
        let earlier = searches.drop_last();
        let before = states.drop_last();
        let last = searches[n];
        let entry = entry_or_blank(before.last(), last.agent_id);
        let after = entry.after_success(
            last.authority,
            is_attested(last.class),
            last.found,
            last.now,
        );
        lemma_merged(entry.facts, last.found);
        assert(last.leads(states[n], states[n + 1]));
        assert(states[n + 1] == states.last());
        if last.agent_id == agent_id {
            assert(states.last()[agent_id] == after);
            assert(!after.at_cap);
        } else {
            assert(states.last()[agent_id] == states[n][agent_id]);
        }
        if last.agent_id == agent_id && last.authority == authority && last.class == class {
            assert(searches[n].authority == authority);
            assert(nothing_lost_since(states, searches, agent_id, n));
        } else {
            assert(is_history(before, earlier)) by {
                assert forall|k: int| 0 <= k < earlier.len() implies (#[trigger] earlier[k]).leads(
                    before[k],
                    before[k + 1],
                ) by {
                    assert(searches[k].leads(states[k], states[k + 1]));
                }
            }
            assert(is_fresh(before.last(), authority, agent_id, class, freshness, now));
            law_fresh_marker_has_its_search(
                before,
                earlier,
                authority,
                agent_id,
                class,
                freshness,
                now,
            );
            let k = choose|k: int|
                {
                    &&& 0 <= k < earlier.len()
                    &&& (#[trigger] earlier[k]).authority == authority
                    &&& earlier[k].agent_id == agent_id
                    &&& earlier[k].class == class
                    &&& now.nanos_since(earlier[k].now) < freshness.total_nanos()
                    &&& nothing_lost_since(before, earlier, agent_id, k)
                };
            assert(searches[k] == earlier[k]);
            assert(before[n] == states[n]);
            assert(before[n].contains_key(agent_id) && !before[n][agent_id].at_cap);
            assert forall|j: int| k < j < states.len() implies (
            #[trigger] states[j]).contains_key(agent_id) && !states[j][agent_id].at_cap by {
                if j <= n {
                    assert(states[j] == before[j]);
                }
            }
            assert forall|j: int, r: KeyRevocationView|
                k <= j < searches.len() && (#[trigger] searches[j]).agent_id == agent_id
                    && searches[j].found.contains(r) implies #[trigger] states[j
                + 1][agent_id].facts.contains(r) by {
                if j < n {
                    assert(searches[j] == earlier[j]);
                    assert(states[j + 1] == before[j + 1]);
                    assert(before[j + 1][agent_id].facts.contains(r));
                }
            }
            assert(nothing_lost_since(states, searches, agent_id, k));
        }
    }
}

/// Whether a producer's entry stays in a cache after the search at place `k`.
pub open spec fn entry_stays(
    states: Seq<Map<Seq<char>, CacheEntryView>>,
    agent_id: Seq<char>,
    k: int,
) -> bool {
    forall|j: int| k < j < states.len() ==> (#[trigger] states[j]).contains_key(agent_id)
}

proof fn lemma_entries_have_their_cap(
    states: Seq<Map<Seq<char>, CacheEntryView>>,
    searches: Seq<RememberedSearch>,
    agent_id: Seq<char>,
    j: int,
)
    requires
        is_history(states, searches),
        0 <= j < states.len(),
        states[j].contains_key(agent_id),
    ensures
        states[j][agent_id].at_cap == (states[j][agent_id].facts.len() >= MAX_FACTS_PER_ENTRY),
    decreases j,
{
    if j > 0 {
        let last = searches[j - 1];
        assert(last.leads(states[j - 1], states[j - 1 + 1]));
        if last.agent_id != agent_id {
            assert(states[j - 1].contains_key(agent_id));
            lemma_entries_have_their_cap(states, searches, agent_id, j - 1);
        }
    }
}

proof fn lemma_facts_only_grow(
    states: Seq<Map<Seq<char>, CacheEntryView>>,
    searches: Seq<RememberedSearch>,
    agent_id: Seq<char>,
    k: int,
    j: int,
)
    requires
        is_history(states, searches),
        entry_stays(states, agent_id, k),
        k < j < states.len(),
        0 <= k,
    ensures
        states[j][agent_id].facts.len() <= states.last()[agent_id].facts.len(),
    decreases states.len() - j,
{
    if j < searches.len() {
        let next = searches[j];
        assert(next.leads(states[j], states[j + 1]));
        assert(states[j].contains_key(agent_id));
        assert(states[j + 1].contains_key(agent_id));
        lemma_merged(states[j][agent_id].facts, next.found);
        lemma_facts_only_grow(states, searches, agent_id, k, j + 1);
    }
}

proof fn lemma_marker_is_kept_up(
    states: Seq<Map<Seq<char>, CacheEntryView>>,
    searches: Seq<RememberedSearch>,
    k: int,
    j: int,
)
    requires
        is_history(states, searches),
        0 <= k < searches.len(),
        k < j < states.len(),
        entry_stays(states, searches[k].agent_id, k),
        forall|i: int|
            k < i < states.len() ==> !(#[trigger] states[i])[searches[k].agent_id].at_cap,
        forall|i: int|
            k <= i < searches.len() ==> searches[k].now.nanos <= (#[trigger] searches[i]).now.nanos,
    ensures
        ({
            let key = (searches[k].authority, is_attested(searches[k].class));
            let markers = states[j][searches[k].agent_id].markers;
            markers.contains_key(key) && searches[k].now.nanos <= markers[key].nanos
        }),
    decreases j,
{
    let agent_id = searches[k].agent_id;
    let last = searches[j - 1];
    assert(last.leads(states[j - 1], states[j - 1 + 1]));
    assert(states[j].contains_key(agent_id));
    assert(!states[j][agent_id].at_cap);
    if j - 1 > k {
        assert(states[j - 1].contains_key(agent_id));
        lemma_marker_is_kept_up(states, searches, k, j - 1);
    }
}

/// What was searched stays searched: once a search has been remembered, it
/// makes the same search unnecessary for as long as it is fresh, whatever
/// other searches are remembered after it, while the producer's entry stays
/// and has room. Time must not go back.
pub proof fn law_marker_outlives_other_searches(
    states: Seq<Map<Seq<char>, CacheEntryView>>,
    searches: Seq<RememberedSearch>,
    k: int,
    freshness: Span,
    now: Moment,
)
    requires
        is_history(states, searches),
        0 <= k < searches.len(),
        entry_stays(states, searches[k].agent_id, k),
        !states.last()[searches[k].agent_id].at_cap,
        forall|i: int|
            k <= i < searches.len() ==> searches[k].now.nanos <= (#[trigger] searches[i]).now.nanos,
        now.nanos_since(searches[k].now) < freshness.total_nanos(),
    ensures
        is_fresh(
            states.last(),
            searches[k].authority,
            searches[k].agent_id,
            searches[k].class,
            freshness,
            now,
        ),
{
    let agent_id = searches[k].agent_id;
    let n = states.len() - 1;
    assert(states[n].contains_key(agent_id));
    lemma_entries_have_their_cap(states, searches, agent_id, n);
    assert forall|i: int| k < i < states.len() implies !(#[trigger] states[i])[agent_id].at_cap by {
        assert(states[i].contains_key(agent_id));
        lemma_facts_only_grow(states, searches, agent_id, k, i);
        lemma_entries_have_their_cap(states, searches, agent_id, i);
    }
    lemma_marker_is_kept_up(states, searches, k, n);
}

proof fn lemma_no_more_entries_than_searches(
    states: Seq<Map<Seq<char>, CacheEntryView>>,
    searches: Seq<RememberedSearch>,
    j: int,
)
    requires
        is_history(states, searches),
        searches.len() <= MAX_CACHE_ENTRIES,
        0 <= j < states.len(),
    ensures
        states[j].dom().finite(),
        states[j].dom().len() <= j,
    decreases j,
{
    if j > 0 {
        lemma_no_more_entries_than_searches(states, searches, j - 1);
        let last = searches[j - 1];
        assert(last.leads(states[j - 1], states[j - 1 + 1]));
        assert(states[j].dom() =~= states[j - 1].dom().insert(last.agent_id));
    }
}

/// A cache that has remembered no more searches than it has room for has lost
/// no entry.
pub proof fn law_few_searches_evict_nothing(
    states: Seq<Map<Seq<char>, CacheEntryView>>,
    searches: Seq<RememberedSearch>,
    k: int,
)
    requires
        is_history(states, searches),
        searches.len() <= MAX_CACHE_ENTRIES,
        0 <= k < searches.len(),
    ensures
        entry_stays(states, searches[k].agent_id, k),
{
    assert forall|j: int| k < j < states.len() implies (#[trigger] states[j]).contains_key(
        searches[k].agent_id,
    ) by {
        lemma_entry_is_there(states, searches, k, j);
    }
}

proof fn lemma_entry_is_there(
    states: Seq<Map<Seq<char>, CacheEntryView>>,
    searches: Seq<RememberedSearch>,
    k: int,
    j: int,
)
    requires
        is_history(states, searches),
        searches.len() <= MAX_CACHE_ENTRIES,
        0 <= k < searches.len(),
        k < j < states.len(),
    ensures
        states[j].contains_key(searches[k].agent_id),
    decreases j,
{
    lemma_no_more_entries_than_searches(states, searches, j - 1);
    assert(searches[j - 1].leads(states[j - 1], states[j - 1 + 1]));
    if j - 1 > k {
        lemma_entry_is_there(states, searches, k, j - 1);
    }
}

/// Making room never parts facts from markers: an entry of another producer
/// is afterwards either as it was or gone altogether.
pub proof fn law_entries_leave_as_a_whole(
    before: Map<Seq<char>, CacheEntryView>,
    after: Map<Seq<char>, CacheEntryView>,
    agent_id: Seq<char>,
    entry: CacheEntryView,
    other: Seq<char>,
)
    requires
        remembers(before, after, agent_id, entry),
        other != agent_id,
        before.contains_key(other),
    ensures
        !after.contains_key(other) || after[other] == before[other],
        before.dom().len() < MAX_CACHE_ENTRIES || before.contains_key(agent_id)
            ==> after.contains_key(other),
{
}

/// Whatever is remembered, the cache stays bounded: it has at most
/// [`MAX_CACHE_ENTRIES`] entries, and each is in order, so that it has at most
/// [`MAX_FACTS_PER_ENTRY`] facts.
pub proof fn law_cache_is_bounded(cache: RevocationCache)
    requires
        cache.well_formed(),
    ensures
        cache@.dom().finite(),
        cache@.dom().len() <= MAX_CACHE_ENTRIES,
        forall|agent_id: Seq<char>| #[trigger]
            cache@.contains_key(agent_id) ==> cache@[agent_id].in_order(),
{
    let pairs = entry_pairs(cache.entries@);
    crate::assoc::lemma_map_len(pairs);
    assert forall|agent_id: Seq<char>| #[trigger] cache@.contains_key(
        agent_id,
    ) implies cache@[agent_id].in_order() by {
        crate::assoc::lemma_map_keys(pairs, agent_id);
        let i = choose|i: int| 0 <= i < pairs.len() && #[trigger] pairs[i].0 == agent_id;
        crate::assoc::lemma_map_value(pairs, i);
        assert(cache.entries@[i].well_formed());
    }
}

/// What is remembered of a search: every revocation that was known or found
/// and nothing else, as long as there are fewer than 256; and then that the
/// registry was searched for the class at that time, beside what was
/// remembered of other searches, whatever was found. With as many as that, no
/// search counts as complete.
pub proof fn law_what_a_search_leaves(
    entry: CacheEntryView,
    authority: Seq<char>,
    attested: bool,
    found: Seq<KeyRevocationView>,
    now: Moment,
    r: KeyRevocationView,
    other: (Seq<char>, bool),
)
    requires
        entry.facts.len() <= 256,
    ensures
        ({
            let after = entry.after_success(authority, attested, found, now);
            &&& after.facts.contains(r) ==> entry.facts.contains(r) || found.contains(r)
            &&& entry.facts.contains(r) ==> after.facts.contains(r)
            &&& after.facts.len() < 256 && found.contains(r) ==> after.facts.contains(r)
            &&& after.facts.len() <= 256
            &&& after.at_cap <==> after.facts.len() == 256
            &&& after.facts.len() < 256 ==> after.markers.contains_key((authority, attested))
                && after.markers[(authority, attested)] == now
            &&& after.facts.len() < 256 && other != (authority, attested) ==> (
            after.markers.contains_key(other) <==> entry.markers.contains_key(other)) && (
            entry.markers.contains_key(other) ==> after.markers[other] == entry.markers[other])
            &&& after.facts.len() == 256 ==> !after.markers.contains_key(other)
        }),
{
    lemma_merged(entry.facts, found);
    let facts = merged(entry.facts, found);
    if entry.facts.contains(r) {
        let k = choose|k: int| 0 <= k < entry.facts.len() && entry.facts[k] == r;
        assert(facts[k] == r);
    }
}

/// Of what is remembered, a reader gets what the producer has signed and,
/// where it is wanted, what a registry attests: all of it, and nothing else.
pub proof fn law_wanted_facts_are_all_given(
    facts: Seq<KeyRevocationView>,
    include_registry_attested: bool,
    r: KeyRevocationView,
)
    ensures
        of_wanted_class(facts, include_registry_attested).contains(r) <==> facts.contains(r) && (
        include_registry_attested || r.trust_class == RevocationTrustClass::ProducerSigned),
        include_registry_attested ==> of_wanted_class(facts, include_registry_attested) == facts,
    decreases facts.len(),
{
    if facts.len() > 0 {
        let init = facts.drop_last();
        law_wanted_facts_are_all_given(init, include_registry_attested, r);
        let before = of_wanted_class(init, include_registry_attested);
        let after = of_wanted_class(facts, include_registry_attested);
        assert(init.push(facts.last()) =~= facts);
        assert(facts.contains(r) <==> init.contains(r) || facts.last() == r) by {
            if facts.contains(r) {
                let k = choose|k: int| 0 <= k < facts.len() && facts[k] == r;
                if k < init.len() {
                    assert(init[k] == r);
                }
            }
            if init.contains(r) {
                let k = choose|k: int| 0 <= k < init.len() && init[k] == r;
                assert(facts[k] == r);
            }
            assert(facts[facts.len() - 1] == facts.last());
        }
        if class_wanted(facts.last(), include_registry_attested) {
            assert(after == before.push(facts.last()));
            assert(after.contains(r) <==> before.contains(r) || facts.last() == r) by {
                if after.contains(r) {
                    let k = choose|k: int| 0 <= k < after.len() && after[k] == r;
                    if k < before.len() {
                        assert(before[k] == r);
                    }
                }
                if before.contains(r) {
                    let k = choose|k: int| 0 <= k < before.len() && before[k] == r;
                    assert(after[k] == r);
                }
                assert(after[before.len() as int] == facts.last());
            }
        }
    }
}

/// A search is unnecessary exactly if the same registry was searched for the
/// producer's revocations of the same class, and less time has passed since
/// than the reader tolerates.
pub proof fn law_when_a_search_is_unnecessary(
    entries: Map<Seq<char>, CacheEntryView>,
    authority: Seq<char>,
    agent_id: Seq<char>,
    class: RevocationTrustClass,
    freshness: Span,
    now: Moment,
)
    ensures
        ({
            let key = (authority, class == RevocationTrustClass::RegistryAttested);
            let minted = entries[agent_id].markers[key];
            is_fresh(entries, authority, agent_id, class, freshness, now) <==> {
                &&& entries.contains_key(agent_id)
                &&& entries[agent_id].markers.contains_key(key)
                &&& freshness.secs * 1_000_000_000 + freshness.nanos > 0
                &&& now.nanos - minted.nanos < freshness.secs * 1_000_000_000 + freshness.nanos
            }
        }),
{
}

/// What is remembered of one producer leaves what is remembered of others
/// alone, as long as the cache has fewer than a thousand entries or the
/// producer already has one; else exactly one other entry makes room. A
/// producer that nothing is remembered of starts with nothing.
pub proof fn law_what_remembering_changes(
    before: Map<Seq<char>, CacheEntryView>,
    after: Map<Seq<char>, CacheEntryView>,
    agent_id: Seq<char>,
    entry: CacheEntryView,
)
    ensures
        before.contains_key(agent_id) || before.dom().len() < 1000 ==> (remembers(
            before,
            after,
            agent_id,
            entry,
        ) <==> after == before.insert(agent_id, entry)),
        !before.contains_key(agent_id) && before.dom().len() >= 1000 ==> (remembers(
            before,
            after,
            agent_id,
            entry,
        ) <==> exists|victim: Seq<char>| #[trigger]
            before.contains_key(victim) && after == before.remove(victim).insert(agent_id, entry)),
        before.contains_key(agent_id) ==> entry_or_blank(before, agent_id) == before[agent_id],
        !before.contains_key(agent_id) ==> {
            let blank = entry_or_blank(before, agent_id);
            &&& blank.facts.len() == 0
            &&& blank.markers == Map::<(Seq<char>, bool), Moment>::empty()
            &&& !blank.at_cap
        },
{
}

} // verus!
