//! Resolving a context of another registry.

use vstd::prelude::*;
use vstd::string::*;
use crate::error::{AcdpError, ResolutionFault};
use crate::policy::{ReceiptPolicy, RevocationPolicy, VerificationPolicy};
use crate::registry::RegistryClient;
use crate::revocation_cache::{CacheEntryView, RememberedSearch};
use crate::text::same_text;
use crate::time::{Moment, Span};
use crate::types::{authority_to_did_web, list_has, CapabilitiesDocument, CtxId};
use crate::verified::{RetrievalAnswers, RetrievalInputs};

verus! {

/// The limits of resolving and of walking.
#[derive(Clone, Copy, Debug, PartialEq, Eq, Structural)]
pub struct ResolverOptions {
    /// How many steps away an ancestor may be.
    pub max_depth: usize,
    /// How many ancestors may be resolved.
    pub max_nodes: usize,
    /// How many parents a context may have.
    pub max_fanout: usize,
    /// How long a walk may take.
    pub total_timeout: Span,
    /// For how long a registry's capabilities are kept at most.
    pub capabilities_ttl: Span,
}

impl Default for ResolverOptions {
    fn default() -> (o: Self)
        ensures
            o == (ResolverOptions {
                max_depth: 10,
                max_nodes: 100,
                max_fanout: 32,
                total_timeout: (Span { secs: 30, nanos: 0 }),
                capabilities_ttl: (Span { secs: 300, nanos: 0 }),
            }),
    {
        ResolverOptions {
            max_depth: 10,
            max_nodes: 100,
            max_fanout: 32,
            total_timeout: Span::from_secs(30),
            capabilities_ttl: Span::from_secs(300),
        }
    }
}

impl<K, C> Default for CrossRegistryResolver<K, C> {
    fn default() -> (r: Self)
        ensures
            r.well_formed(),
            r.limits() == (ResolverOptions {
                max_depth: 10,
                max_nodes: 100,
                max_fanout: 32,
                total_timeout: (Span { secs: 30, nanos: 0 }),
                capabilities_ttl: (Span { secs: 300, nanos: 0 }),
            }),
            r.allowed() is None,
            r.kept_clients() == Map::<Seq<char>, K>::empty(),
            r.kept_capabilities() == Map::<Seq<char>, CapsEntryView>::empty(),
            r.revocations().known@.len() == 0,
            r.revocations().discover is None,
            r.shared_cache() is None,
    {
        CrossRegistryResolver::new()
    }
}

#[derive(Debug)]
struct CapsEntry {
    authority: String,
    caps: CapabilitiesDocument,
    fetched_at: Moment,
    ttl: Span,
}

/// A registry's capabilities, when they were fetched and for how long they
/// are kept.
pub struct CapsEntryView {
    pub caps: CapabilitiesDocument,
    pub fetched_at: Moment,
    pub ttl: Span,
}

impl CapsEntryView {
    /// Whether the capabilities still count.
    pub open spec fn is_current(self, now: Moment) -> bool {
        now.nanos_since(self.fetched_at) < self.ttl.total_nanos()
    }
}

impl CapsEntry {
    spec fn pair(self) -> (Seq<char>, CapsEntryView) {
        (
            self.authority@,
            CapsEntryView { caps: self.caps, fetched_at: self.fetched_at, ttl: self.ttl },
        )
    }
}

spec fn client_pairs<K>(clients: Seq<(String, K)>) -> Seq<(Seq<char>, K)> {
    clients.map_values(|c: (String, K)| (c.0@, c.1))
}

spec fn caps_pairs(entries: Seq<CapsEntry>) -> Seq<(Seq<char>, CapsEntryView)> {
    entries.map_values(|e: CapsEntry| e.pair())
}

/// Resolves contexts of other registries. `K` is a client of a registry and
/// `C` a handle to a cache of revocations; the resolver only carries them.
pub struct CrossRegistryResolver<K, C> {
    options: ResolverOptions,
    allowlist: Option<Vec<String>>,
    clients: Vec<(String, K)>,
    caps_cache: Vec<CapsEntry>,
    revocation_policy: RevocationPolicy,
    revocation_cache: Option<C>,
}

/// The time that capabilities are kept: as long as the response says, but at
/// least a second and never longer than the resolver keeps any.
pub open spec fn caps_ttl(response_ttl: Span, ceiling: Span) -> Span {
    response_ttl.longer(Span { secs: 1, nanos: 0 }).shorter(ceiling)
}

/// Why an authority may not be resolved, if it may not.
pub open spec fn allowlist_fault(
    allowlist: Option<Seq<Seq<char>>>,
    authority: Seq<char>,
) -> Option<AcdpError<Seq<char>>> {
    match allowlist {
        Some(list) if !list.contains(authority) => Some(
            AcdpError::CrossRegistryResolutionFailed(ResolutionFault::NotAllowed(authority)),
        ),
        _ => None,
    }
}

impl<K, C> CrossRegistryResolver<K, C> {
    /// The limits.
    pub closed spec fn limits(&self) -> ResolverOptions {
        self.options
    }

    /// The authorities that may be resolved, if they are restricted.
    pub closed spec fn allowed(&self) -> Option<Seq<Seq<char>>> {
        match self.allowlist {
            Some(list) => Some(crate::types::list_view(list@)),
            None => None,
        }
    }

    /// The clients that are kept, by authority.
    pub closed spec fn kept_clients(&self) -> Map<Seq<char>, K> {
        crate::assoc::as_map(client_pairs(self.clients@))
    }

    /// The capabilities that are kept, by authority.
    pub closed spec fn kept_capabilities(&self) -> Map<Seq<char>, CapsEntryView> {
        crate::assoc::as_map(caps_pairs(self.caps_cache@))
    }

    /// The revocations that are enforced on every context.
    pub closed spec fn revocations(&self) -> RevocationPolicy {
        self.revocation_policy
    }

    /// The cache that is shared between walks.
    pub closed spec fn shared_cache(&self) -> Option<C> {
        self.revocation_cache
    }

    /// No authority's client or capabilities are kept twice.
    pub closed spec fn well_formed(&self) -> bool {
        &&& crate::assoc::distinct_keys(client_pairs(self.clients@))
        &&& crate::assoc::distinct_keys(caps_pairs(self.caps_cache@))
    }

    /// A resolver of any authority, with the usual limits, that enforces no
    /// revocations.
    pub fn new() -> (r: Self)
        ensures
            r.well_formed(),
            r.limits() == (ResolverOptions {
                max_depth: 10,
                max_nodes: 100,
                max_fanout: 32,
                total_timeout: (Span { secs: 30, nanos: 0 }),
                capabilities_ttl: (Span { secs: 300, nanos: 0 }),
            }),
            r.allowed() is None,
            r.kept_clients() == Map::<Seq<char>, K>::empty(),
            r.kept_capabilities() == Map::<Seq<char>, CapsEntryView>::empty(),
            r.revocations().known@.len() == 0,
            r.revocations().discover is None,
            r.shared_cache() is None,
    {
        let r: Self = CrossRegistryResolver {
            options: ResolverOptions::default(),
            allowlist: None,
            clients: Vec::new(),
            caps_cache: Vec::new(),
            revocation_policy: RevocationPolicy::default(),
            revocation_cache: None,
        };
        proof {
            assert(client_pairs(r.clients@) =~= Seq::empty());
            assert(caps_pairs(r.caps_cache@) =~= Seq::empty());
        }
        r
    }

    /// Limits how many steps away an ancestor may be.
    pub fn with_max_depth(self, depth: usize) -> (r: Self)
        ensures
            r.well_formed() == self.well_formed(),
            r.limits() == (ResolverOptions { max_depth: depth, ..self.limits() }),
            r.allowed() == self.allowed(),
            r.kept_clients() == self.kept_clients(),
            r.kept_capabilities() == self.kept_capabilities(),
            r.revocations() == self.revocations(),
            r.shared_cache() == self.shared_cache(),
    {
        let mut r: Self = self;
        r.options.max_depth = depth;
        r
    }

    /// Replaces all limits.
    pub fn with_options(self, options: ResolverOptions) -> (r: Self)
        ensures
            r.well_formed() == self.well_formed(),
            r.limits() == options,
            r.allowed() == self.allowed(),
            r.kept_clients() == self.kept_clients(),
            r.kept_capabilities() == self.kept_capabilities(),
            r.revocations() == self.revocations(),
            r.shared_cache() == self.shared_cache(),
    {
        let mut r: Self = self;
        r.options = options;
        r
    }

    /// The limits.
    pub fn options(&self) -> (options: &ResolverOptions)
        ensures
            *options == self.limits(),
    {
        &self.options
    }

    /// Enforces revocations on every context that is resolved. Receipts are
    /// not for the caller to decide: each registry's own claims do.
    pub fn with_revocation_policy(self, policy: RevocationPolicy) -> (r: Self)
        ensures
            r.well_formed() == self.well_formed(),
            r.limits() == self.limits(),
            r.allowed() == self.allowed(),
            r.kept_clients() == self.kept_clients(),
            r.kept_capabilities() == self.kept_capabilities(),
            r.revocations() == policy,
            r.shared_cache() == self.shared_cache(),
    {
        let mut r: Self = self;
        r.revocation_policy = policy;
        r
    }

    /// Shares a cache of revocations between walks.
    pub fn with_revocation_cache(self, cache: C) -> (r: Self)
        ensures
            r.well_formed() == self.well_formed(),
            r.limits() == self.limits(),
            r.allowed() == self.allowed(),
            r.kept_clients() == self.kept_clients(),
            r.kept_capabilities() == self.kept_capabilities(),
            r.revocations() == self.revocations(),
            r.shared_cache() == Some(cache),
    {
        let mut r: Self = self;
        r.revocation_cache = Some(cache);
        r
    }

    /// The revocations that are enforced on every context.
    pub fn revocation_policy(&self) -> (policy: &RevocationPolicy)
        ensures
            *policy == self.revocations(),
    {
        &self.revocation_policy
    }

    /// The cache that is shared between walks.
    pub fn revocation_cache(&self) -> (cache: Option<&C>)
        ensures
            match cache {
                Some(c) => self.shared_cache() == Some(*c),
                None => self.shared_cache() is None,
            },
    {
        self.revocation_cache.as_ref()
    }

    /// Restricts resolution to these authorities.
    pub fn with_allowlist(self, authorities: Vec<String>) -> (r: Self)
        ensures
            r.well_formed() == self.well_formed(),
            r.limits() == self.limits(),
            r.allowed() == Some(crate::types::list_view(authorities@)),
            r.kept_clients() == self.kept_clients(),
            r.kept_capabilities() == self.kept_capabilities(),
            r.revocations() == self.revocations(),
            r.shared_cache() == self.shared_cache(),
    {
        let mut r: Self = self;
        r.allowlist = Some(authorities);
        r
    }

    /// Refuses an authority that resolution is not open to.
    pub fn check_allowlist(&self, authority: &str) -> (r: Result<(), AcdpError>)
        ensures
            crate::error::checked(r) == match allowlist_fault(self.allowed(), authority@) {
                Some(e) => Err(e),
                None => Ok(()),
            },
    {
        if let Some(list) = &self.allowlist {
            if !list_has(list, authority) {
                return Err(
                    AcdpError::CrossRegistryResolutionFailed(
                        ResolutionFault::NotAllowed(authority.to_owned()),
                    ),
                );
            }
        }
        Ok(())
    }

    fn find_client(&self, authority: &str) -> (index: Option<usize>)
        requires
            self.well_formed(),
        ensures
            match index {
                Some(i) => {
                    &&& i < self.clients@.len()
                    &&& self.clients@[i as int].0@ == authority@
                    &&& self.kept_clients().contains_key(authority@)
                    &&& self.kept_clients()[authority@] == self.clients@[i as int].1
                },
                None => !self.kept_clients().contains_key(authority@),
            },
    {
        let ghost pairs = client_pairs(self.clients@);
        let mut i: usize = 0;
        while i < self.clients.len()
            invariant
                i <= self.clients@.len(),
                self.well_formed(),
                pairs == client_pairs(self.clients@),
                forall|k: int| 0 <= k < i ==> #[trigger] pairs[k].0 != authority@,
            decreases self.clients@.len() - i,
        {
            assert(pairs[i as int].0 == self.clients@[i as int].0@);
            if same_text(self.clients[i].0.as_str(), authority) {
                proof {
                    crate::assoc::lemma_map_value(pairs, i as int);
                }
                return Some(i);
            }
            i = i + 1;
        }
        proof {
            crate::assoc::lemma_map_keys(pairs, authority@);
        }
        None
    }

    /// The client of a registry that is kept.
    pub fn cached_client(&self, authority: &str) -> (client: Option<&K>)
        requires
            self.well_formed(),
        ensures
            match client {
                Some(c) => self.kept_clients().contains_key(authority@)
                    && self.kept_clients()[authority@] == *c,
                None => !self.kept_clients().contains_key(authority@),
            },
    {
        match self.find_client(authority) {
            Some(i) => Some(&self.clients[i].1),
            None => None,
        }
    }

    /// Keeps a client of a registry, in place of any other.
    pub fn seed_client(&mut self, authority: &str, client: K)
        requires
            old(self).well_formed(),
        ensures
            final(self).well_formed(),
            final(self).limits() == old(self).limits(),
            final(self).allowed() == old(self).allowed(),
            final(self).kept_capabilities() == old(self).kept_capabilities(),
            final(self).revocations() == old(self).revocations(),
            final(self).shared_cache() == old(self).shared_cache(),
            final(self).kept_clients() == old(self).kept_clients().insert(authority@, client),
    {
        let ghost before = client_pairs(self.clients@);
        if let Some(i) = self.find_client(authority) {
            proof {
                assert(before[i as int].0 == self.clients@[i as int].0@);
                crate::assoc::lemma_map_remove(before, i as int);
            }
            let _replaced: (String, K) = self.clients.remove(i);
            proof {
                assert(client_pairs(self.clients@) =~= before.remove(i as int));
            }
        }
        let ghost rest = client_pairs(self.clients@);
        proof {
            crate::assoc::lemma_push_distinct(rest, authority@, client);
        }
        self.clients.push((authority.to_owned(), client));
        proof {
            assert(client_pairs(self.clients@) =~= rest.push((authority@, client)));
            assert(self.kept_clients() =~= old(self).kept_clients().insert(authority@, client));
        }
    }

    /// Keeps a client of a registry that was built where none was kept: one
    /// that has been kept meanwhile stays.
    pub fn keep_client(&mut self, authority: &str, client: K)
        requires
            old(self).well_formed(),
        ensures
            final(self).well_formed(),
            final(self).limits() == old(self).limits(),
            final(self).allowed() == old(self).allowed(),
            final(self).kept_capabilities() == old(self).kept_capabilities(),
            final(self).revocations() == old(self).revocations(),
            final(self).shared_cache() == old(self).shared_cache(),
            final(self).kept_clients() == if old(self).kept_clients().contains_key(authority@) {
                old(self).kept_clients()
            } else {
                old(self).kept_clients().insert(authority@, client)
            },
    {
        if self.find_client(authority).is_none() {
            self.seed_client(authority, client);
        }
    }

    fn find(&self, authority: &str) -> (index: Option<usize>)
        requires
            self.well_formed(),
        ensures
            match index {
                Some(i) => {
                    &&& i < self.caps_cache@.len()
                    &&& self.caps_cache@[i as int].authority@ == authority@
                    &&& self.kept_capabilities().contains_key(authority@)
                    &&& self.kept_capabilities()[authority@] == self.caps_cache@[i as int].pair().1
                },
                None => !self.kept_capabilities().contains_key(authority@),
            },
    {
        let ghost pairs = caps_pairs(self.caps_cache@);
        let mut i: usize = 0;
        while i < self.caps_cache.len()
            invariant
                i <= self.caps_cache@.len(),
                self.well_formed(),
                pairs == caps_pairs(self.caps_cache@),
                forall|k: int| 0 <= k < i ==> #[trigger] pairs[k].0 != authority@,
            decreases self.caps_cache@.len() - i,
        {
            assert(pairs[i as int] == self.caps_cache@[i as int].pair());
            if same_text(self.caps_cache[i].authority.as_str(), authority) {
                proof {
                    crate::assoc::lemma_map_value(pairs, i as int);
                }
                return Some(i);
            }
            i = i + 1;
        }
        proof {
            crate::assoc::lemma_map_keys(pairs, authority@);
        }
        None
    }

    /// The capabilities of a registry that are kept and still count. Nothing
    /// is fetched.
    pub fn cached_capabilities(&self, authority: &str, now: Moment) -> (caps: Option<
        &CapabilitiesDocument,
    >)
        requires
            self.well_formed(),
        ensures
            match caps {
                Some(c) => self.kept_capabilities().contains_key(authority@)
                    && self.kept_capabilities()[authority@].is_current(now) && *c
                    == self.kept_capabilities()[authority@].caps,
                None => self.kept_capabilities().contains_key(authority@)
                    ==> !self.kept_capabilities()[authority@].is_current(now),
            },
    {
        match self.find(authority) {
            None => None,
            Some(i) => {
                if now.within(self.caps_cache[i].fetched_at, self.caps_cache[i].ttl) {
                    Some(&self.caps_cache[i].caps)
                } else {
                    None
                }
            },
        }
    }

    /// Keeps the capabilities of a registry that were fetched now, in place
    /// of any others, for [`caps_ttl`].
    pub fn keep_capabilities(
        &mut self,
        authority: &str,
        caps: CapabilitiesDocument,
        response_ttl: Span,
        now: Moment,
    )
        requires
            old(self).well_formed(),
        ensures
            final(self).well_formed(),
            final(self).limits() == old(self).limits(),
            final(self).allowed() == old(self).allowed(),
            final(self).kept_clients() == old(self).kept_clients(),
            final(self).revocations() == old(self).revocations(),
            final(self).shared_cache() == old(self).shared_cache(),
            final(self).kept_capabilities() == old(self).kept_capabilities().insert(
                authority@,
                CapsEntryView {
                    caps,
                    fetched_at: now,
                    ttl: caps_ttl(response_ttl, old(self).limits().capabilities_ttl),
                },
            ),
    {
        let ttl: Span = response_ttl.max(Span::from_secs(1)).min(self.options.capabilities_ttl);
        let ghost before = caps_pairs(self.caps_cache@);
        if let Some(i) = self.find(authority) {
            proof {
                assert(before[i as int] == self.caps_cache@[i as int].pair());
                crate::assoc::lemma_map_remove(before, i as int);
            }
            let _old: CapsEntry = self.caps_cache.remove(i);
            proof {
                assert(caps_pairs(self.caps_cache@) =~= before.remove(i as int));
            }
        }
        let ghost rest = caps_pairs(self.caps_cache@);
        let ghost entry = CapsEntryView { caps, fetched_at: now, ttl };
        proof {
            crate::assoc::lemma_push_distinct(rest, authority@, entry);
        }
        self.caps_cache.push(
            CapsEntry { authority: authority.to_owned(), caps, fetched_at: now, ttl },
        );
        proof {
            assert(caps_pairs(self.caps_cache@) =~= rest.push((authority@, entry)));
            assert(self.kept_capabilities() =~= old(self).kept_capabilities().insert(
                authority@,
                entry,
            ));
        }
    }
}

/// What counts of a registry's capabilities.
#[derive(Debug, PartialEq, Eq)]
pub struct RegistryClaims {
    pub registry_did: String,
    /// Whether the registry claims to give a receipt for every context.
    pub gives_receipts: bool,
}

impl RegistryClaims {
    /// The claims with their text as a character sequence.
    pub open spec fn view(&self) -> (Seq<char>, bool) {
        (self.registry_did@, self.gives_receipts)
    }

    /// What counts of a registry's capabilities.
    pub fn of(caps: &CapabilitiesDocument) -> (claims: RegistryClaims)
        ensures
            claims.registry_did@ == caps.registry_did@,
            claims.gives_receipts == crate::types::list_view(caps.profiles@).contains(
                "acdp-registry-receipts"@,
            ),
    {
        RegistryClaims {
            registry_did: caps.registry_did.clone(),
            gives_receipts: caps.claims_profile("acdp-registry-receipts"),
        }
    }
}

/// Every answer that the work done for one resolution can give.
pub struct ResolutionAnswers {
    /// Whether the address policy lets an address pass, and if not, why.
    pub address: spec_fn(Seq<char>) -> Result<(), Seq<char>>,
    /// Whether there is a client of the registry at an address.
    pub client: spec_fn(Seq<char>) -> Result<(), AcdpError<Seq<char>>>,
    /// What the registry claims.
    pub claims: Result<(Seq<char>, bool), AcdpError<Seq<char>>>,
    /// Whom the document of an identity is about, or why there is none.
    pub document: spec_fn(Seq<char>) -> Result<Seq<char>, Seq<char>>,
}

/// The address of the registry of an authority.
pub open spec fn base_address(authority: Seq<char>) -> Seq<char> {
    "https://"@ + authority
}

/// The failure to learn a registry's claims: one that means that it was not
/// reached becomes a failure of the resolution.
pub open spec fn claims_failure(authority: Seq<char>, e: AcdpError<Seq<char>>) -> AcdpError<
    Seq<char>,
> {
    match e {
        AcdpError::Http(reason) => AcdpError::CrossRegistryResolutionFailed(
            ResolutionFault::Unreachable { authority, reason },
        ),
        AcdpError::KeyResolutionUnreachable(reason) => AcdpError::CrossRegistryResolutionFailed(
            ResolutionFault::Unreachable { authority, reason },
        ),
        other => other,
    }
}

/// What a resolution comes to, from the address policy on: whether the
/// registry must give a receipt.
pub open spec fn resolved_from_address(authority: Seq<char>, o: ResolutionAnswers) -> Result<
    bool,
    AcdpError<Seq<char>>,
> {
    match (o.address)(base_address(authority)) {
        Err(reason) => Err(
            AcdpError::CrossRegistryResolutionFailed(ResolutionFault::AddressPolicy(reason)),
        ),
        Ok(()) => resolved_from_client(authority, o),
    }
}

/// [`resolved_from_address`] from the client on.
pub open spec fn resolved_from_client(authority: Seq<char>, o: ResolutionAnswers) -> Result<
    bool,
    AcdpError<Seq<char>>,
> {
    match (o.client)(base_address(authority)) {
        Err(e) => Err(e),
        Ok(()) => resolved_from_claims(authority, o),
    }
}

/// [`resolved_from_address`] from the registry's claims on: it must claim the
/// identity of its authority.
pub open spec fn resolved_from_claims(authority: Seq<char>, o: ResolutionAnswers) -> Result<
    bool,
    AcdpError<Seq<char>>,
> {
    match o.claims {
        Err(e) => Err(claims_failure(authority, e)),
        Ok((registry_did, gives_receipts)) => if registry_did != crate::types::did_web_of(
            authority,
        ) {
            Err(
                AcdpError::CrossRegistryResolutionFailed(
                    ResolutionFault::RegistryDidMismatch {
                        registry_did,
                        expected: crate::types::did_web_of(authority),
                    },
                ),
            )
        } else {
            resolved_from_document(registry_did, gives_receipts, o)
        },
    }
}

/// [`resolved_from_address`] from the registry's identity document on: it
/// must be about that identity.
pub open spec fn resolved_from_document(
    registry_did: Seq<char>,
    gives_receipts: bool,
    o: ResolutionAnswers,
) -> Result<bool, AcdpError<Seq<char>>> {
    match (o.document)(registry_did) {
        Err(reason) => Err(
            AcdpError::CrossRegistryResolutionFailed(
                ResolutionFault::DidDocumentUnavailable { did: registry_did, reason },
            ),
        ),
        Ok(id) => if id != registry_did {
            Err(
                AcdpError::CrossRegistryResolutionFailed(
                    ResolutionFault::DidDocumentMismatch { id, expected: registry_did },
                ),
            )
        } else {
            Ok(gives_receipts)
        },
    }
}

/// What a resolution comes to. It must not even be begun for an identifier
/// that is not well formed or an authority that is not open to it.
pub open spec fn resolution_outcome(
    allowed: Option<Seq<Seq<char>>>,
    ctx_id: Seq<char>,
    parse_check: Result<(), AcdpError<Seq<char>>>,
    o: ResolutionAnswers,
) -> Result<bool, AcdpError<Seq<char>>> {
    let authority = crate::types::authority_of(ctx_id);
    if parse_check is Err {
        Err(parse_check->Err_0)
    } else {
        match allowlist_fault(allowed, authority) {
            Some(e) => Err(e),
            None => resolved_from_address(authority, o),
        }
    }
}

/// What is to be done for a resolution to go on.
#[derive(Debug, PartialEq, Eq)]
pub enum ResolutionAction<S = String> {
    /// Ask the address policy about this base address.
    CheckAddress { base_url: S },
    /// Have a client of the registry at this base address.
    ObtainClient { base_url: S },
    /// Learn what the registry claims.
    LearnClaims,
    /// Resolve the identity document of this identity.
    ResolveDocument { did: S },
}

impl ResolutionAction<String> {
    /// The action with its texts as character sequences.
    pub open spec fn view(&self) -> ResolutionAction<Seq<char>> {
        match self {
            ResolutionAction::CheckAddress { base_url } => ResolutionAction::CheckAddress {
                base_url: base_url@,
            },
            ResolutionAction::ObtainClient { base_url } => ResolutionAction::ObtainClient {
                base_url: base_url@,
            },
            ResolutionAction::LearnClaims => ResolutionAction::LearnClaims,
            ResolutionAction::ResolveDocument { did } => ResolutionAction::ResolveDocument {
                did: did@,
            },
        }
    }
}

/// What came of an action.
#[derive(Debug, PartialEq, Eq)]
pub enum ResolutionEvent {
    Address(Result<(), String>),
    Client(Result<(), AcdpError>),
    Claims(Result<RegistryClaims, AcdpError>),
    Document(Result<String, String>),
}

/// Whether an event is of the kind that an action gives.
pub open spec fn resolution_event_fits(
    ask: ResolutionAction<Seq<char>>,
    event: ResolutionEvent,
) -> bool {
    match ask {
        ResolutionAction::CheckAddress { .. } => event is Address,
        ResolutionAction::ObtainClient { .. } => event is Client,
        ResolutionAction::LearnClaims => event is Claims,
        ResolutionAction::ResolveDocument { .. } => event is Document,
    }
}

/// Whether an event ends the resolution of an authority: something was refused
/// or could not be had, the registry claims another identity, or the document
/// of its identity has been seen.
pub open spec fn ends_resolution(authority: Seq<char>, event: ResolutionEvent) -> bool {
    match event {
        ResolutionEvent::Address(r) => r is Err,
        ResolutionEvent::Client(r) => r is Err,
        ResolutionEvent::Claims(Ok(c)) => c@.0 != crate::types::did_web_of(authority),
        ResolutionEvent::Claims(Err(_)) => true,
        ResolutionEvent::Document(_) => true,
    }
}

/// What is to be done after an event that does not end the resolution of an
/// authority.
pub open spec fn after_event(
    authority: Seq<char>,
    event: ResolutionEvent,
) -> ResolutionAction<Seq<char>> {
    match event {
        ResolutionEvent::Address(_) => ResolutionAction::ObtainClient {
            base_url: base_address(authority),
        },
        ResolutionEvent::Client(_) => ResolutionAction::LearnClaims,
        _ => ResolutionAction::ResolveDocument { did: crate::types::did_web_of(authority) },
    }
}

/// Whether an event is the answer, among these, to what was asked.
pub open spec fn is_resolution_answer(
    ask: ResolutionAction<Seq<char>>,
    event: ResolutionEvent,
    o: ResolutionAnswers,
) -> bool {
    match (ask, event) {
        (ResolutionAction::CheckAddress { base_url }, ResolutionEvent::Address(r)) => (o.address)(
            base_url,
        ) == match r {
            Ok(()) => Ok(()),
            Err(t) => Err(t@),
        },
        (ResolutionAction::ObtainClient { base_url }, ResolutionEvent::Client(r)) => (o.client)(
            base_url,
        ) == crate::error::checked(r),
        (ResolutionAction::LearnClaims, ResolutionEvent::Claims(r)) => o.claims == match r {
            Ok(c) => Ok(c@),
            Err(e) => Err(e@),
        },
        (ResolutionAction::ResolveDocument { did }, ResolutionEvent::Document(r)) => (o.document)(
            did,
        ) == match r {
            Ok(t) => Ok(t@),
            Err(t) => Err(t@),
        },
        _ => false,
    }
}

enum Stage {
    Address,
    Client,
    Claims,
    Document { registry_did: String, gives_receipts: bool },
}

/// A resolution under way.
pub struct Resolution {
    authority: String,
    stage: Stage,
}

/// Where a resolution has got to.
pub enum ResolutionProgress {
    /// Something is to be done.
    Pending(Resolution),
    /// The registry is the one that it should be, and must give a receipt or
    /// need not; or the resolution has failed.
    Finished(Result<bool, AcdpError>),
}

impl ResolutionProgress {
    /// What the resolution will come to under these answers.
    pub open spec fn outcome(&self, o: ResolutionAnswers) -> Result<bool, AcdpError<Seq<char>>> {
        match self {
            ResolutionProgress::Pending(r) => r.outcome(o),
            ResolutionProgress::Finished(r) => crate::error::checked(*r),
        }
    }
}

impl Resolution {
    /// The authority that is resolved.
    pub closed spec fn target(&self) -> Seq<char> {
        self.authority@
    }

    /// What is to be done next.
    pub closed spec fn asks(&self) -> ResolutionAction<Seq<char>> {
        match self.stage {
            Stage::Address => ResolutionAction::CheckAddress {
                base_url: base_address(self.authority@),
            },
            Stage::Client => ResolutionAction::ObtainClient {
                base_url: base_address(self.authority@),
            },
            Stage::Claims => ResolutionAction::LearnClaims,
            Stage::Document { registry_did, .. } => ResolutionAction::ResolveDocument {
                did: registry_did@,
            },
        }
    }

    /// What the resolution will come to under these answers.
    pub closed spec fn outcome(&self, o: ResolutionAnswers) -> Result<bool, AcdpError<Seq<char>>> {
        match self.stage {
            Stage::Address => resolved_from_address(self.authority@, o),
            Stage::Client => resolved_from_client(self.authority@, o),
            Stage::Claims => resolved_from_claims(self.authority@, o),
            Stage::Document { registry_did, gives_receipts } => resolved_from_document(
                registry_did@,
                gives_receipts,
                o,
            ),
        }
    }

    /// How many actions can at most still be asked for.
    pub closed spec fn remaining(&self) -> nat {
        match self.stage {
            Stage::Address => 4,
            Stage::Client => 3,
            Stage::Claims => 2,
            Stage::Document { .. } => 1,
        }
    }

    /// The authority that is resolved.
    pub fn authority(&self) -> (authority: &str)
        ensures
            authority@ == self.target(),
    {
        self.authority.as_str()
    }

    /// What is to be done next: first of all the address is checked.
    pub fn action(&self) -> (action: ResolutionAction)
        ensures
            action@ == self.asks(),
            match action {
                ResolutionAction::CheckAddress { .. } => self.remaining() == 4,
                ResolutionAction::ObtainClient { .. } => self.remaining() == 3,
                ResolutionAction::LearnClaims => self.remaining() == 2,
                ResolutionAction::ResolveDocument { .. } => self.remaining() == 1,
            },
    {
        match &self.stage {
            Stage::Address => ResolutionAction::CheckAddress { base_url: self.base_url() },
            Stage::Client => ResolutionAction::ObtainClient { base_url: self.base_url() },
            Stage::Claims => ResolutionAction::LearnClaims,
            Stage::Document { registry_did, .. } => ResolutionAction::ResolveDocument {
                did: registry_did.clone(),
            },
        }
    }

    fn base_url(&self) -> (url: String)
        ensures
            url@ == base_address(self.target()),
    {
        let mut url: String = "https://".to_owned();
        url.append(self.authority.as_str());
        url
    }

    /// Goes on with what came of the action.
    ///
    /// Whatever answers the work gives, the outcome that they lead to stays
    /// the same, and fewer actions remain. Nothing is done any more once
    /// something was refused: no request is made to an address that the
    /// policy does not let pass.
    pub fn advance(self, event: ResolutionEvent) -> (progress: ResolutionProgress)
        requires
            resolution_event_fits(self.asks(), event),
        ensures
            forall|o: ResolutionAnswers|
                is_resolution_answer(self.asks(), event, o) ==> #[trigger] progress.outcome(o)
                    == self.outcome(o),
            progress matches ResolutionProgress::Pending(r) ==> {
                &&& r.target() == self.target()
                &&& r.remaining() < self.remaining()
                &&& r.asks() == after_event(self.target(), event)
            },
            progress is Finished <==> ends_resolution(self.target(), event),
    {
        let Resolution { authority, stage } = self;
        match (stage, event) {
            (Stage::Address, ResolutionEvent::Address(r)) => match r {
                Err(reason) => ResolutionProgress::Finished(
                    Err(
                        AcdpError::CrossRegistryResolutionFailed(
                            ResolutionFault::AddressPolicy(reason),
                        ),
                    ),
                ),
                Ok(()) => ResolutionProgress::Pending(
                    Resolution { authority, stage: Stage::Client },
                ),
            },
            (Stage::Client, ResolutionEvent::Client(r)) => match r {
                Err(e) => ResolutionProgress::Finished(Err(e)),
                Ok(()) => ResolutionProgress::Pending(
                    Resolution { authority, stage: Stage::Claims },
                ),
            },
            (Stage::Claims, ResolutionEvent::Claims(r)) => match r {
                Err(e) => ResolutionProgress::Finished(Err(map_claims_failure(authority, e))),
                Ok(claims) => {
                    let expected: String = authority_to_did_web(authority.as_str());
                    if !same_text(claims.registry_did.as_str(), expected.as_str()) {
                        return ResolutionProgress::Finished(
                            Err(
                                AcdpError::CrossRegistryResolutionFailed(
                                    ResolutionFault::RegistryDidMismatch {
                                        registry_did: claims.registry_did,
                                        expected,
                                    },
                                ),
                            ),
                        );
                    }
                    ResolutionProgress::Pending(
                        Resolution {
                            authority,
                            stage: Stage::Document {
                                registry_did: claims.registry_did,
                                gives_receipts: claims.gives_receipts,
                            },
                        },
                    )
                },
            },
            (
                Stage::Document { registry_did, gives_receipts },
                ResolutionEvent::Document(r),
            ) => match r {
                Err(reason) => ResolutionProgress::Finished(
                    Err(
                        AcdpError::CrossRegistryResolutionFailed(
                            ResolutionFault::DidDocumentUnavailable { did: registry_did, reason },
                        ),
                    ),
                ),
                Ok(id) => {
                    if !same_text(id.as_str(), registry_did.as_str()) {
                        return ResolutionProgress::Finished(
                            Err(
                                AcdpError::CrossRegistryResolutionFailed(
                                    ResolutionFault::DidDocumentMismatch {
                                        id,
                                        expected: registry_did,
                                    },
                                ),
                            ),
                        );
                    }
                    ResolutionProgress::Finished(Ok(gives_receipts))
                },
            },
            (stage, _) => ResolutionProgress::Pending(Resolution { authority, stage }),
        }
    }
}

fn map_claims_failure(authority: String, e: AcdpError) -> (mapped: AcdpError)
    ensures
        mapped@ == claims_failure(authority@, e@),
{
    match e {
        AcdpError::Http(reason) => AcdpError::CrossRegistryResolutionFailed(
            ResolutionFault::Unreachable { authority, reason },
        ),
        AcdpError::KeyResolutionUnreachable(reason) => AcdpError::CrossRegistryResolutionFailed(
            ResolutionFault::Unreachable { authority, reason },
        ),
        other => other,
    }
}

/// Whether a policy is the one for a context of a resolved registry: the
/// usual one, with the resolver's revocations, and with a receipt required
/// exactly of a registry that claims to give one. In a walk with a cache of
/// its own, no registry is searched twice.
pub open spec fn is_node_policy(
    policy: VerificationPolicy,
    revocations: RevocationPolicy,
    gives_receipts: bool,
    walk_limit: Option<Span>,
) -> bool {
    &&& policy.validate_body_schema
    &&& policy.allow_unknown_status
    &&& policy.receipts == if gives_receipts {
        ReceiptPolicy::Require
    } else {
        ReceiptPolicy::VerifyIfPresent
    }
    &&& policy.historical_keys == crate::policy::HistoricalKeyPolicy::AcceptWithReceipt
    &&& policy.lineage_head == (crate::policy::LineageHeadPolicy {
        receipts: ReceiptPolicy::VerifyIfPresent,
        max_clock_skew_seconds: 120,
        max_age_seconds: Some(300),
    })
    &&& policy.revocations.known@ == revocations.known@
    &&& match (policy.revocations.discover, revocations.discover) {
        (Some(a), Some(b)) => a == (crate::policy::RevocationDiscovery {
            freshness: match walk_limit {
                Some(limit) => b.freshness.longer(limit),
                None => b.freshness,
            },
            ..b
        }),
        (None, None) => true,
        _ => false,
    }
}

impl<K, C> CrossRegistryResolver<K, C> {
    /// Begins to resolve a context, given whether its identifier is well
    /// formed. Nothing is done at all for one that is not, nor for an
    /// authority that is not open to resolution; else the address comes
    /// first.
    pub fn resolve(&self, ctx_id: &CtxId, parse_check: Result<(), AcdpError>) -> (progress:
        ResolutionProgress)
        ensures
            forall|o: ResolutionAnswers| #[trigger]
                progress.outcome(o) == resolution_outcome(
                    self.allowed(),
                    ctx_id@,
                    crate::error::checked(parse_check),
                    o,
                ),
            progress matches ResolutionProgress::Pending(r) ==> {
                &&& r.target() == crate::types::authority_of(ctx_id@)
                &&& r.remaining() == 4
                &&& r.asks() == (ResolutionAction::CheckAddress {
                    base_url: base_address(crate::types::authority_of(ctx_id@)),
                })
            },
            progress is Finished <==> parse_check is Err || allowlist_fault(
                self.allowed(),
                crate::types::authority_of(ctx_id@),
            ) is Some,
    {
        if let Err(e) = parse_check {
            return ResolutionProgress::Finished(Err(e));
        }
        let authority: &str = ctx_id.authority();
        if let Err(e) = self.check_allowlist(authority) {
            return ResolutionProgress::Finished(Err(e));
        }
        ResolutionProgress::Pending(
            Resolution { authority: authority.to_owned(), stage: Stage::Address },
        )
    }

    /// The policy for a context of a resolved registry. `walk_cache_only`
    /// says that the context belongs to a walk whose cache of revocations
    /// lives no longer than the walk: then a search of a registry counts for
    /// the whole walk.
    pub fn node_policy(&self, gives_receipts: bool, walk_cache_only: bool) -> (policy:
        VerificationPolicy)
        ensures
            is_node_policy(
                policy,
                self.revocations(),
                gives_receipts,
                if walk_cache_only {
                    Some(self.limits().total_timeout)
                } else {
                    None
                },
            ),
    {
        let mut policy: VerificationPolicy = VerificationPolicy::default();
        policy.revocations = self.revocation_policy.clone();
        if walk_cache_only {
            if let Some(d) = policy.revocations.discover {
                policy.revocations.discover = Some(
                    crate::policy::RevocationDiscovery {
                        include_registry_attested: d.include_registry_attested,
                        on_failure: d.on_failure,
                        total_timeout: d.total_timeout,
                        max_requests: d.max_requests,
                        max_bytes: d.max_bytes,
                        freshness: d.freshness.max(self.options.total_timeout),
                    },
                );
            }
        }
        if gives_receipts {
            policy.receipts = ReceiptPolicy::Require;
        }
        policy
    }
}

/// A client with a cache of revocations: its own where it has one, else this
/// one.
pub fn attach_cache<H: Clone, B: Clone, C: Clone>(
    client: RegistryClient<H, B, C>,
    cache: Option<C>,
) -> (attached: RegistryClient<H, B, C>)
    ensures
        client.attached_cache() is Some || cache is None ==> attached == client,
        client.attached_cache() is None && cache is Some ==> {
            &&& attached.address() == client.address()
            &&& cloned(client.sender(), attached.sender())
            &&& crate::registry::cloned_option(client.attached_budget(), attached.attached_budget())
            &&& attached.attached_cache() == cache
            &&& attached.freshness().total_nanos() == 0
        },
{
    match cache {
        Some(c) if client.revocation_cache().is_none() => client.with_revocation_cache(c),
        _ => client,
    }
}

/// No registry is resolved but one that its authority vouches for: it claims
/// the identity of the authority, the identity's own document confirms it,
/// the address policy lets it pass, and resolution is open to it.
pub proof fn law_resolved_registry_is_bound_to_its_authority(
    allowed: Option<Seq<Seq<char>>>,
    ctx_id: Seq<char>,
    parse_check: Result<(), AcdpError<Seq<char>>>,
    o: ResolutionAnswers,
)
    requires
        resolution_outcome(allowed, ctx_id, parse_check, o) is Ok,
    ensures
        parse_check is Ok,
        allowed matches Some(list) ==> list.contains(crate::types::authority_of(ctx_id)),
        (o.address)(base_address(crate::types::authority_of(ctx_id))) is Ok,
        o.claims matches Ok((did, gives_receipts)) && did == crate::types::did_web_of(
            crate::types::authority_of(ctx_id),
        ) && (o.document)(did) == Ok::<Seq<char>, Seq<char>>(did) && resolution_outcome(
            allowed,
            ctx_id,
            parse_check,
            o,
        ) == Ok::<bool, AcdpError<Seq<char>>>(gives_receipts),
{
}

/// Whatever revocations a caller enforces, a context of a registry that
/// claims to give receipts verifies only with a verified receipt.
pub proof fn law_claimed_receipts_are_required(
    i: RetrievalInputs,
    o: RetrievalAnswers,
    revocations: RevocationPolicy,
    walk_limit: Option<Span>,
)
    requires
        is_node_policy(i.policy, revocations, true, walk_limit),
    ensures
        crate::verified::retrieval_outcome(i, o) matches Ok(v) ==> v.receipt is Some,
{
    crate::verified::law_receipt_policy_is_kept(i, o);
}

/// A walk with a cache of its own searches a registry for a producer's
/// revocations of a class once, however many contexts of this and of other
/// producers the walk visits in between: once a search has been remembered,
/// it makes every further one unnecessary for as long as a walk may take,
/// whatever freshness the caller has set. The exceptions are a producer with
/// more revocations than are remembered, and one whose entry had to make room
/// because more searches were remembered than there is room for.
pub proof fn law_walk_searches_once(
    policy: VerificationPolicy,
    revocations: RevocationPolicy,
    gives_receipts: bool,
    walk_limit: Span,
    states: Seq<Map<Seq<char>, CacheEntryView>>,
    searches: Seq<RememberedSearch>,
    k: int,
    now: Moment,
)
    requires
        is_node_policy(policy, revocations, gives_receipts, Some(walk_limit)),
        crate::revocation_cache::is_history(states, searches),
        0 <= k < searches.len(),
        searches.len() <= crate::revocation_cache::MAX_CACHE_ENTRIES
            || crate::revocation_cache::entry_stays(states, searches[k].agent_id, k),
        !states.last()[searches[k].agent_id].at_cap,
        forall|i: int|
            k <= i < searches.len() ==> searches[k].now.nanos <= (#[trigger] searches[i]).now.nanos,
        now.nanos_since(searches[k].now) < walk_limit.total_nanos(),
    ensures
        policy.revocations.discover matches Some(d) ==> crate::revocation_cache::is_fresh(
            states.last(),
            searches[k].authority,
            searches[k].agent_id,
            searches[k].class,
            d.freshness,
            now,
        ),
{
    if searches.len() <= crate::revocation_cache::MAX_CACHE_ENTRIES {
        crate::revocation_cache::law_few_searches_evict_nothing(states, searches, k);
    }
    crate::revocation_cache::law_marker_outlives_other_searches(
        states,
        searches,
        k,
        walk_limit,
        now,
    );
}

/// A registry cannot have its capabilities kept longer than the resolver
/// keeps any.
pub proof fn law_capabilities_are_not_pinned(response_ttl: Span, ceiling: Span)
    ensures
        caps_ttl(response_ttl, ceiling).total_nanos() <= ceiling.total_nanos(),
        caps_ttl(response_ttl, ceiling).total_nanos() <= response_ttl.total_nanos()
            || caps_ttl(response_ttl, ceiling).total_nanos() <= 1_000_000_000,
{
}

/// A resolution succeeds whenever nothing stands against it: the identifier
/// is well formed, its authority is open to resolution, the address policy
/// lets `https://` and the authority pass, a client is had, the registry
/// claims the identity of the authority, and the document of that identity is
/// about it. It then comes to what the registry claims about receipts, be it
/// yes or no. In every other case it fails.
pub proof fn law_resolution_succeeds_unless_refused(
    allowed: Option<Seq<Seq<char>>>,
    ctx_id: Seq<char>,
    parse_check: Result<(), AcdpError<Seq<char>>>,
    o: ResolutionAnswers,
    gives_receipts: bool,
)
    ensures
        ({
            let authority = crate::types::authority_of(ctx_id);
            let did = crate::types::did_web_of(authority);
            resolution_outcome(allowed, ctx_id, parse_check, o) == Ok::<
                bool,
                AcdpError<Seq<char>>,
            >(gives_receipts) <==> {
                &&& parse_check is Ok
                &&& allowed is None || allowed->Some_0.contains(authority)
                &&& (o.address)("https://"@ + authority) is Ok
                &&& (o.client)("https://"@ + authority) is Ok
                &&& o.claims == Ok::<(Seq<char>, bool), AcdpError<Seq<char>>>((did, gives_receipts))
                &&& (o.document)(did) == Ok::<Seq<char>, Seq<char>>(did)
            }
        }),
{
}

/// A resolution that fails says what stood against it: the first of the
/// things that did, in the order in which they are looked at. That a registry
/// was not reached is said of its authority; any other failure to learn its
/// claims is handed on.
pub proof fn law_resolution_names_what_refused(
    allowed: Option<Seq<Seq<char>>>,
    ctx_id: Seq<char>,
    parse_check: Result<(), AcdpError<Seq<char>>>,
    o: ResolutionAnswers,
)
    ensures
        ({
            let authority = crate::types::authority_of(ctx_id);
            let did = crate::types::did_web_of(authority);
            let address = (o.address)("https://"@ + authority);
            let client = (o.client)("https://"@ + authority);
            let document = (o.document)(did);
            let listed = allowed is None || allowed->Some_0.contains(authority);
            let r = resolution_outcome(allowed, ctx_id, parse_check, o);
            let open = parse_check is Ok && listed && address is Ok && client is Ok;
            &&& parse_check is Err ==> r == Err::<bool, _>(parse_check->Err_0)
            &&& parse_check is Ok && !listed ==> r == Err::<bool, _>(
                AcdpError::CrossRegistryResolutionFailed(ResolutionFault::NotAllowed(authority)),
            )
            &&& parse_check is Ok && listed && address is Err ==> r == Err::<bool, _>(
                AcdpError::CrossRegistryResolutionFailed(
                    ResolutionFault::AddressPolicy(address->Err_0),
                ),
            )
            &&& parse_check is Ok && listed && address is Ok && client is Err ==> r == Err::<
                bool,
                _,
            >(client->Err_0)
            &&& open && o.claims is Err && o.claims->Err_0 is Http ==> r == Err::<bool, _>(
                AcdpError::CrossRegistryResolutionFailed(
                    ResolutionFault::Unreachable { authority, reason: o.claims->Err_0->Http_0 },
                ),
            )
            &&& open && o.claims is Err && o.claims->Err_0 is KeyResolutionUnreachable ==> r
                == Err::<bool, _>(
                AcdpError::CrossRegistryResolutionFailed(
                    ResolutionFault::Unreachable {
                        authority,
                        reason: o.claims->Err_0->KeyResolutionUnreachable_0,
                    },
                ),
            )
            &&& open && o.claims is Err && !(o.claims->Err_0 is Http)
                && !(o.claims->Err_0 is KeyResolutionUnreachable) ==> r == Err::<bool, _>(
                o.claims->Err_0,
            )
            &&& open && o.claims is Ok && o.claims->Ok_0.0 != did ==> r == Err::<bool, _>(
                AcdpError::CrossRegistryResolutionFailed(
                    ResolutionFault::RegistryDidMismatch {
                        registry_did: o.claims->Ok_0.0,
                        expected: did,
                    },
                ),
            )
            &&& open && o.claims is Ok && o.claims->Ok_0.0 == did && document is Err ==> r == Err::<
                bool,
                _,
            >(
                AcdpError::CrossRegistryResolutionFailed(
                    ResolutionFault::DidDocumentUnavailable { did, reason: document->Err_0 },
                ),
            )
            &&& open && o.claims is Ok && o.claims->Ok_0.0 == did && document is Ok
                && document->Ok_0 != did ==> r == Err::<bool, _>(
                AcdpError::CrossRegistryResolutionFailed(
                    ResolutionFault::DidDocumentMismatch { id: document->Ok_0, expected: did },
                ),
            )
        }),
{
}

/// Capabilities are kept for the time that the response gives, where that is
/// between a second and the resolver's ceiling; for a second where it is
/// less, and up to the ceiling where it is more. They count until that time
/// has passed, and no longer.
pub proof fn law_capabilities_are_kept_as_told(
    response_ttl: Span,
    ceiling: Span,
    entry: CapsEntryView,
    now: Moment,
)
    ensures
        ({
            let told = response_ttl.secs * 1_000_000_000 + response_ttl.nanos;
            let most = ceiling.secs * 1_000_000_000 + ceiling.nanos;
            let kept = caps_ttl(response_ttl, ceiling);
            let time = kept.secs * 1_000_000_000 + kept.nanos;
            &&& 1_000_000_000 <= told <= most ==> time == told
            &&& told < 1_000_000_000 <= most ==> time == 1_000_000_000
            &&& told > most && most >= 1_000_000_000 ==> time == most
            &&& most < 1_000_000_000 ==> time == most
        }),
        entry.fetched_at.nanos <= now.nanos ==> (entry.is_current(now) <==> now.nanos
            - entry.fetched_at.nanos < entry.ttl.secs * 1_000_000_000 + entry.ttl.nanos),
{
}

/// A sound context of a resolved registry verifies, whatever its status, and
/// without a receipt too where the registry does not claim to give any; one
/// whose key was rotated out verifies with a receipt.
pub proof fn law_sound_contexts_of_resolved_registries_verify(
    i: RetrievalInputs,
    o: RetrievalAnswers,
    revocations: RevocationPolicy,
    gives_receipts: bool,
    walk_limit: Option<Span>,
    report: Option<Result<crate::policy::DiscoveryOutcome, AcdpError<Seq<char>>>>,
    receipt: Option<crate::types::RegistryReceiptView>,
)
    requires
        is_node_policy(i.policy, revocations, gives_receipts, walk_limit),
        i.ctx.body.ctx_id@ == i.expected,
        o.schema is Ok,
        o.hash is Ok,
        crate::verified::search_passes(i, o, report),
        crate::verified::is_unrevoked(i, o),
        receipt is None <==> i.ctx.registry_receipt is None,
        receipt is Some ==> o.receipt_key is Ok && (o.receipt)(
            o.receipt_key->Ok_0,
            i.serving_authority(),
        ) == Ok::<crate::types::RegistryReceiptView, AcdpError<Seq<char>>>(receipt->Some_0),
        gives_receipts ==> receipt is Some,
    ensures
        o.signature is Ok ==> crate::verified::retrieval_outcome(i, o) is Ok,
        o.signature is Err && o.signature->Err_0 is KeyNotAuthorized && receipt is Some
            && o.historical is Ok ==> crate::verified::retrieval_outcome(i, o) is Ok,
{
    let key_status = if o.signature is Ok {
        crate::policy::KeyAuthorization::CurrentlyAuthorized
    } else {
        crate::policy::KeyAuthorization::HistoricallyAuthorized
    };
    let v = crate::verified::VerifiedContextView {
        ctx: i.ctx,
        key_status,
        receipt,
        head_receipt: None,
        head_receipt_stale: None,
        discovery: report,
    };
    crate::verified::law_sound_contexts_verify(i, o, v);
}

/// The policy for a context of a resolved registry checks the body's shape,
/// tolerates two minutes of skew and reports a head as stale after five; it
/// acts on the resolver's own revocations and searches as the resolver would,
/// but in a walk a search counts at least as long as the walk may take.
pub proof fn law_what_the_policy_of_a_resolved_registry_asks(
    policy: VerificationPolicy,
    revocations: RevocationPolicy,
    gives_receipts: bool,
    walk_limit: Option<Span>,
)
    requires
        is_node_policy(policy, revocations, gives_receipts, walk_limit),
    ensures
        policy.validate_body_schema,
        policy.lineage_head.receipts == ReceiptPolicy::VerifyIfPresent,
        policy.lineage_head.max_clock_skew_seconds == 120,
        policy.lineage_head.max_age_seconds == Some(300u32),
        policy.revocations.known@ == revocations.known@,
        policy.revocations.discover is Some <==> revocations.discover is Some,
        policy.revocations.discover is Some ==> {
            let own = policy.revocations.discover->Some_0;
            let given = revocations.discover->Some_0;
            &&& own == (crate::policy::RevocationDiscovery { freshness: own.freshness, ..given })
            &&& walk_limit is None ==> own.freshness == given.freshness
            &&& walk_limit is Some ==> own.freshness.total_nanos()
                >= walk_limit->Some_0.total_nanos() && own.freshness.total_nanos()
                >= given.freshness.total_nanos()
            &&& walk_limit is Some ==> own.freshness == given.freshness || own.freshness
                == walk_limit->Some_0
        },
{
}

} // verus!
