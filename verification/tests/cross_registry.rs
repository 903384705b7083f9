use acdp::cross_registry::{
    attach_cache, CrossRegistryResolver, RegistryClaims, Resolution, ResolutionAction,
    ResolutionEvent, ResolutionProgress, ResolverOptions,
};
use acdp::derived_walk::{walk_timeout, DerivedProgress};
use acdp::error::{AcdpError, ResolutionFault};
use acdp::key_revocation::RevocationTrustClass;
use acdp::policy::{ReceiptPolicy, RevocationDiscovery, RevocationPolicy};
use acdp::registry::RegistryClient;
use acdp::revocation::{find_revocations, record_search, SearchStart};
use acdp::revocation_cache::RevocationCache;
use acdp::time::{Moment, Span};
use acdp::types::{
    AgentDid, Body, CapabilitiesDocument, ContentHash, ContextType, CtxId, FullContext, Limits,
    LineageId, RegistryState, Signature, Status, Visibility,
};
use acdp::verified::{DiscoveryRun, RetrievalEvidence, VerifiedContext};

type Resolver = CrossRegistryResolver<&'static str, &'static str>;

const SECOND: u64 = 1_000_000_000;

fn test_caps() -> CapabilitiesDocument {
    CapabilitiesDocument {
        acdp_version: "0.4.0".to_string(),
        registry_did: "did:web:registry.example.com".to_string(),
        supported_signature_algorithms: vec!["ed25519".to_string()],
        supported_did_methods: vec!["did:web".to_string()],
        profiles: vec!["acdp-registry-core".to_string()],
        limits: Limits { max_payload_bytes: 1_048_576, max_embedded_bytes: 65536 },
    }
}

#[test]
fn cached_capabilities_returns_none_when_never_fetched() {
    let resolver = Resolver::new();
    assert!(resolver
        .cached_capabilities("registry.example.com", Moment { nanos: 0 })
        .is_none());
}

#[test]
fn cached_capabilities_returns_fresh_entry_without_fetching() {
    let mut resolver = Resolver::new();
    let now = Moment { nanos: 60 * SECOND };
    resolver.keep_capabilities("registry.example.com", test_caps(), Span::from_secs(300), now);
    let caps = resolver
        .cached_capabilities("registry.example.com", now)
        .expect("entry was just seeded fresh");
    assert_eq!(caps.registry_did, "did:web:registry.example.com");
}

#[test]
fn cached_capabilities_reports_expired_entry_as_absent() {
    let mut resolver = Resolver::new();
    resolver.keep_capabilities(
        "registry.example.com",
        test_caps(),
        Span::from_secs(1),
        Moment { nanos: 0 },
    );
    assert!(resolver
        .cached_capabilities("registry.example.com", Moment { nanos: 60 * SECOND })
        .is_none());
}

#[test]
fn capabilities_are_kept_for_at_least_a_second_and_at_most_the_ceiling() {
    let mut resolver = Resolver::new();
    resolver.keep_capabilities("a.example", test_caps(), Span::zero(), Moment { nanos: 0 });
    assert!(resolver.cached_capabilities("a.example", Moment { nanos: SECOND - 1 }).is_some());
    assert!(resolver.cached_capabilities("a.example", Moment { nanos: SECOND }).is_none());
    resolver.keep_capabilities("b.example", test_caps(), Span::from_secs(9999), Moment { nanos: 0 });
    assert!(resolver
        .cached_capabilities("b.example", Moment { nanos: 300 * SECOND - 1 })
        .is_some());
    assert!(resolver.cached_capabilities("b.example", Moment { nanos: 300 * SECOND }).is_none());
}

#[test]
fn later_capabilities_replace_earlier_ones() {
    let mut resolver = Resolver::new();
    let now = Moment { nanos: 0 };
    resolver.keep_capabilities("a.example", test_caps(), Span::from_secs(300), now);
    let mut other = test_caps();
    other.registry_did = "did:web:other.example".to_string();
    resolver.keep_capabilities("a.example", other, Span::from_secs(300), now);
    assert_eq!(
        resolver.cached_capabilities("a.example", now).unwrap().registry_did,
        "did:web:other.example"
    );
}

#[test]
fn allowlist_rejects_outside_authorities() {
    let resolver = Resolver::new().with_allowlist(vec!["registry.example.com".to_string()]);
    let err = resolver.check_allowlist("evil.com").unwrap_err();
    assert_eq!(
        err,
        AcdpError::CrossRegistryResolutionFailed(ResolutionFault::NotAllowed(
            "evil.com".to_string()
        ))
    );
    resolver.check_allowlist("registry.example.com").unwrap();
}

#[test]
fn options_default_values_match_doc() {
    let o = ResolverOptions::default();
    assert_eq!(o.max_depth, 10);
    assert_eq!(o.max_nodes, 100);
    assert_eq!(o.max_fanout, 32);
    assert_eq!(o.total_timeout, Span::from_secs(30));
    assert_eq!(o.capabilities_ttl, Span::from_secs(300));
}

#[test]
fn with_options_replaces_full_struct() {
    let r = Resolver::new().with_options(ResolverOptions {
        max_depth: 3,
        max_nodes: 7,
        max_fanout: 2,
        total_timeout: Span::from_secs(5),
        capabilities_ttl: Span::from_secs(60),
    });
    assert_eq!(r.options().max_depth, 3);
    assert_eq!(r.options().max_nodes, 7);
    assert_eq!(r.options().max_fanout, 2);
}

#[test]
fn a_depth_is_set_on_its_own() {
    let r = Resolver::default().with_max_depth(4);
    assert_eq!(*r.options(), ResolverOptions { max_depth: 4, ..ResolverOptions::default() });
}

#[test]
fn a_seeded_client_wins_over_one_built_later() {
    let mut r = Resolver::new();
    assert_eq!(r.cached_client("a.example"), None);
    r.keep_client("a.example", "built");
    r.keep_client("a.example", "built again");
    assert_eq!(r.cached_client("a.example"), Some(&"built"));
    r.seed_client("a.example", "seeded");
    assert_eq!(r.cached_client("a.example"), Some(&"seeded"));
    assert_eq!(r.cached_client("b.example"), None);
}

#[test]
fn a_client_keeps_a_cache_of_its_own() {
    let bare: RegistryClient<(), (), &str> = RegistryClient::connect("https://a.example", ());
    let with = attach_cache(bare, Some("shared"));
    assert_eq!(with.revocation_cache(), Some((&"shared", Span::zero())));
    let own = with.with_revocation_cache("own");
    assert_eq!(attach_cache(own, Some("shared")).revocation_cache(), Some((&"own", Span::zero())));
    let none: RegistryClient<(), (), &str> = RegistryClient::connect("https://a.example", ());
    assert_eq!(attach_cache(none, None).revocation_cache(), None);
}

fn pending(p: ResolutionProgress) -> Resolution {
    match p {
        ResolutionProgress::Pending(r) => r,
        ResolutionProgress::Finished(r) => panic!("finished with {r:?}"),
    }
}

fn finished(p: ResolutionProgress) -> Result<bool, AcdpError> {
    match p {
        ResolutionProgress::Pending(r) => panic!("pending: {:?}", r.action()),
        ResolutionProgress::Finished(r) => r,
    }
}

fn claims(did: &str, gives_receipts: bool) -> ResolutionEvent {
    ResolutionEvent::Claims(Ok(RegistryClaims {
        registry_did: did.to_string(),
        gives_receipts,
    }))
}

/// A resolution of a context of `registry.example.com:8443` up to the
/// registry's claims.
fn until_claims() -> Resolution {
    let id = CtxId("acdp://registry.example.com:8443/one".to_string());
    let r = pending(Resolver::new().resolve(&id, Ok(())));
    assert_eq!(
        r.action(),
        ResolutionAction::CheckAddress {
            base_url: "https://registry.example.com:8443".to_string()
        }
    );
    let r = pending(r.advance(ResolutionEvent::Address(Ok(()))));
    assert_eq!(
        r.action(),
        ResolutionAction::ObtainClient {
            base_url: "https://registry.example.com:8443".to_string()
        }
    );
    let r = pending(r.advance(ResolutionEvent::Client(Ok(()))));
    assert_eq!(r.action(), ResolutionAction::LearnClaims);
    assert_eq!(r.authority(), "registry.example.com:8443");
    r
}

const BOUND_DID: &str = "did:web:registry.example.com%3A8443";

#[test]
fn a_registry_bound_to_its_authority_is_resolved() {
    let r = pending(until_claims().advance(claims(BOUND_DID, true)));
    assert_eq!(
        r.action(),
        ResolutionAction::ResolveDocument { did: BOUND_DID.to_string() }
    );
    assert_eq!(finished(r.advance(ResolutionEvent::Document(Ok(BOUND_DID.to_string())))), Ok(true));
}

#[test]
fn a_resolution_fails_where_any_step_fails() {
    let id = CtxId("acdp://registry.example.com/one".to_string());
    let malformed = AcdpError::Serialization("no identifier".to_string());
    assert_eq!(finished(Resolver::new().resolve(&id, Err(malformed.clone()))), Err(malformed));

    let closed = Resolver::new().with_allowlist(vec![]);
    assert_eq!(
        finished(closed.resolve(&id, Ok(()))),
        Err(AcdpError::CrossRegistryResolutionFailed(ResolutionFault::NotAllowed(
            "registry.example.com".to_string()
        )))
    );

    let r = pending(Resolver::new().resolve(&id, Ok(())));
    assert_eq!(
        finished(r.advance(ResolutionEvent::Address(Err("private address".to_string())))),
        Err(AcdpError::CrossRegistryResolutionFailed(ResolutionFault::AddressPolicy(
            "private address".to_string()
        )))
    );

    let r = pending(Resolver::new().resolve(&id, Ok(())));
    let r = pending(r.advance(ResolutionEvent::Address(Ok(()))));
    let refused = AcdpError::Http("no route".to_string());
    assert_eq!(finished(r.advance(ResolutionEvent::Client(Err(refused.clone())))), Err(refused));

    assert_eq!(
        finished(
            until_claims()
                .advance(ResolutionEvent::Claims(Err(AcdpError::Http("timeout".to_string()))))
        ),
        Err(AcdpError::CrossRegistryResolutionFailed(ResolutionFault::Unreachable {
            authority: "registry.example.com:8443".to_string(),
            reason: "timeout".to_string(),
        }))
    );
    let garbled = AcdpError::Serialization("not JSON".to_string());
    assert_eq!(
        finished(until_claims().advance(ResolutionEvent::Claims(Err(garbled.clone())))),
        Err(garbled)
    );

    assert_eq!(
        finished(until_claims().advance(claims("did:web:evil.example", false))),
        Err(AcdpError::CrossRegistryResolutionFailed(ResolutionFault::RegistryDidMismatch {
            registry_did: "did:web:evil.example".to_string(),
            expected: BOUND_DID.to_string(),
        }))
    );

    let r = pending(until_claims().advance(claims(BOUND_DID, false)));
    assert_eq!(
        finished(r.advance(ResolutionEvent::Document(Err("404".to_string())))),
        Err(AcdpError::CrossRegistryResolutionFailed(ResolutionFault::DidDocumentUnavailable {
            did: BOUND_DID.to_string(),
            reason: "404".to_string(),
        }))
    );

    let r = pending(until_claims().advance(claims(BOUND_DID, false)));
    assert_eq!(
        finished(r.advance(ResolutionEvent::Document(Ok("did:web:evil.example".to_string())))),
        Err(AcdpError::CrossRegistryResolutionFailed(ResolutionFault::DidDocumentMismatch {
            id: "did:web:evil.example".to_string(),
            expected: BOUND_DID.to_string(),
        }))
    );
}

#[test]
fn the_claims_of_a_registry_are_read_off_its_capabilities() {
    let mut caps = test_caps();
    assert_eq!(
        RegistryClaims::of(&caps),
        RegistryClaims {
            registry_did: "did:web:registry.example.com".to_string(),
            gives_receipts: false,
        }
    );
    caps.profiles.push("acdp-registry-receipts".to_string());
    assert!(RegistryClaims::of(&caps).gives_receipts);
}

#[test]
fn the_policy_of_a_node_follows_the_claims_of_its_registry() {
    let r = Resolver::new().with_revocation_policy(
        RevocationPolicy::new(vec![]).with_discovery(RevocationDiscovery::all_trust_classes()),
    );
    assert_eq!(r.node_policy(true, false).receipts, ReceiptPolicy::Require);
    assert_eq!(r.node_policy(false, false).receipts, ReceiptPolicy::VerifyIfPresent);
    assert_eq!(r.node_policy(false, false).revocations, *r.revocation_policy());
    let head = r.node_policy(true, false).lineage_head;
    assert_eq!(head.receipts, ReceiptPolicy::VerifyIfPresent);
    assert_eq!(head.max_clock_skew_seconds, 120);
    assert_eq!(head.max_age_seconds, Some(300));
    let in_walk = r.node_policy(false, true).revocations.discover.unwrap();
    assert_eq!(in_walk.freshness, Span::from_secs(30));
    assert_eq!(
        RevocationDiscovery { freshness: Span::zero(), ..in_walk },
        RevocationDiscovery::all_trust_classes()
    );
}

#[test]
fn a_shared_cache_is_handed_out() {
    let r = Resolver::new();
    assert_eq!(r.revocation_cache(), None);
    assert_eq!(r.with_revocation_cache("shared").revocation_cache(), Some(&"shared"));
}

fn body(id: &str, parents: &[&str]) -> Body {
    Body {
        ctx_id: CtxId(format!("acdp://r/{id}")),
        lineage_id: LineageId("lin:sha256:0".to_string()),
        version: 1,
        agent_id: AgentDid::new("did:web:agents.example.com:p"),
        context_type: ContextType::Standard("data_snapshot".to_string()),
        visibility: Visibility::Public,
        metadata: None,
        data_refs: vec![],
        derived_from: parents.iter().map(|p| CtxId(format!("acdp://r/{p}"))).collect(),
        content_hash: ContentHash("sha256:0".to_string()),
        signature: Signature {
            algorithm: "ed25519".to_string(),
            key_id: "did:web:agents.example.com:p#key-1".to_string(),
        },
    }
}

fn verified(id: &str, parents: &[&str]) -> VerifiedContext {
    let body = body(id, parents);
    let ctx_id = body.ctx_id.clone();
    let evidence = RetrievalEvidence {
        schema: Ok(()),
        hash: Ok(()),
        receipt_key: Ok("sha256:key".to_string()),
        receipt: Err(AcdpError::Http("unused".to_string())),
        discovery: DiscoveryRun::TimedOut,
        facts: vec![],
        revocation_key: Ok("sha256:key".to_string()),
        signature: Ok(()),
        historical: Ok(()),
    };
    let ctx = FullContext {
        body,
        registry_state: RegistryState { status: Status::Active },
        registry_receipt: None,
        lineage_head_receipt: None,
    };
    VerifiedContext::fetch_with_policy(
        Ok(ctx),
        ctx_id,
        &Resolver::new().node_policy(false, false),
        Some("r".to_string()),
        &evidence,
    )
    .unwrap()
}

/// Walks a graph in which every context is given by its parents, and gives
/// the identifiers asked for and the outcome.
fn walk(
    resolver: &Resolver,
    root: &Body,
    graph: &[(&str, &[&str])],
) -> (Vec<String>, Result<Vec<String>, AcdpError>) {
    let mut asked = vec![];
    let mut progress = resolver.walk_derived_from(root);
    loop {
        match progress {
            DerivedProgress::Finished(r) => {
                let ids = r.map(|found| {
                    found.iter().map(|v| v.body().ctx_id.as_str()["acdp://r/".len()..].to_string()).collect()
                });
                return (asked, ids);
            }
            DerivedProgress::Pending(w) => {
                let id = w.next().as_str()["acdp://r/".len()..].to_string();
                let resolved = match graph.iter().find(|(n, _)| *n == id) {
                    Some((n, parents)) => Ok(verified(n, parents)),
                    None => Err(AcdpError::Http(format!("no {id}"))),
                };
                asked.push(id);
                progress = w.advance(resolved);
            }
        }
    }
}

#[test]
fn closer_ancestors_are_returned_first() {
    let graph: &[(&str, &[&str])] =
        &[("a", &["c", "d"]), ("b", &["d", "e"]), ("c", &[]), ("d", &["f"]), ("e", &[]), ("f", &[])];
    let (asked, found) = walk(&Resolver::new(), &body("root", &["a", "b"]), graph);
    assert_eq!(found.unwrap(), vec!["a", "b", "c", "d", "e", "f"]);
    assert_eq!(asked, vec!["a", "b", "c", "d", "e", "f"]);
}

#[test]
fn cycle_detection_short_circuits() {
    let graph: &[(&str, &[&str])] = &[("a", &["b"]), ("b", &["a", "root", "b"])];
    let (asked, found) = walk(&Resolver::new(), &body("root", &["a", "a", "root"]), graph);
    assert_eq!(found.unwrap(), vec!["a", "b"]);
    assert_eq!(asked, vec!["a", "b"]);
}

#[test]
fn a_context_without_parents_needs_no_walk() {
    let (asked, found) = walk(&Resolver::new(), &body("root", &[]), &[]);
    assert_eq!(found.unwrap(), Vec::<String>::new());
    assert!(asked.is_empty());
}

#[test]
fn a_walk_stays_within_its_limits() {
    let chain: &[(&str, &[&str])] = &[("a", &["b"]), ("b", &["c"]), ("c", &[])];
    let (_, deep) = walk(&Resolver::new().with_max_depth(2), &body("root", &["a"]), chain);
    assert_eq!(
        deep,
        Err(AcdpError::CrossRegistryResolutionFailed(ResolutionFault::Depth {
            ctx_id: "acdp://r/c".to_string(),
            limit: 2,
        }))
    );
    let (_, just) = walk(&Resolver::new().with_max_depth(3), &body("root", &["a"]), chain);
    assert!(just.is_ok());

    let few = Resolver::new()
        .with_options(ResolverOptions { max_nodes: 2, ..ResolverOptions::default() });
    let (asked, many) = walk(&few, &body("root", &["a"]), chain);
    assert_eq!(
        many,
        Err(AcdpError::CrossRegistryResolutionFailed(ResolutionFault::Nodes {
            ctx_id: "acdp://r/c".to_string(),
            limit: 2,
        }))
    );
    assert_eq!(asked, vec!["a", "b"]);

    let narrow = Resolver::new()
        .with_options(ResolverOptions { max_fanout: 1, ..ResolverOptions::default() });
    let (asked, wide_root) = walk(&narrow, &body("root", &["a", "b"]), chain);
    assert_eq!(
        wide_root,
        Err(AcdpError::CrossRegistryResolutionFailed(ResolutionFault::RootFanout {
            ctx_id: "acdp://r/root".to_string(),
            count: 2,
            limit: 1,
        }))
    );
    assert!(asked.is_empty());
    let (_, wide) = walk(&narrow, &body("root", &["a"]), &[("a", &["b", "c"])]);
    assert_eq!(
        wide,
        Err(AcdpError::CrossRegistryResolutionFailed(ResolutionFault::Fanout {
            ctx_id: "acdp://r/a".to_string(),
            count: 2,
            limit: 1,
        }))
    );
}

#[test]
fn a_walk_fails_with_the_resolution_that_fails() {
    let (_, failed) = walk(&Resolver::new(), &body("root", &["a"]), &[("a", &["missing"])]);
    assert_eq!(failed, Err(AcdpError::Http("no missing".to_string())));
}

#[test]
fn a_walk_that_takes_too_long_says_how_long_it_may_take() {
    assert_eq!(
        walk_timeout(&ResolverOptions::default()),
        AcdpError::CrossRegistryResolutionFailed(ResolutionFault::WalkTimeout {
            allowed: Span::from_secs(30),
        })
    );
}

#[test]
fn a_walk_with_its_own_cache_searches_a_registry_once() {
    let r = Resolver::new().with_revocation_policy(
        RevocationPolicy::new(vec![]).with_discovery(RevocationDiscovery::producer_signed_only()),
    );
    let producer = AgentDid::new("did:web:agents.example.com:p");
    let mut cache = RevocationCache::new();
    let class = RevocationTrustClass::ProducerSigned;
    let minted = Moment { nanos: 7 };
    record_search(&mut cache, Some("r.example"), &producer, class, &Ok(vec![]), minted);
    let searched = |in_walk: bool, nanos: u64| {
        let freshness = r.node_policy(false, in_walk).revocations.discover.unwrap().freshness;
        let start = find_revocations(
            &producer,
            Ok(()),
            Some((&cache, freshness)),
            Some("r.example"),
            Moment { nanos },
        );
        matches!(start, Ok(SearchStart::Search(_)))
    };
    assert!(!searched(true, 30 * SECOND));
    assert!(searched(true, 31 * SECOND));
    assert!(searched(false, 8));
}
