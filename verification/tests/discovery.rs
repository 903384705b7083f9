use acdp::discovery::{
    Candidate, Discovery, DiscoveryAction, DiscoveryEvent, DiscoveryProgress, DiscoveryScope, Dropped,
    SearchEnd, SearchMatch, SearchPage, SearchRequest, MAX_LINEAGE_WALKS, MAX_SEARCH_PAGES, SEARCH_PASSES,
};
use acdp::error::{AcdpError, Truncation};
use acdp::key_revocation::{KeyRevocation, RevocationTrustClass};
use acdp::lineage_walk::{
    find_revocations_in_lineage, LineageWalk, WalkAction, WalkEvent, WalkProgress,
};
use acdp::revocation::{
    attested_search, find_registry_attested_revocations, find_revocations, record_search,
    AttestedStart, SearchStart,
};
use acdp::revocation_cache::RevocationCache;
use acdp::time::{Moment, Span, Timestamp};
use acdp::types::{AgentDid, CtxId, LineageId};

const P: &str = "did:web:agents.example.com:p";
const REGISTRY: &str = "did:web:registry.example.com";

fn rev(fp: &str, publisher: &str, class: RevocationTrustClass) -> KeyRevocation {
    KeyRevocation {
        revoked_key_fingerprint: fp.to_string(),
        compromised_since: Timestamp { secs: 1, nanos: 0 },
        reason: None,
        revoked_key_id: None,
        revoked_key_controller: AgentDid::new(P),
        publisher: AgentDid::new(publisher),
        trust_class: class,
    }
}

fn own(fp: &str) -> KeyRevocation {
    rev(fp, P, RevocationTrustClass::ProducerSigned)
}

fn transient() -> AcdpError {
    AcdpError::Http("down".to_string())
}

fn permanent() -> AcdpError {
    AcdpError::InvalidSignature("bad".to_string())
}

fn page(ids: &[(&str, &str)], next: Option<&str>) -> Result<SearchPage, AcdpError> {
    Ok(SearchPage {
        matches: ids
            .iter()
            .map(|(c, l)| SearchMatch {
                ctx_id: CtxId(c.to_string()),
                lineage_id: LineageId(l.to_string()),
            })
            .collect(),
        next_cursor: next.map(str::to_string),
    })
}

/// A registry that answers searches by combination and page, and knows
/// contexts and lineages by their identifiers.
struct Registry {
    search: fn(usize, usize) -> Result<SearchPage, AcdpError>,
    context: fn(&str) -> Candidate,
    lineage: fn(&str) -> Result<Vec<&'static str>, AcdpError>,
    member: fn(&str, usize) -> Result<KeyRevocation, AcdpError>,
}

fn run(
    scope: DiscoveryScope,
    registry: &Registry,
) -> (Vec<DiscoveryAction>, Result<Vec<KeyRevocation>, AcdpError>) {
    let (asked, end) = run_to_end(scope, registry);
    (asked, end.result)
}

fn run_to_end(scope: DiscoveryScope, registry: &Registry) -> (Vec<DiscoveryAction>, SearchEnd) {
    let mut asked = vec![];
    let mut progress = DiscoveryProgress::Pending(Discovery::start(scope));
    loop {
        match progress {
            DiscoveryProgress::Finished(end) => return (asked, end),
            DiscoveryProgress::Pending(d) => {
                let action = d.action();
                let event = match &action {
                    DiscoveryAction::Search(r) => {
                        DiscoveryEvent::Page((registry.search)(r.pass, r.page))
                    }
                    DiscoveryAction::Retrieve(id) => {
                        DiscoveryEvent::Retrieved((registry.context)(id))
                    }
                    DiscoveryAction::Walk { lineage_id, action } => {
                        DiscoveryEvent::Walked(match action {
                            WalkAction::FetchLineage => WalkEvent::Listing(
                                (registry.lineage)(lineage_id).map(|ids| {
                                    ids.iter().map(|c| CtxId(c.to_string())).collect()
                                }),
                            ),
                            WalkAction::VerifyMember(k) => {
                                WalkEvent::Member((registry.member)(lineage_id, *k))
                            }
                        })
                    }
                };
                asked.push(action);
                progress = d.advance(event);
            }
        }
    }
}

fn producer_scope() -> DiscoveryScope {
    DiscoveryScope::ProducerSigned { agent_id: AgentDid::new(P) }
}

const EMPTY: Registry = Registry {
    search: |_, _| page(&[], None),
    context: |_| Candidate::Unavailable(AcdpError::Http("down".to_string())),
    lineage: |_| Ok(vec![]),
    member: |_, _| Err(AcdpError::Http("down".to_string())),
};

#[test]
fn every_type_and_status_is_searched() {
    let (asked, found) = run(producer_scope(), &EMPTY);
    assert_eq!(found, Ok(vec![]));
    let expected: Vec<DiscoveryAction> = [
        ("key-revocation", "active"),
        ("key-revocation", "superseded"),
        ("key-revocation", "retracted"),
        ("acdp:key-revocation", "active"),
        ("acdp:key-revocation", "superseded"),
        ("acdp:key-revocation", "retracted"),
    ]
    .iter()
    .enumerate()
    .map(|(pass, (t, s))| {
        DiscoveryAction::Search(SearchRequest {
            pass,
            page: 0,
            context_type: t.to_string(),
            agent_id: P.to_string(),
            status: s.to_string(),
            limit: 100,
            cursor: None,
        })
    })
    .collect();
    assert_eq!(asked, expected);
    assert_eq!(SEARCH_PASSES, 6);
}

#[test]
fn pages_are_followed_and_no_context_is_retrieved_twice() {
    let registry = Registry {
        search: |pass, n| match (pass, n) {
            (0, 0) => page(&[("a", "l")], Some("next")),
            (0, 1) => page(&[("a", "l"), ("b", "l")], None),
            (3, 0) => page(&[("b", "l")], None),
            _ => page(&[], None),
        },
        context: |id| Candidate::Checked(Ok(own(id))),
        lineage: |_| Ok(vec!["a", "b", "hidden"]),
        member: |_, k| Ok(own(["a", "b", "hidden"][k])),
    };
    let (asked, found) = run(producer_scope(), &registry);
    let found = found.unwrap();
    for id in ["a", "b", "hidden"] {
        assert!(found.contains(&own(id)));
    }
    let retrieved: Vec<&DiscoveryAction> =
        asked.iter().filter(|a| matches!(a, DiscoveryAction::Retrieve(_))).collect();
    assert_eq!(
        retrieved,
        vec![
            &DiscoveryAction::Retrieve("a".to_string()),
            &DiscoveryAction::Retrieve("b".to_string())
        ]
    );
    assert!(asked.iter().any(|a| matches!(
        a,
        DiscoveryAction::Search(r) if r.page == 1 && r.cursor.as_deref() == Some("next")
    )));
}

#[test]
fn too_many_pages_fail_the_search() {
    let registry = Registry { search: |_, _| page(&[], Some("more")), ..EMPTY };
    let (asked, found) = run(producer_scope(), &registry);
    assert_eq!(asked.len(), MAX_SEARCH_PAGES);
    assert_eq!(
        found,
        Err(AcdpError::SearchTruncated(Truncation::Pages {
            searched: P.to_string(),
            type_form: "key-revocation".to_string(),
            status: "active".to_string(),
        }))
    );
}

#[test]
fn too_many_lineages_fail_the_search() {
    let registry = Registry {
        search: |pass, n| {
            if pass > 0 {
                return page(&[], None);
            }
            let names: Vec<String> = (0..51).map(|i| format!("{n}-{i}")).collect();
            let ids: Vec<(&str, &str)> =
                names.iter().map(|s| (s.as_str(), s.as_str())).collect();
            page(&ids, if n == 0 { Some("next") } else { None })
        },
        context: |_| Candidate::Checked(Err(AcdpError::InvalidSignature("bad".to_string()))),
        ..EMPTY
    };
    let (_, found) = run(producer_scope(), &registry);
    assert!(102 > MAX_LINEAGE_WALKS);
    assert_eq!(
        found,
        Err(AcdpError::SearchTruncated(Truncation::Lineages {
            searched: P.to_string(),
            count: 102,
        }))
    );
}

#[test]
fn a_failure_that_may_pass_fails_the_search_and_another_is_left_out() {
    let one = |search, context, lineage, member| {
        run(producer_scope(), &Registry { search, context, lineage, member }).1
    };
    let searched: fn(usize, usize) -> Result<SearchPage, AcdpError> =
        |pass, _| if pass == 0 { page(&[("a", "l")], None) } else { page(&[], None) };
    assert_eq!(
        one(|_, _| Err(transient()), EMPTY.context, EMPTY.lineage, EMPTY.member),
        Err(transient())
    );
    assert_eq!(
        one(|_, _| Err(permanent()), EMPTY.context, EMPTY.lineage, EMPTY.member),
        Err(permanent())
    );
    assert_eq!(
        one(searched, |_| Candidate::Checked(Err(transient())), EMPTY.lineage, EMPTY.member),
        Err(transient())
    );
    assert_eq!(
        one(
            searched,
            |_| Candidate::Checked(Err(permanent())),
            |_| Ok(vec!["a"]),
            |_, _| Err(permanent())
        ),
        Ok(vec![])
    );
    assert_eq!(
        one(searched, |_| Candidate::Checked(Ok(own("a"))), |_| Ok(vec!["b"]), |_, _| Ok(own("b"))),
        Err(AcdpError::IncompleteLineage {
            lineage_id: "l".to_string(),
            ctx_id: Some("a".to_string()),
        })
    );
}

#[test]
fn what_is_out_of_scope_is_dropped_whatever_the_registry_says() {
    let foreign = || rev("f", "did:web:evil.example", RevocationTrustClass::ProducerSigned);
    assert!(!producer_scope().keep(&foreign()));
    assert!(!producer_scope().keep(&rev("f", P, RevocationTrustClass::RegistryAttested)));
    assert!(producer_scope().keep(&own("f")));
    let registry = Registry {
        search: |pass, _| if pass == 0 { page(&[("a", "l")], None) } else { page(&[], None) },
        context: |_| {
            Candidate::Checked(Ok(rev(
                "f",
                "did:web:evil.example",
                RevocationTrustClass::ProducerSigned,
            )))
        },
        lineage: |_| Ok(vec!["a"]),
        member: |_, _| {
            Ok(rev("f", "did:web:evil.example", RevocationTrustClass::ProducerSigned))
        },
    };
    assert_eq!(run(producer_scope(), &registry).1, Ok(vec![]));
}

#[test]
fn what_is_dropped_is_reported_once_with_where_it_came_from() {
    let registry = Registry {
        search: |pass, _| match pass {
            0 | 1 => page(&[("a", "l"), ("b", "l")], None),
            _ => page(&[], None),
        },
        context: |id| {
            Candidate::Checked(Ok(match id {
                "a" => rev("fa", "did:web:evil.example", RevocationTrustClass::ProducerSigned),
                other => own(other),
            }))
        },
        lineage: |_| Ok(vec!["a", "b", "c"]),
        member: |_, k| match k {
            0 => Ok(rev("fa", "did:web:evil.example", RevocationTrustClass::ProducerSigned)),
            1 => Ok(own("b")),
            _ => Ok(rev("fc", P, RevocationTrustClass::RegistryAttested)),
        },
    };
    let dropped = || {
        vec![
            Dropped {
                ctx_id: CtxId("a".to_string()),
                revocation: rev(
                    "fa",
                    "did:web:evil.example",
                    RevocationTrustClass::ProducerSigned,
                ),
                from_walk: false,
            },
            Dropped {
                ctx_id: CtxId("c".to_string()),
                revocation: rev("fc", P, RevocationTrustClass::RegistryAttested),
                from_walk: true,
            },
        ]
    };
    let (_, end) = run_to_end(producer_scope(), &registry);
    assert_eq!(end, SearchEnd { result: Ok(vec![own("b")]), dropped: dropped() });

    let failing = Registry { member: |_, _| Err(transient()), ..registry };
    let (_, end) = run_to_end(producer_scope(), &failing);
    assert_eq!(end.result, Err(transient()));
    assert_eq!(end.dropped, dropped()[..1].iter().map(copy_of).collect::<Vec<_>>());
}

fn copy_of(d: &Dropped) -> Dropped {
    Dropped {
        ctx_id: d.ctx_id.clone(),
        revocation: d.revocation.clone(),
        from_walk: d.from_walk,
    }
}

#[test]
fn drops_can_be_seen_while_a_search_runs() {
    let start = Discovery::start(producer_scope());
    assert!(start.dropped().is_empty());
    let found = match start.advance(DiscoveryEvent::Page(page(&[("a", "l"), ("b", "l")], None))) {
        DiscoveryProgress::Pending(d) => d,
        DiscoveryProgress::Finished(end) => panic!("{end:?}"),
    };
    let foreign = rev("fa", "did:web:evil.example", RevocationTrustClass::ProducerSigned);
    let on = match found.advance(DiscoveryEvent::Retrieved(Candidate::Checked(Ok(foreign)))) {
        DiscoveryProgress::Pending(d) => d,
        DiscoveryProgress::Finished(end) => panic!("{end:?}"),
    };
    assert_eq!(on.dropped().len(), 1);
    assert_eq!(on.dropped()[0].ctx_id, CtxId("a".to_string()));
    match on.advance(DiscoveryEvent::Retrieved(Candidate::Unavailable(transient()))) {
        DiscoveryProgress::Finished(end) => {
            assert_eq!(end.result, Err(transient()));
            assert_eq!(end.dropped.len(), 1);
        }
        DiscoveryProgress::Pending(_) => panic!("the search goes on"),
    }
}

#[test]
fn an_attested_revocation_must_come_from_the_registry_itself() {
    let scope = DiscoveryScope::RegistryAttested {
        controller: AgentDid::new(P),
        serving_authority: "registry.example.com".to_string(),
        registry_did: REGISTRY.to_string(),
    };
    assert!(scope.keep(&rev("f", REGISTRY, RevocationTrustClass::RegistryAttested)));
    assert!(!scope.keep(&rev("f", "did:web:evil.example", RevocationTrustClass::RegistryAttested)));
    let mut other = rev("f", REGISTRY, RevocationTrustClass::RegistryAttested);
    other.revoked_key_controller = AgentDid::new("did:web:other.example");
    assert!(!scope.keep(&other));
    let (asked, _) = run(scope, &EMPTY);
    assert!(matches!(&asked[0], DiscoveryAction::Search(r) if r.agent_id == REGISTRY));
}

fn walk(
    expected: Option<&str>,
    listing: Result<Vec<&str>, AcdpError>,
    members: Vec<Result<KeyRevocation, AcdpError>>,
) -> Result<Vec<KeyRevocation>, AcdpError> {
    let start = LineageWalk::start(
        LineageId("l".to_string()),
        expected.map(|c| CtxId(c.to_string())),
    );
    assert_eq!(start.lineage_id(), &LineageId("l".to_string()));
    let mut listing =
        Some(listing.map(|ids| ids.iter().map(|c| CtxId(c.to_string())).collect::<Vec<_>>()));
    let mut progress = WalkProgress::Pending(start);
    loop {
        match progress {
            WalkProgress::Finished(r) => return find_revocations_in_lineage(r),
            WalkProgress::Pending(w) => {
                let event = match w.action() {
                    WalkAction::FetchLineage => WalkEvent::Listing(listing.take().unwrap()),
                    WalkAction::VerifyMember(k) => WalkEvent::Member(match &members[k] {
                        Ok(r) => Ok(r.clone()),
                        Err(e) => Err(e.clone()),
                    }),
                };
                progress = w.advance(event);
            }
        }
    }
}

#[test]
fn a_walk_gives_every_member_that_verifies() {
    assert_eq!(
        walk(Some("b"), Ok(vec!["a", "b", "c"]), vec![Ok(own("a")), Err(permanent()), Ok(own("c"))]),
        Ok(vec![own("a"), own("c")])
    );
}

#[test]
fn a_walk_fails_where_it_could_not_look() {
    assert_eq!(walk(None, Err(permanent()), vec![]), Err(permanent()));
    assert_eq!(
        walk(None, Ok(vec![]), vec![]),
        Err(AcdpError::IncompleteLineage { lineage_id: "l".to_string(), ctx_id: None })
    );
    assert_eq!(
        walk(Some("x"), Ok(vec!["a"]), vec![Ok(own("a"))]),
        Err(AcdpError::IncompleteLineage {
            lineage_id: "l".to_string(),
            ctx_id: Some("x".to_string()),
        })
    );
    assert_eq!(
        walk(None, Ok(vec!["a", "b"]), vec![Ok(own("a")), Err(transient())]),
        Err(transient())
    );
}

const NOW: Moment = Moment { nanos: 5 };

#[test]
fn a_fresh_marker_makes_a_search_unnecessary() {
    let p = AgentDid::new(P);
    let mut cache = RevocationCache::new();
    let class = RevocationTrustClass::ProducerSigned;
    let minute = Span::from_secs(60);
    assert!(matches!(
        find_revocations(&p, Ok(()), Some((&cache, minute)), Some("r.example"), NOW),
        Ok(SearchStart::Search(_))
    ));
    record_search(&mut cache, Some("r.example"), &p, class, &Ok(vec![own("a")]), NOW);
    assert_eq!(cache.facts_for(P, false), vec![own("a")]);
    assert!(matches!(
        find_revocations(&p, Ok(()), Some((&cache, minute)), Some("r.example"), NOW),
        Ok(SearchStart::Fresh)
    ));
    assert!(matches!(
        find_revocations(&p, Ok(()), Some((&cache, minute)), Some("other.example"), NOW),
        Ok(SearchStart::Search(_))
    ));
    assert!(matches!(
        find_revocations(&p, Ok(()), Some((&cache, Span::zero())), Some("r.example"), NOW),
        Ok(SearchStart::Search(_))
    ));
    assert_eq!(
        find_registry_attested_revocations(&p, Ok(()), Some((&cache, minute)), Some("r.example"), NOW),
        Ok(AttestedStart::FetchCapabilities)
    );
    record_search(
        &mut cache,
        Some("r.example"),
        &p,
        RevocationTrustClass::RegistryAttested,
        &Ok(vec![]),
        NOW,
    );
    assert_eq!(
        find_registry_attested_revocations(&p, Ok(()), Some((&cache, minute)), Some("r.example"), NOW),
        Ok(AttestedStart::Fresh)
    );
}

#[test]
fn a_failed_search_leaves_no_marker() {
    let p = AgentDid::new(P);
    let mut cache = RevocationCache::new();
    let class = RevocationTrustClass::ProducerSigned;
    record_search(&mut cache, Some("r.example"), &p, class, &Err(transient()), NOW);
    record_search(&mut cache, None, &p, class, &Ok(vec![own("a")]), NOW);
    assert!(!cache.marker_fresh("r.example", P, class, Span::from_secs(60), NOW));
    assert!(cache.facts_for(P, true).is_empty());
}

#[test]
fn a_search_needs_a_proper_identity() {
    let p = AgentDid::new("not-a-did");
    assert!(matches!(
        find_revocations(&p, Err(permanent()), None, None, NOW),
        Err(e) if e == permanent()
    ));
    assert_eq!(
        find_registry_attested_revocations(&p, Err(permanent()), None, None, NOW),
        Err(permanent())
    );
}

#[test]
fn an_attested_search_needs_the_registry_identity() {
    let p = AgentDid::new(P);
    let with = |did, check, authority: Option<&str>| {
        attested_search(&p, did, check, authority.map(str::to_string))
    };
    assert!(matches!(with(Err(transient()), Ok(()), Some("r")), Err(e) if e == transient()));
    assert!(matches!(
        with(Ok(REGISTRY.to_string()), Err(permanent()), Some("r")),
        Err(e) if e == permanent()
    ));
    let d = with(Ok(REGISTRY.to_string()), Ok(()), Some("registry.example.com")).ok().unwrap();
    assert!(matches!(
        d.action(),
        DiscoveryAction::Search(r) if r.agent_id == REGISTRY && r.pass == 0
    ));
}
