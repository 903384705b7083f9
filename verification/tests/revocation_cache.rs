use acdp::key_revocation::{KeyRevocation, RevocationTrustClass};
use acdp::revocation_cache::{class_key, RevocationCache, MAX_CACHE_ENTRIES, MAX_FACTS_PER_ENTRY};
use acdp::time::{parse_canonical_ms, Moment, Span};
use acdp::types::AgentDid;

fn rev(fp: &str, class: RevocationTrustClass) -> KeyRevocation {
    KeyRevocation {
        revoked_key_fingerprint: fp.to_string(),
        compromised_since: parse_canonical_ms("2026-05-01T00:00:00.000Z").unwrap(),
        reason: None,
        revoked_key_id: None,
        revoked_key_controller: AgentDid::new("did:web:agents.example.com:p"),
        publisher: AgentDid::new("did:web:agents.example.com:p"),
        trust_class: class,
    }
}

const NOW: Moment = Moment { nanos: 1_000_000_000 };

#[test]
fn record_success_dedups_identical_facts() {
    let mut cache = RevocationCache::new();
    let facts = vec![rev("sha256:aaaa", RevocationTrustClass::ProducerSigned)];
    for _ in 0..5 {
        cache.record_success(
            "reg.example",
            "did:web:p",
            RevocationTrustClass::ProducerSigned,
            &facts,
            NOW,
        );
    }
    assert_eq!(cache.facts_for("did:web:p", true).len(), 1);
}

#[test]
fn record_success_caps_facts_and_drops_markers_at_cap() {
    let mut cache = RevocationCache::new();
    for i in 0..(MAX_FACTS_PER_ENTRY + 5) {
        let fp = format!("sha256:{i:064x}");
        cache.record_success(
            "reg.example",
            "did:web:p",
            RevocationTrustClass::ProducerSigned,
            &vec![rev(&fp, RevocationTrustClass::ProducerSigned)],
            NOW,
        );
    }
    assert_eq!(cache.facts_for("did:web:p", true).len(), MAX_FACTS_PER_ENTRY);
    assert!(!cache.marker_fresh(
        "reg.example",
        "did:web:p",
        RevocationTrustClass::ProducerSigned,
        Span::from_secs(3600),
        NOW,
    ));
}

#[test]
fn facts_for_filters_by_trust_class() {
    let mut cache = RevocationCache::new();
    cache.record_success(
        "reg.example",
        "did:web:p",
        RevocationTrustClass::RegistryAttested,
        &vec![rev("sha256:bbbb", RevocationTrustClass::RegistryAttested)],
        NOW,
    );
    assert!(cache.facts_for("did:web:p", false).is_empty());
    assert_eq!(cache.facts_for("did:web:p", true).len(), 1);
}

#[test]
fn markers_are_per_vantage() {
    let mut cache = RevocationCache::new();
    cache.record_success(
        "a.example",
        "did:web:p",
        RevocationTrustClass::ProducerSigned,
        &vec![],
        NOW,
    );
    assert!(cache.marker_fresh(
        "a.example",
        "did:web:p",
        RevocationTrustClass::ProducerSigned,
        Span::from_secs(60),
        NOW,
    ));
    assert!(!cache.marker_fresh(
        "b.example",
        "did:web:p",
        RevocationTrustClass::ProducerSigned,
        Span::from_secs(60),
        NOW,
    ));
}

#[test]
fn markers_are_per_trust_class() {
    let mut cache = RevocationCache::new();
    cache.record_success(
        "a.example",
        "did:web:p",
        RevocationTrustClass::ProducerSigned,
        &vec![],
        NOW,
    );
    assert!(!cache.marker_fresh(
        "a.example",
        "did:web:p",
        RevocationTrustClass::RegistryAttested,
        Span::from_secs(60),
        NOW,
    ));
}

#[test]
fn zero_freshness_never_suppresses() {
    let mut cache = RevocationCache::new();
    cache.record_success(
        "a.example",
        "did:web:p",
        RevocationTrustClass::ProducerSigned,
        &vec![],
        NOW,
    );
    assert!(!cache.marker_fresh(
        "a.example",
        "did:web:p",
        RevocationTrustClass::ProducerSigned,
        Span::zero(),
        NOW,
    ));
}

#[test]
fn eviction_at_capacity_removes_facts_and_markers_together() {
    let mut cache = RevocationCache::new();
    for i in 0..MAX_CACHE_ENTRIES {
        let agent = format!("did:web:p{i}");
        let fp = format!("sha256:{i:064x}");
        cache.record_success(
            "reg.example",
            &agent,
            RevocationTrustClass::ProducerSigned,
            &vec![rev(&fp, RevocationTrustClass::ProducerSigned)],
            NOW,
        );
    }
    for i in 0..MAX_CACHE_ENTRIES {
        let agent = format!("did:web:p{i}");
        assert_eq!(
            cache.facts_for(&agent, true).len(),
            1,
            "entry {i} must have its fact before eviction pressure"
        );
    }

    let overflow_agent = "did:web:overflow";
    cache.record_success(
        "reg.example",
        overflow_agent,
        RevocationTrustClass::ProducerSigned,
        &vec![rev(
            "sha256:overff0000000000000000000000000000000000000000000000000000000",
            RevocationTrustClass::ProducerSigned,
        )],
        NOW,
    );

    let mut evicted = 0;
    for i in 0..MAX_CACHE_ENTRIES {
        let agent = format!("did:web:p{i}");
        let has_fact = !cache.facts_for(&agent, true).is_empty();
        let has_marker = cache.marker_fresh(
            "reg.example",
            &agent,
            RevocationTrustClass::ProducerSigned,
            Span::from_secs(3600),
            NOW,
        );
        assert_eq!(
            has_fact, has_marker,
            "entry {i}: fact presence ({has_fact}) and marker presence \
             ({has_marker}) must never disagree"
        );
        if !has_fact {
            evicted += 1;
        }
    }
    assert_eq!(
        evicted, 1,
        "capacity-triggered eviction must remove exactly one existing entry"
    );
    assert!(
        !cache.facts_for(overflow_agent, true).is_empty(),
        "the newly-inserted entry must itself survive"
    );
}

#[test]
fn a_marker_goes_stale_when_its_time_is_over() {
    let mut cache = RevocationCache::new();
    cache.record_success(
        "a.example",
        "did:web:p",
        RevocationTrustClass::ProducerSigned,
        &vec![],
        NOW,
    );
    let fresh_at = |nanos: u64| {
        cache.marker_fresh(
            "a.example",
            "did:web:p",
            RevocationTrustClass::ProducerSigned,
            Span::from_secs(60),
            Moment { nanos },
        )
    };
    assert!(fresh_at(NOW.nanos + 59_999_999_999));
    assert!(!fresh_at(NOW.nanos + 60_000_000_000));
}

#[test]
fn a_fresh_marker_goes_with_a_search_since_which_nothing_was_lost() {
    let class = RevocationTrustClass::ProducerSigned;
    let fresh = |cache: &RevocationCache| {
        cache.marker_fresh("a.example", "did:web:p", class, Span::from_secs(60), NOW)
    };
    let mut cache = RevocationCache::new();
    cache.record_success("b.example", "did:web:p", class, &vec![], NOW);
    cache.record_success("a.example", "did:web:q", class, &vec![], NOW);
    assert!(!fresh(&cache));
    cache.record_success("a.example", "did:web:p", class, &vec![], NOW);
    cache.record_success("a.example", "did:web:q", class, &vec![], NOW);
    assert!(fresh(&cache));
    let many: Vec<KeyRevocation> =
        (0..300).map(|i| rev(&format!("sha256:{i:064x}"), class)).collect();
    cache.record_success("b.example", "did:web:p", class, &many, NOW);
    assert!(!fresh(&cache));
    assert_eq!(cache.facts_for("did:web:p", true).len(), 256);
}

#[test]
fn a_marker_outlives_the_searches_about_other_producers() {
    let class = RevocationTrustClass::ProducerSigned;
    let mut cache = RevocationCache::new();
    cache.record_success("a.example", "did:web:p", class, &vec![], NOW);
    for i in 1..MAX_CACHE_ENTRIES {
        let later = Moment { nanos: NOW.nanos + i as u64 };
        cache.record_success("a.example", &format!("did:web:q{i}"), class, &vec![], later);
        cache.record_success("b.example", "did:web:p", class, &vec![], later);
    }
    let at = |nanos: u64| {
        cache.marker_fresh(
            "a.example",
            "did:web:p",
            class,
            Span::from_secs(30),
            Moment { nanos: NOW.nanos + nanos },
        )
    };
    assert!(at(29_999_999_999));
    assert!(!at(30_000_000_000));
}

#[test]
fn a_later_search_keeps_earlier_facts() {
    let mut cache = RevocationCache::default();
    cache.record_success(
        "a.example",
        "did:web:p",
        RevocationTrustClass::ProducerSigned,
        &vec![rev("sha256:aaaa", RevocationTrustClass::ProducerSigned)],
        NOW,
    );
    cache.record_success(
        "b.example",
        "did:web:p",
        RevocationTrustClass::ProducerSigned,
        &vec![],
        NOW,
    );
    let facts = cache.facts_for("did:web:p", false);
    assert_eq!(facts, vec![rev("sha256:aaaa", RevocationTrustClass::ProducerSigned)]);
    assert!(cache.facts_for("did:web:q", true).is_empty());
}

#[test]
fn the_two_classes_have_different_keys() {
    assert_ne!(
        class_key(RevocationTrustClass::ProducerSigned),
        class_key(RevocationTrustClass::RegistryAttested)
    );
}
