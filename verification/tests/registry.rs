use acdp::budget::DiscoveryBudget;
use acdp::error::{AcdpError, BudgetLimit, SchemaFault};
use acdp::registry::{
    authority_from, cache_ttl_from_response, parse_retrieval_metadata, parse_success, pin_from,
    publish_with_retry, redirect_policy, response_cap, retrieve_if_none_match,
    same_fetch_authority, same_parts, CappedBody, Endpoint, ErrorEnvelope, PublishStep,
    RedirectDecision, RegistryClient, RegistryClientBuilder, RetrievalMetadata, UrlParts,
    MAX_CONTEXT_BYTES, MAX_METADATA_BYTES,
};
use acdp::time::{Span, Timestamp};
use acdp::types::{CtxId, LineageId};

fn client(base: &str) -> RegistryClient<(), &'static str, &'static str> {
    RegistryClient::connect(base, ())
}

#[test]
fn a_client_knows_its_authority() {
    let authority = |base: &str| client(base).authority();
    assert_eq!(authority("https://r.example.com/").as_deref(), Some("r.example.com"));
    assert_eq!(authority("https://localhost:8443").as_deref(), Some("localhost:8443"));
    assert_eq!(authority("https://r.example.com:443").as_deref(), Some("r.example.com"));
    assert_eq!(authority("not an address"), None);
    assert_eq!(authority("data:text/plain,x"), None);
}

#[test]
fn an_authority_is_host_and_explicit_port() {
    let parts = |host: Option<&str>, port: Option<u16>| {
        Some(UrlParts {
            host: host.map(str::to_string),
            port,
            effective_port: Some(443),
            scheme: "https".to_string(),
        })
    };
    assert_eq!(authority_from(&parts(Some("h"), None)).as_deref(), Some("h"));
    assert_eq!(authority_from(&parts(Some("h"), Some(8443))).as_deref(), Some("h:8443"));
    assert_eq!(authority_from(&parts(None, Some(1))), None);
    assert_eq!(authority_from(&None), None);
}

#[test]
fn addresses_are_built_on_the_base() {
    let c = client("https://registry.example.com//");
    assert_eq!(c.capabilities_url(), "https://registry.example.com/.well-known/acdp.json");
    assert_eq!(c.contexts_url(), "https://registry.example.com/contexts");
    assert_eq!(c.search_url(), "https://registry.example.com/contexts/search");
    let id = CtxId("acdp://r.example/a b".to_string());
    assert_eq!(
        c.context_url(&id),
        "https://registry.example.com/contexts/acdp%3A%2F%2Fr.example%2Fa%20b"
    );
    assert_eq!(
        c.body_url(&id),
        "https://registry.example.com/contexts/acdp%3A%2F%2Fr.example%2Fa%20b/body"
    );
    let lineage = LineageId("lin:sha256:0".to_string());
    assert_eq!(c.lineage_url(&lineage), "https://registry.example.com/lineages/lin%3Asha256%3A0");
    assert_eq!(
        c.current_url(&lineage),
        "https://registry.example.com/lineages/lin%3Asha256%3A0/current"
    );
}

#[test]
fn an_identifier_cannot_leave_its_place_in_an_address() {
    let c = client("https://r.example");
    let url = c.context_url(&CtxId("../../é?x#y/~.-_".to_string()));
    assert_eq!(url, "https://r.example/contexts/..%2F..%2F%C3%A9%3Fx%23y%2F~.-_");
}

#[test]
fn what_is_attached_to_a_client_is_handed_out() {
    let c = client("https://r.example");
    assert_eq!(c.budget(), None);
    assert_eq!(c.revocation_cache(), None);
    let b = c.with_discovery_budget("budget");
    assert_eq!(b.budget(), Some(&"budget"));
    let k = b.with_revocation_cache("cache");
    assert_eq!(k.budget(), Some(&"budget"));
    assert_eq!(k.revocation_cache(), Some((&"cache", Span::zero())));
    let f = k.with_revocation_freshness(Span::from_secs(9));
    assert_eq!(f.revocation_cache(), Some((&"cache", Span::from_secs(9))));
    assert_eq!(f.http(), &());
}

#[test]
fn a_builder_has_the_usual_timeouts() {
    let b = RegistryClientBuilder::new("https://r.example/", "policy");
    assert!(!b.pinned);
    assert_eq!(b.connect_timeout, Span::from_secs(5));
    assert_eq!(b.request_timeout, Span::from_secs(30));
    assert_eq!(b.base(), "https://r.example");
    let b = b
        .pinned(true)
        .ssrf_policy("other")
        .root_cert_pem(vec![1, 2])
        .connect_timeout(Span::from_secs(1))
        .request_timeout(Span::from_secs(2));
    assert!(b.pinned);
    assert_eq!(b.ssrf_policy, "other");
    assert_eq!(b.root_cert_pem, Some(vec![1, 2]));
    assert_eq!(b.connect_timeout, Span::from_secs(1));
    assert_eq!(b.request_timeout, Span::from_secs(2));
}

#[test]
fn a_pinned_client_resolves_the_host_of_its_address() {
    let pin = |base: &str| RegistryClientBuilder::new(base, ()).pin_target(Ok(()));
    assert_eq!(pin("https://r.example/"), Ok(("r.example".to_string(), 443)));
    assert_eq!(pin("http://r.example"), Ok(("r.example".to_string(), 80)));
    assert_eq!(pin("https://r.example:8443"), Ok(("r.example".to_string(), 8443)));
    assert_eq!(
        pin("no address"),
        Err(AcdpError::SchemaViolation(SchemaFault::InvalidBaseUrl("no address".to_string())))
    );
    assert_eq!(
        pin("data:text/plain,x"),
        Err(AcdpError::SchemaViolation(SchemaFault::NoHost))
    );
    let refused = AcdpError::Http("private address".to_string());
    assert_eq!(
        RegistryClientBuilder::new("https://10.0.0.1", ()).pin_target(Err(refused.clone())),
        Err(refused)
    );
}

#[test]
fn a_host_without_a_known_port_gets_the_usual_one() {
    let parts = |scheme: &str| {
        Some(UrlParts {
            host: Some("h".to_string()),
            port: None,
            effective_port: None,
            scheme: scheme.to_string(),
        })
    };
    assert_eq!(pin_from("x", parts("http"), Ok(())), Ok(("h".to_string(), 80)));
    assert_eq!(pin_from("x", parts("foo"), Ok(())), Ok(("h".to_string(), 443)));
}

#[test]
fn three_redirects_within_an_authority_are_followed() {
    for followed in 0..3 {
        assert_eq!(redirect_policy(followed, true), RedirectDecision::Follow);
        assert_eq!(redirect_policy(followed, false), RedirectDecision::CrossAuthority);
    }
    assert_eq!(redirect_policy(3, true), RedirectDecision::TooMany);
    assert_eq!(redirect_policy(3, false), RedirectDecision::TooMany);
}

#[test]
fn a_transient_failure_is_retried_after_a_growing_delay() {
    let busy = || Err::<(), AcdpError>(AcdpError::Http("busy".to_string()));
    assert_eq!(publish_with_retry(0, 6, busy()), PublishStep::RetryAfter(250));
    assert_eq!(publish_with_retry(1, 6, busy()), PublishStep::RetryAfter(500));
    assert_eq!(publish_with_retry(2, 6, busy()), PublishStep::RetryAfter(1000));
    assert_eq!(publish_with_retry(3, 6, busy()), PublishStep::RetryAfter(2000));
    assert_eq!(publish_with_retry(4, 6, busy()), PublishStep::RetryAfter(2000));
    assert_eq!(publish_with_retry(5, 6, busy()), PublishStep::Done(busy()));
    assert_eq!(publish_with_retry(0, 0, busy()), PublishStep::Done(busy()));
    let bad = || Err::<(), AcdpError>(AcdpError::InvalidSignature("bad".to_string()));
    assert_eq!(publish_with_retry(0, 6, bad()), PublishStep::Done(bad()));
    assert_eq!(publish_with_retry(0, 6, Ok(7)), PublishStep::Done(Ok(7)));
}

#[test]
fn the_headers_of_a_retrieval_are_read() {
    assert_eq!(
        parse_retrieval_metadata(
            Some("\"abc\""),
            Some("max-age=60"),
            Some("Thu, 01 Jan 1970 00:00:10 GMT"),
        ),
        RetrievalMetadata {
            etag: Some("\"abc\"".to_string()),
            cache_control: Some("max-age=60".to_string()),
            last_modified: Some(Timestamp { secs: 10, nanos: 0 }),
        }
    );
    assert_eq!(parse_retrieval_metadata(None, None, Some("yesterday")), RetrievalMetadata::default());
}

#[test]
fn capabilities_are_kept_as_long_as_the_header_says() {
    let secs = |h: Option<&str>| {
        let ttl = cache_ttl_from_response(h);
        assert_eq!(ttl.nanos, 0);
        ttl.secs
    };
    assert_eq!(secs(None), 300);
    assert_eq!(secs(Some("no-store")), 300);
    assert_eq!(secs(Some("max-age=60")), 60);
    assert_eq!(secs(Some("public, max-age=0")), 0);
    assert_eq!(secs(Some("max-age=86400")), 3600);
    assert_eq!(secs(Some("no-cache")), 300);
    assert_eq!(secs(Some("max-age=abc")), 300);
    assert_eq!(secs(Some("public, max-age=60")), 60);
    assert_eq!(secs(Some("max-age=99999")), 3600);
    assert_eq!(secs(Some("s-maxage=5, max-age=60")), 60);
    assert_eq!(secs(Some("s-maxage=60, max-age=120")), 120);
    assert_eq!(secs(Some("s-maxage=60")), 300);
    assert_eq!(secs(Some("max-age=x, max-age=7")), 7);
    assert_eq!(secs(Some("max-age=99999999999999999999")), 300);
}

#[test]
fn no_more_of_a_body_is_read_than_allowed() {
    assert_eq!(
        CappedBody::begin(Some(11), 10).unwrap_err(),
        AcdpError::PayloadTooLarge { bytes: 11, limit: 10 }
    );
    let mut body = CappedBody::begin(Some(10), 10).unwrap();
    assert_eq!(body.push(&vec![1, 2, 3]), Ok(()));
    assert_eq!(
        body.push(&vec![0; 8]),
        Err(AcdpError::PayloadTooLarge { bytes: 3, limit: 10 })
    );
    assert_eq!(body.push(&vec![4; 7]), Ok(()));
    assert_eq!(body.into_bytes(), vec![1, 2, 3, 4, 4, 4, 4, 4, 4, 4]);
    assert!(CappedBody::begin(None, 0).is_ok());
}

#[test]
fn a_failure_is_read_only_a_little() {
    assert_eq!(response_cap(true, MAX_CONTEXT_BYTES), 1_048_576);
    assert_eq!(response_cap(false, MAX_CONTEXT_BYTES), MAX_METADATA_BYTES);
}

#[test]
fn a_response_is_its_value_or_its_failure() {
    let ok = |read, parsed| parse_success::<u8>(true, read, parsed, ErrorEnvelope::Unreadable);
    assert_eq!(ok(Ok(3), Ok(7)), Ok((7, 3)));
    let big = AcdpError::PayloadTooLarge { bytes: 2, limit: 1 };
    assert_eq!(ok(Err(big.clone()), Ok(7)), Err(big));
    let garbled = AcdpError::Serialization("not JSON".to_string());
    assert_eq!(ok(Ok(3), Err(garbled.clone())), Err(garbled));

    let failed = |envelope| parse_success::<u8>(false, Ok(3), Ok(7), envelope).unwrap_err();
    let wire = |message: &str| AcdpError::Wire {
        code: "unknown".to_string(),
        message: message.to_string(),
        transient: false,
    };
    assert_eq!(failed(ErrorEnvelope::Unreadable), wire("could not read registry error response"));
    assert_eq!(failed(ErrorEnvelope::Unparsable), wire("could not parse registry error response"));
    assert_eq!(failed(ErrorEnvelope::Parsed(wire("x"))), wire("x"));
}

#[test]
fn a_budget_stops_the_request_after_the_last() {
    let mut budget = DiscoveryBudget::new(Some(2), None);
    assert_eq!(budget.check_before_request(), Ok(()));
    assert_eq!(budget.check_before_request(), Ok(()));
    assert_eq!(
        budget.check_before_request(),
        Err(AcdpError::RevocationDiscoveryBudgetExceeded(BudgetLimit::Requests { limit: 2 }))
    );
}

#[test]
fn used_up_bytes_stop_every_further_request() {
    let mut budget = DiscoveryBudget::new(None, Some(10));
    assert_eq!(budget.check_before_request(), Ok(()));
    budget.record_bytes(9);
    assert_eq!(budget.check_before_request(), Ok(()));
    budget.record_bytes(1);
    assert_eq!(
        budget.check_before_request(),
        Err(AcdpError::RevocationDiscoveryBudgetExceeded(BudgetLimit::Bytes { limit: 10 }))
    );
    budget.record_bytes(1_000_000);
    assert!(budget.check_before_request().is_err());
}

#[test]
fn without_limits_nothing_is_stopped() {
    let mut budget = DiscoveryBudget::new(None, None);
    for _ in 0..1000 {
        assert_eq!(budget.check_before_request(), Ok(()));
        budget.record_bytes(1_000_000);
    }
}

#[test]
fn only_answers_with_contexts_may_be_large() {
    for e in [Endpoint::Capabilities, Endpoint::Publish, Endpoint::Search] {
        assert_eq!(e.max_bytes(), MAX_METADATA_BYTES);
    }
    for e in [
        Endpoint::Context,
        Endpoint::ContextWithMetadata,
        Endpoint::Body,
        Endpoint::Lineage,
        Endpoint::Current,
    ] {
        assert_eq!(e.max_bytes(), MAX_CONTEXT_BYTES);
    }
}

#[test]
fn only_what_a_search_asks_draws_on_its_budget() {
    for e in [Endpoint::Capabilities, Endpoint::Context, Endpoint::Lineage, Endpoint::Search] {
        assert!(e.draws_on_budget());
    }
    for e in [
        Endpoint::Publish,
        Endpoint::ContextWithMetadata,
        Endpoint::Body,
        Endpoint::Current,
    ] {
        assert!(!e.draws_on_budget());
    }
}

#[test]
fn a_conditional_retrieval_may_find_nothing_new() {
    let failed = || AcdpError::Http("down".to_string());
    assert_eq!(
        retrieve_if_none_match::<u8>(304, RetrievalMetadata::default(), Err(failed())),
        Ok(None)
    );
    assert_eq!(
        retrieve_if_none_match(200, RetrievalMetadata::default(), Ok((7, 1))),
        Ok(Some((7, RetrievalMetadata::default())))
    );
    assert_eq!(
        retrieve_if_none_match::<u8>(500, RetrievalMetadata::default(), Err(failed())),
        Err(failed())
    );
}

#[test]
fn an_authority_is_scheme_host_and_port() {
    let same = same_fetch_authority;
    assert!(same("https://r.example/a", "https://r.example:443/b"));
    assert!(!same("https://r.example/", "http://r.example/"));
    assert!(!same("https://r.example/", "https://s.example/"));
    assert!(!same("https://r.example/", "https://r.example:8443/"));
    assert!(!same("nonsense", "nonsense"));
    assert!(!same_parts(&None, &None));
}
