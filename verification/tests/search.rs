use acdp::search::RegistrySearch;
use acdp::time::Timestamp;
use acdp::types::CtxId;

#[test]
fn an_empty_search_sets_nothing() {
    let params = RegistrySearch::new().build();
    assert_eq!(params.q, None);
    assert_eq!(params.context_type, None);
    assert_eq!(params.domain, None);
    assert!(params.tags.is_empty());
    assert_eq!(params.agent_id, None);
    assert_eq!(params.derived_from, None);
    assert_eq!(params.created_after, None);
    assert_eq!(params.created_before, None);
    assert_eq!(params.status, None);
    assert_eq!(params.limit, None);
    assert_eq!(params.cursor, None);
}

#[test]
fn every_setter_sets_its_own_parameter() {
    let ctx = CtxId("acdp://registry.example.com/one".to_string());
    let early = Timestamp { secs: 1, nanos: 2 };
    let late = Timestamp { secs: 3, nanos: 4 };
    let params = RegistrySearch::new()
        .q("weather".to_string())
        .context_type("data_snapshot".to_string())
        .domain("finance".to_string())
        .tag("first".to_string())
        .tag("second".to_string())
        .agent_id("did:web:agents.example.com:a".to_string())
        .derived_from(&ctx)
        .created_after(early)
        .created_before(late)
        .status("active".to_string())
        .limit(7)
        .cursor("page-2".to_string())
        .build();
    assert_eq!(params.q.as_deref(), Some("weather"));
    assert_eq!(params.context_type.as_deref(), Some("data_snapshot"));
    assert_eq!(params.domain.as_deref(), Some("finance"));
    assert_eq!(params.tags, vec!["first".to_string(), "second".to_string()]);
    assert_eq!(params.agent_id.as_deref(), Some("did:web:agents.example.com:a"));
    assert_eq!(params.derived_from, Some(ctx));
    assert_eq!(params.created_after, Some(early));
    assert_eq!(params.created_before, Some(late));
    assert_eq!(params.status.as_deref(), Some("active"));
    assert_eq!(params.limit, Some(7));
    assert_eq!(params.cursor.as_deref(), Some("page-2"));
}
