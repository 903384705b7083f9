//! The parameters of a search on a registry.

use vstd::prelude::*;
use crate::time::Timestamp;
use crate::types::CtxId;

verus! {

/// What to search for. Everything that is set narrows the search.
#[derive(Debug, PartialEq, Eq)]
pub struct SearchParams {
    /// Words to look for.
    pub q: Option<String>,
    pub context_type: Option<String>,
    pub domain: Option<String>,
    pub tags: Vec<String>,
    pub agent_id: Option<String>,
    pub derived_from: Option<CtxId>,
    pub created_after: Option<Timestamp>,
    pub created_before: Option<Timestamp>,
    pub status: Option<String>,
    /// How many results a page may have.
    pub limit: Option<u32>,
    /// Where the page begins.
    pub cursor: Option<String>,
}

/// A search that is being put together.
#[derive(Debug, PartialEq, Eq)]
pub struct RegistrySearch {
    params: SearchParams,
}

impl RegistrySearch {
    /// What has been set.
    pub closed spec fn view(&self) -> SearchParams {
        self.params
    }

    /// A search for everything.
    pub fn new() -> (s: Self)
        ensures
            s@.q is None,
            s@.context_type is None,
            s@.domain is None,
            s@.tags@.len() == 0,
            s@.agent_id is None,
            s@.derived_from is None,
            s@.created_after is None,
            s@.created_before is None,
            s@.status is None,
            s@.limit is None,
            s@.cursor is None,
    {
        RegistrySearch {
            params: SearchParams {
                q: None,
                context_type: None,
                domain: None,
                tags: Vec::new(),
                agent_id: None,
                derived_from: None,
                created_after: None,
                created_before: None,
                status: None,
                limit: None,
                cursor: None,
            },
        }
    }

    /// The parameters to send.
    pub fn build(self) -> (params: SearchParams)
        ensures
            params == self@,
    {
        self.params
    }

    /// Searches for words.
    pub fn q(self, q: String) -> (s: Self)
        ensures
            s@ == (SearchParams { q: Some(q), ..self@ }),
    {
        let mut params: SearchParams = self.params;
        params.q = Some(q);
        RegistrySearch { params }
    }

    /// Searches for a type.
    pub fn context_type(self, t: String) -> (s: Self)
        ensures
            s@ == (SearchParams { context_type: Some(t), ..self@ }),
    {
        let mut params: SearchParams = self.params;
        params.context_type = Some(t);
        RegistrySearch { params }
    }

    /// Searches in a domain.
    pub fn domain(self, d: String) -> (s: Self)
        ensures
            s@ == (SearchParams { domain: Some(d), ..self@ }),
    {
        let mut params: SearchParams = self.params;
        params.domain = Some(d);
        RegistrySearch { params }
    }

    /// Searches for a tag, besides any set before.
    pub fn tag(self, t: String) -> (s: Self)
        ensures
            s@.tags@ == self@.tags@.push(t),
            s@ == (SearchParams { tags: s@.tags, ..self@ }),
    {
        let mut params: SearchParams = self.params;
        params.tags.push(t);
        RegistrySearch { params }
    }

    /// Searches for a publisher.
    pub fn agent_id(self, a: String) -> (s: Self)
        ensures
            s@ == (SearchParams { agent_id: Some(a), ..self@ }),
    {
        let mut params: SearchParams = self.params;
        params.agent_id = Some(a);
        RegistrySearch { params }
    }

    /// Searches for what is derived from a context.
    pub fn derived_from(self, c: &CtxId) -> (s: Self)
        ensures
            s@ == (SearchParams { derived_from: Some(*c), ..self@ }),
    {
        let mut params: SearchParams = self.params;
        params.derived_from = Some(c.clone());
        RegistrySearch { params }
    }

    /// Searches for what was created after an instant.
    pub fn created_after(self, t: Timestamp) -> (s: Self)
        ensures
            s@ == (SearchParams { created_after: Some(t), ..self@ }),
    {
        let mut params: SearchParams = self.params;
        params.created_after = Some(t);
        RegistrySearch { params }
    }

    /// Searches for what was created before an instant.
    pub fn created_before(self, t: Timestamp) -> (s: Self)
        ensures
            s@ == (SearchParams { created_before: Some(t), ..self@ }),
    {
        let mut params: SearchParams = self.params;
        params.created_before = Some(t);
        RegistrySearch { params }
    }

    /// Searches for a status.
    pub fn status(self, status: String) -> (s: Self)
        ensures
            s@ == (SearchParams { status: Some(status), ..self@ }),
    {
        let mut params: SearchParams = self.params;
        params.status = Some(status);
        RegistrySearch { params }
    }

    /// Asks for no more results than this on a page.
    pub fn limit(self, l: u32) -> (s: Self)
        ensures
            s@ == (SearchParams { limit: Some(l), ..self@ }),
    {
        let mut params: SearchParams = self.params;
        params.limit = Some(l);
        RegistrySearch { params }
    }

    /// Asks for the page that begins here.
    pub fn cursor(self, c: String) -> (s: Self)
        ensures
            s@ == (SearchParams { cursor: Some(c), ..self@ }),
    {
        let mut params: SearchParams = self.params;
        params.cursor = Some(c);
        RegistrySearch { params }
    }
}

} // verus!
