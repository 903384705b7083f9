//! What can go wrong, with the values each failure is about.
//!
//! The error types are generic in how they hold text: `String` in running
//! code, `Seq<char>` in contracts. [`AcdpError::view`] takes the one to the
//! other.

use vstd::prelude::*;
use crate::key_revocation::RevocationTrustClass;
use crate::time::{Span, Timestamp};

verus! {

/// A member of a key revocation's metadata.
#[derive(Clone, Copy, Debug, PartialEq, Eq, Structural)]
pub enum RevocationMember {
    /// `revoked_key_fingerprint`
    Fingerprint,
    /// `compromised_since`
    CompromisedSince,
    /// `reason`
    Reason,
    /// `revoked_key_id`
    KeyId,
    /// `revoked_key_controller`
    Controller,
}

/// Why a document does not have the shape it must have.
#[derive(Debug, PartialEq, Eq)]
pub enum SchemaFault<S> {
    /// The context is of this type, which is not a key revocation.
    NotKeyRevocation { context_type: S },
    /// A key revocation that is not public.
    NotPublic,
    /// A key revocation without a metadata object.
    NoMetadataObject,
    /// A required metadata member is missing or not text.
    MemberRequired(RevocationMember),
    /// An optional metadata member is present and not text.
    MemberNotText(RevocationMember),
    /// Not `sha256:` followed by 64 lowercase hexadecimal digits.
    MalformedFingerprint(S),
    /// Not a canonical millisecond timestamp.
    NonCanonicalTimestamp(S),
    /// The reason is longer than it may be.
    ReasonTooLong,
    /// The request is larger than the registry takes.
    PayloadOverLimit { bytes: u64, limit: u64 },
    /// The registry does not support this signature algorithm.
    UnsupportedAlgorithm(S),
    /// The interim spelling of the key-revocation type is retired.
    InterimFormRetired,
    /// A controller other than the publisher, named by a publisher that is
    /// not the registry itself.
    ForeignController { controller: S, agent_id: S, registry_did: S },
    /// The registry published a revocation without naming whose key it is.
    ControllerMissing { registry_did: S },
    /// A key revocation may only be superseded by another one.
    SupersededByOtherType { ctx_id: S, agent_id: S, context_type: S },
    /// A key revocation may only be superseded by one of the same class.
    ClassChanged {
        ctx_id: S,
        class: RevocationTrustClass,
        agent_id: S,
        incoming_class: RevocationTrustClass,
    },
    /// A superseding context needs the first version's identifier.
    FirstVersionUnknown,
    /// The registry reported a status that the policy does not accept.
    UnknownStatus(S),
    /// The registry's base address cannot be parsed.
    InvalidBaseUrl(S),
    /// The registry's base address names no host.
    NoHost,
    /// Reported by a collaborator.
    Reported(S),
}

/// Why a key may not vouch for what it signed.
#[derive(Debug, PartialEq, Eq)]
pub enum AuthorizationFault<S> {
    /// The revocation of this key is signed by that same key.
    SelfSigned(S),
    /// The publisher is not the authority that serves the revocation.
    PublisherNotServing { publisher: S, expected: S },
    /// The publisher is not the identity that the registry advertises.
    PublisherNotRegistry { publisher: S, registry_did: S },
    /// The signing key belongs to another identity than the publisher.
    ForeignKey { did: S, agent_id: S },
    /// Published at or after the compromise boundary of its revoked key.
    AfterBoundary { fingerprint: S, boundary: Timestamp, created_at: Timestamp },
    /// The key is revoked and nothing places the context in time.
    Unplaceable { fingerprint: S, boundary: Timestamp },
    /// Reported by a collaborator.
    Reported(S),
}

/// Why a key cannot be found.
#[derive(Debug, PartialEq, Eq)]
pub enum KeyFault<S> {
    /// The registry resolves no identities of this method.
    UnsupportedMethod(S),
    /// The key identifier has no fragment.
    NoFragment(S),
    /// Reported by a collaborator.
    Reported(S),
}

/// Why a target cannot be superseded.
#[derive(Debug, PartialEq, Eq)]
pub enum SupersessionFault<S> {
    /// The target lives on another registry.
    CrossRegistrySupersessionUnsupported { target_authority: S, own_authority: S },
    /// The target is a key revocation and the successor is not.
    RevocationTypeMismatch { ctx_id: S, agent_id: S, context_type: S },
    /// Reported by a collaborator.
    Reported(S),
}

/// Why a receipt does not count.
#[derive(Debug, PartialEq, Eq)]
pub enum ReceiptFault<S> {
    /// A registry receipt is required and absent.
    RegistryReceiptRequired,
    /// A lineage-head receipt is required and absent.
    HeadReceiptRequired,
    /// Reported by a collaborator.
    Reported(S),
}

/// What cut a revocation search short.
#[derive(Debug, PartialEq, Eq)]
pub enum Truncation<S> {
    /// More result pages than are followed for one type and status.
    Pages { searched: S, type_form: S, status: S },
    /// More lineages than are walked.
    Lineages { searched: S, count: u64 },
}

/// Which limit of a discovery budget was reached.
#[derive(Clone, Copy, Debug, PartialEq, Eq, Structural)]
pub enum BudgetLimit {
    /// This many bytes.
    Bytes { limit: u64 },
    /// This many requests.
    Requests { limit: u64 },
}

/// Why a context of another registry was not resolved.
#[derive(Debug, PartialEq, Eq)]
pub enum ResolutionFault<S> {
    /// The authority is not on the list of allowed ones.
    NotAllowed(S),
    /// The address policy refuses the authority.
    AddressPolicy(S),
    /// The registry advertises another identity than its authority's.
    RegistryDidMismatch { registry_did: S, expected: S },
    /// The registry's identity document could not be had.
    DidDocumentUnavailable { did: S, reason: S },
    /// The registry's identity document is about another identity.
    DidDocumentMismatch { id: S, expected: S },
    /// The root has more parents than are followed.
    RootFanout { ctx_id: S, count: u64, limit: u64 },
    /// A context has more parents than are followed.
    Fanout { ctx_id: S, count: u64, limit: u64 },
    /// An ancestor lies deeper than is followed.
    Depth { ctx_id: S, limit: u64 },
    /// More ancestors than are followed.
    Nodes { ctx_id: S, limit: u64 },
    /// The walk took longer than it may.
    WalkTimeout { allowed: Span },
    /// Revocation discovery took longer than it may.
    DiscoveryTimeout { allowed: Span },
    /// The authority could not be reached.
    Unreachable { authority: S, reason: S },
    /// Reported by a collaborator.
    Reported(S),
}

/// Every failure of this library and of what it works with.
#[derive(Debug, PartialEq, Eq)]
pub enum AcdpError<S = String> {
    SchemaViolation(SchemaFault<S>),
    KeyNotAuthorized(AuthorizationFault<S>),
    KeyResolution(KeyFault<S>),
    /// The host of an identity could not be reached.
    KeyResolutionUnreachable(S),
    InvalidSignature(S),
    HashMismatch { stored: S, recomputed: S },
    EmbeddedTooLarge { bytes: u64, limit: u64 },
    SupersededTarget(SupersessionFault<S>),
    /// The registry served another context than the one requested.
    ContextIdMismatch { requested: S, served: S },
    InvalidReceipt(ReceiptFault<S>),
    /// A lineage listing is empty, or lacks a member known to belong to it.
    IncompleteLineage { lineage_id: S, ctx_id: Option<S> },
    SearchTruncated(Truncation<S>),
    RevocationDiscoveryBudgetExceeded(BudgetLimit),
    RevocationDiscoveryFailed { source: Box<AcdpError<S>> },
    CrossRegistryResolutionFailed(ResolutionFault<S>),
    /// A response is larger than is read.
    PayloadTooLarge { bytes: u64, limit: u64 },
    /// The transport failed.
    Http(S),
    Serialization(S),
    /// An error document sent by a registry.
    Wire { code: S, message: S, transient: bool },
}

impl SchemaFault<String> {
    /// The same failure with its texts as character sequences.
    pub open spec fn view(&self) -> SchemaFault<Seq<char>> {
        match self {
            SchemaFault::NotKeyRevocation { context_type } => SchemaFault::NotKeyRevocation {
                context_type: context_type@,
            },
            SchemaFault::NotPublic => SchemaFault::NotPublic,
            SchemaFault::NoMetadataObject => SchemaFault::NoMetadataObject,
            SchemaFault::MemberRequired(t) => SchemaFault::MemberRequired(*t),
            SchemaFault::MemberNotText(t) => SchemaFault::MemberNotText(*t),
            SchemaFault::MalformedFingerprint(t) => SchemaFault::MalformedFingerprint(t@),
            SchemaFault::NonCanonicalTimestamp(t) => SchemaFault::NonCanonicalTimestamp(t@),
            SchemaFault::ReasonTooLong => SchemaFault::ReasonTooLong,
            SchemaFault::PayloadOverLimit { bytes, limit } => SchemaFault::PayloadOverLimit {
                bytes: *bytes,
                limit: *limit,
            },
            SchemaFault::UnsupportedAlgorithm(t) => SchemaFault::UnsupportedAlgorithm(t@),
            SchemaFault::InterimFormRetired => SchemaFault::InterimFormRetired,
            SchemaFault::ForeignController { controller, agent_id, registry_did } => {
                SchemaFault::ForeignController {
                    controller: controller@,
                    agent_id: agent_id@,
                    registry_did: registry_did@,
                }
            },
            SchemaFault::ControllerMissing { registry_did } => SchemaFault::ControllerMissing {
                registry_did: registry_did@,
            },
            SchemaFault::SupersededByOtherType { ctx_id, agent_id, context_type } => {
                SchemaFault::SupersededByOtherType {
                    ctx_id: ctx_id@,
                    agent_id: agent_id@,
                    context_type: context_type@,
                }
            },
            SchemaFault::ClassChanged { ctx_id, class, agent_id, incoming_class } => {
                SchemaFault::ClassChanged {
                    ctx_id: ctx_id@,
                    class: *class,
                    agent_id: agent_id@,
                    incoming_class: *incoming_class,
                }
            },
            SchemaFault::FirstVersionUnknown => SchemaFault::FirstVersionUnknown,
            SchemaFault::UnknownStatus(t) => SchemaFault::UnknownStatus(t@),
            SchemaFault::InvalidBaseUrl(t) => SchemaFault::InvalidBaseUrl(t@),
            SchemaFault::NoHost => SchemaFault::NoHost,
            SchemaFault::Reported(t) => SchemaFault::Reported(t@),
        }
    }
}

impl Clone for SchemaFault<String> {
    fn clone(&self) -> (copy: Self)
        ensures
            copy@ == self@,

    {
        match self {
            SchemaFault::NotKeyRevocation { context_type } => SchemaFault::NotKeyRevocation {
                context_type: context_type.clone(),
            },
            SchemaFault::NotPublic => SchemaFault::NotPublic,
            SchemaFault::NoMetadataObject => SchemaFault::NoMetadataObject,
            SchemaFault::MemberRequired(t) => SchemaFault::MemberRequired(*t),
            SchemaFault::MemberNotText(t) => SchemaFault::MemberNotText(*t),
            SchemaFault::MalformedFingerprint(t) => SchemaFault::MalformedFingerprint(t.clone()),
            SchemaFault::NonCanonicalTimestamp(t) => SchemaFault::NonCanonicalTimestamp(t.clone()),
            SchemaFault::ReasonTooLong => SchemaFault::ReasonTooLong,
            SchemaFault::PayloadOverLimit { bytes, limit } => SchemaFault::PayloadOverLimit {
                bytes: *bytes,
                limit: *limit,
            },
            SchemaFault::UnsupportedAlgorithm(t) => SchemaFault::UnsupportedAlgorithm(t.clone()),
            SchemaFault::InterimFormRetired => SchemaFault::InterimFormRetired,
            SchemaFault::ForeignController { controller, agent_id, registry_did } => {
                SchemaFault::ForeignController {
                    controller: controller.clone(),
                    agent_id: agent_id.clone(),
                    registry_did: registry_did.clone(),
                }
            },
            SchemaFault::ControllerMissing { registry_did } => SchemaFault::ControllerMissing {
                registry_did: registry_did.clone(),
            },
            SchemaFault::SupersededByOtherType { ctx_id, agent_id, context_type } => {
                SchemaFault::SupersededByOtherType {
                    ctx_id: ctx_id.clone(),
                    agent_id: agent_id.clone(),
                    context_type: context_type.clone(),
                }
            },
            SchemaFault::ClassChanged { ctx_id, class, agent_id, incoming_class } => {
                SchemaFault::ClassChanged {
                    ctx_id: ctx_id.clone(),
                    class: *class,
                    agent_id: agent_id.clone(),
                    incoming_class: *incoming_class,
                }
            },
            SchemaFault::FirstVersionUnknown => SchemaFault::FirstVersionUnknown,
            SchemaFault::UnknownStatus(t) => SchemaFault::UnknownStatus(t.clone()),
            SchemaFault::InvalidBaseUrl(t) => SchemaFault::InvalidBaseUrl(t.clone()),
            SchemaFault::NoHost => SchemaFault::NoHost,
            SchemaFault::Reported(t) => SchemaFault::Reported(t.clone()),
        }
    }
}

impl AuthorizationFault<String> {
    /// The same failure with its texts as character sequences.
    pub open spec fn view(&self) -> AuthorizationFault<Seq<char>> {
        match self {
            AuthorizationFault::SelfSigned(t) => AuthorizationFault::SelfSigned(t@),
            AuthorizationFault::PublisherNotServing { publisher, expected } => {
                AuthorizationFault::PublisherNotServing {
                    publisher: publisher@,
                    expected: expected@,
                }
            },
            AuthorizationFault::PublisherNotRegistry { publisher, registry_did } => {
                AuthorizationFault::PublisherNotRegistry {
                    publisher: publisher@,
                    registry_did: registry_did@,
                }
            },
            AuthorizationFault::ForeignKey { did, agent_id } => AuthorizationFault::ForeignKey {
                did: did@,
                agent_id: agent_id@,
            },
            AuthorizationFault::AfterBoundary { fingerprint, boundary, created_at } => {
                AuthorizationFault::AfterBoundary {
                    fingerprint: fingerprint@,
                    boundary: *boundary,
                    created_at: *created_at,
                }
            },
            AuthorizationFault::Unplaceable { fingerprint, boundary } => {
                AuthorizationFault::Unplaceable {
                    fingerprint: fingerprint@,
                    boundary: *boundary,
                }
            },
            AuthorizationFault::Reported(t) => AuthorizationFault::Reported(t@),
        }
    }
}

impl Clone for AuthorizationFault<String> {
    fn clone(&self) -> (copy: Self)
        ensures
            copy@ == self@,

    {
        match self {
            AuthorizationFault::SelfSigned(t) => AuthorizationFault::SelfSigned(t.clone()),
            AuthorizationFault::PublisherNotServing { publisher, expected } => {
                AuthorizationFault::PublisherNotServing {
                    publisher: publisher.clone(),
                    expected: expected.clone(),
                }
            },
            AuthorizationFault::PublisherNotRegistry { publisher, registry_did } => {
                AuthorizationFault::PublisherNotRegistry {
                    publisher: publisher.clone(),
                    registry_did: registry_did.clone(),
                }
            },
            AuthorizationFault::ForeignKey { did, agent_id } => AuthorizationFault::ForeignKey {
                did: did.clone(),
                agent_id: agent_id.clone(),
            },
            AuthorizationFault::AfterBoundary { fingerprint, boundary, created_at } => {
                AuthorizationFault::AfterBoundary {
                    fingerprint: fingerprint.clone(),
                    boundary: *boundary,
                    created_at: *created_at,
                }
            },
            AuthorizationFault::Unplaceable { fingerprint, boundary } => {
                AuthorizationFault::Unplaceable {
                    fingerprint: fingerprint.clone(),
                    boundary: *boundary,
                }
            },
            AuthorizationFault::Reported(t) => AuthorizationFault::Reported(t.clone()),
        }
    }
}

impl KeyFault<String> {
    /// The same failure with its texts as character sequences.
    pub open spec fn view(&self) -> KeyFault<Seq<char>> {
        match self {
            KeyFault::UnsupportedMethod(t) => KeyFault::UnsupportedMethod(t@),
            KeyFault::NoFragment(t) => KeyFault::NoFragment(t@),
            KeyFault::Reported(t) => KeyFault::Reported(t@),
        }
    }
}

impl Clone for KeyFault<String> {
    fn clone(&self) -> (copy: Self)
        ensures
            copy@ == self@,

    {
        match self {
            KeyFault::UnsupportedMethod(t) => KeyFault::UnsupportedMethod(t.clone()),
            KeyFault::NoFragment(t) => KeyFault::NoFragment(t.clone()),
            KeyFault::Reported(t) => KeyFault::Reported(t.clone()),
        }
    }
}

impl SupersessionFault<String> {
    /// The same failure with its texts as character sequences.
    pub open spec fn view(&self) -> SupersessionFault<Seq<char>> {
        match self {
            SupersessionFault::CrossRegistrySupersessionUnsupported { target_authority, own_authority } => {
                SupersessionFault::CrossRegistrySupersessionUnsupported {
                    target_authority: target_authority@,
                    own_authority: own_authority@,
                }
            },
            SupersessionFault::RevocationTypeMismatch { ctx_id, agent_id, context_type } => {
                SupersessionFault::RevocationTypeMismatch {
                    ctx_id: ctx_id@,
                    agent_id: agent_id@,
                    context_type: context_type@,
                }
            },
            SupersessionFault::Reported(t) => SupersessionFault::Reported(t@),
        }
    }
}

impl Clone for SupersessionFault<String> {
    fn clone(&self) -> (copy: Self)
        ensures
            copy@ == self@,

    {
        match self {
            SupersessionFault::CrossRegistrySupersessionUnsupported { target_authority, own_authority } => {
                SupersessionFault::CrossRegistrySupersessionUnsupported {
                    target_authority: target_authority.clone(),
                    own_authority: own_authority.clone(),
                }
            },
            SupersessionFault::RevocationTypeMismatch { ctx_id, agent_id, context_type } => {
                SupersessionFault::RevocationTypeMismatch {
                    ctx_id: ctx_id.clone(),
                    agent_id: agent_id.clone(),
                    context_type: context_type.clone(),
                }
            },
            SupersessionFault::Reported(t) => SupersessionFault::Reported(t.clone()),
        }
    }
}

impl ReceiptFault<String> {
    /// The same failure with its texts as character sequences.
    pub open spec fn view(&self) -> ReceiptFault<Seq<char>> {
        match self {
            ReceiptFault::RegistryReceiptRequired => ReceiptFault::RegistryReceiptRequired,
            ReceiptFault::HeadReceiptRequired => ReceiptFault::HeadReceiptRequired,
            ReceiptFault::Reported(t) => ReceiptFault::Reported(t@),
        }
    }
}

impl Clone for ReceiptFault<String> {
    fn clone(&self) -> (copy: Self)
        ensures
            copy@ == self@,

    {
        match self {
            ReceiptFault::RegistryReceiptRequired => ReceiptFault::RegistryReceiptRequired,
            ReceiptFault::HeadReceiptRequired => ReceiptFault::HeadReceiptRequired,
            ReceiptFault::Reported(t) => ReceiptFault::Reported(t.clone()),
        }
    }
}

impl Truncation<String> {
    /// The same failure with its texts as character sequences.
    pub open spec fn view(&self) -> Truncation<Seq<char>> {
        match self {
            Truncation::Pages { searched, type_form, status } => Truncation::Pages {
                searched: searched@,
                type_form: type_form@,
                status: status@,
            },
            Truncation::Lineages { searched, count } => Truncation::Lineages {
                searched: searched@,
                count: *count,
            },
        }
    }
}

impl Clone for Truncation<String> {
    fn clone(&self) -> (copy: Self)
        ensures
            copy@ == self@,

    {
        match self {
            Truncation::Pages { searched, type_form, status } => Truncation::Pages {
                searched: searched.clone(),
                type_form: type_form.clone(),
                status: status.clone(),
            },
            Truncation::Lineages { searched, count } => Truncation::Lineages {
                searched: searched.clone(),
                count: *count,
            },
        }
    }
}

impl ResolutionFault<String> {
    /// The same failure with its texts as character sequences.
    pub open spec fn view(&self) -> ResolutionFault<Seq<char>> {
        match self {
            ResolutionFault::NotAllowed(t) => ResolutionFault::NotAllowed(t@),
            ResolutionFault::AddressPolicy(t) => ResolutionFault::AddressPolicy(t@),
            ResolutionFault::RegistryDidMismatch { registry_did, expected } => {
                ResolutionFault::RegistryDidMismatch {
                    registry_did: registry_did@,
                    expected: expected@,
                }
            },
            ResolutionFault::DidDocumentUnavailable { did, reason } => {
                ResolutionFault::DidDocumentUnavailable {
                    did: did@,
                    reason: reason@,
                }
            },
            ResolutionFault::DidDocumentMismatch { id, expected } => {
                ResolutionFault::DidDocumentMismatch {
                    id: id@,
                    expected: expected@,
                }
            },
            ResolutionFault::RootFanout { ctx_id, count, limit } => ResolutionFault::RootFanout {
                ctx_id: ctx_id@,
                count: *count,
                limit: *limit,
            },
            ResolutionFault::Fanout { ctx_id, count, limit } => ResolutionFault::Fanout {
                ctx_id: ctx_id@,
                count: *count,
                limit: *limit,
            },
            ResolutionFault::Depth { ctx_id, limit } => ResolutionFault::Depth {
                ctx_id: ctx_id@,
                limit: *limit,
            },
            ResolutionFault::Nodes { ctx_id, limit } => ResolutionFault::Nodes {
                ctx_id: ctx_id@,
                limit: *limit,
            },
            ResolutionFault::WalkTimeout { allowed } => ResolutionFault::WalkTimeout {
                allowed: *allowed,
            },
            ResolutionFault::DiscoveryTimeout { allowed } => ResolutionFault::DiscoveryTimeout {
                allowed: *allowed,
            },
            ResolutionFault::Unreachable { authority, reason } => ResolutionFault::Unreachable {
                authority: authority@,
                reason: reason@,
            },
            ResolutionFault::Reported(t) => ResolutionFault::Reported(t@),
        }
    }
}

impl Clone for ResolutionFault<String> {
    fn clone(&self) -> (copy: Self)
        ensures
            copy@ == self@,

    {
        match self {
            ResolutionFault::NotAllowed(t) => ResolutionFault::NotAllowed(t.clone()),
            ResolutionFault::AddressPolicy(t) => ResolutionFault::AddressPolicy(t.clone()),
            ResolutionFault::RegistryDidMismatch { registry_did, expected } => {
                ResolutionFault::RegistryDidMismatch {
                    registry_did: registry_did.clone(),
                    expected: expected.clone(),
                }
            },
            ResolutionFault::DidDocumentUnavailable { did, reason } => {
                ResolutionFault::DidDocumentUnavailable {
                    did: did.clone(),
                    reason: reason.clone(),
                }
            },
            ResolutionFault::DidDocumentMismatch { id, expected } => {
                ResolutionFault::DidDocumentMismatch {
                    id: id.clone(),
                    expected: expected.clone(),
                }
            },
            ResolutionFault::RootFanout { ctx_id, count, limit } => ResolutionFault::RootFanout {
                ctx_id: ctx_id.clone(),
                count: *count,
                limit: *limit,
            },
            ResolutionFault::Fanout { ctx_id, count, limit } => ResolutionFault::Fanout {
                ctx_id: ctx_id.clone(),
                count: *count,
                limit: *limit,
            },
            ResolutionFault::Depth { ctx_id, limit } => ResolutionFault::Depth {
                ctx_id: ctx_id.clone(),
                limit: *limit,
            },
            ResolutionFault::Nodes { ctx_id, limit } => ResolutionFault::Nodes {
                ctx_id: ctx_id.clone(),
                limit: *limit,
            },
            ResolutionFault::WalkTimeout { allowed } => ResolutionFault::WalkTimeout {
                allowed: *allowed,
            },
            ResolutionFault::DiscoveryTimeout { allowed } => ResolutionFault::DiscoveryTimeout {
                allowed: *allowed,
            },
            ResolutionFault::Unreachable { authority, reason } => ResolutionFault::Unreachable {
                authority: authority.clone(),
                reason: reason.clone(),
            },
            ResolutionFault::Reported(t) => ResolutionFault::Reported(t.clone()),
        }
    }
}

impl AcdpError<String> {
    /// The same failure with its texts as character sequences.
    pub open spec fn view(&self) -> AcdpError<Seq<char>>
        decreases self,
    {
        match self {
            AcdpError::SchemaViolation(t) => AcdpError::SchemaViolation(t.view()),
            AcdpError::KeyNotAuthorized(t) => AcdpError::KeyNotAuthorized(t.view()),
            AcdpError::KeyResolution(t) => AcdpError::KeyResolution(t.view()),
            AcdpError::KeyResolutionUnreachable(t) => AcdpError::KeyResolutionUnreachable(t@),
            AcdpError::InvalidSignature(t) => AcdpError::InvalidSignature(t@),
            AcdpError::HashMismatch { stored, recomputed } => AcdpError::HashMismatch {
                stored: stored@,
                recomputed: recomputed@,
            },
            AcdpError::EmbeddedTooLarge { bytes, limit } => AcdpError::EmbeddedTooLarge {
                bytes: *bytes,
                limit: *limit,
            },
            AcdpError::SupersededTarget(t) => AcdpError::SupersededTarget(t.view()),
            AcdpError::ContextIdMismatch { requested, served } => AcdpError::ContextIdMismatch {
                requested: requested@,
                served: served@,
            },
            AcdpError::InvalidReceipt(t) => AcdpError::InvalidReceipt(t.view()),
            AcdpError::IncompleteLineage { lineage_id, ctx_id } => AcdpError::IncompleteLineage {
                lineage_id: lineage_id@,
                ctx_id: match ctx_id {
                    Some(t) => Some(t@),
                    None => None,
                },
            },
            AcdpError::SearchTruncated(t) => AcdpError::SearchTruncated(t.view()),
            AcdpError::RevocationDiscoveryBudgetExceeded(t) => {
                AcdpError::RevocationDiscoveryBudgetExceeded(*t)
            },
            AcdpError::RevocationDiscoveryFailed { source } => {
                AcdpError::RevocationDiscoveryFailed {
                    source: Box::new(source.view()),
                }
            },
            AcdpError::CrossRegistryResolutionFailed(t) => {
                AcdpError::CrossRegistryResolutionFailed(t.view())
            },
            AcdpError::PayloadTooLarge { bytes, limit } => AcdpError::PayloadTooLarge {
                bytes: *bytes,
                limit: *limit,
            },
            AcdpError::Http(t) => AcdpError::Http(t@),
            AcdpError::Serialization(t) => AcdpError::Serialization(t@),
            AcdpError::Wire { code, message, transient } => AcdpError::Wire {
                code: code@,
                message: message@,
                transient: *transient,
            },
        }
    }
}

impl Clone for AcdpError<String> {
    fn clone(&self) -> (copy: Self)
        ensures
            copy@ == self@,
        decreases self,
    {
        match self {
            AcdpError::SchemaViolation(t) => AcdpError::SchemaViolation(t.clone()),
            AcdpError::KeyNotAuthorized(t) => AcdpError::KeyNotAuthorized(t.clone()),
            AcdpError::KeyResolution(t) => AcdpError::KeyResolution(t.clone()),
            AcdpError::KeyResolutionUnreachable(t) => {
                AcdpError::KeyResolutionUnreachable(t.clone())
            },
            AcdpError::InvalidSignature(t) => AcdpError::InvalidSignature(t.clone()),
            AcdpError::HashMismatch { stored, recomputed } => AcdpError::HashMismatch {
                stored: stored.clone(),
                recomputed: recomputed.clone(),
            },
            AcdpError::EmbeddedTooLarge { bytes, limit } => AcdpError::EmbeddedTooLarge {
                bytes: *bytes,
                limit: *limit,
            },
            AcdpError::SupersededTarget(t) => AcdpError::SupersededTarget(t.clone()),
            AcdpError::ContextIdMismatch { requested, served } => AcdpError::ContextIdMismatch {
                requested: requested.clone(),
                served: served.clone(),
            },
            AcdpError::InvalidReceipt(t) => AcdpError::InvalidReceipt(t.clone()),
            AcdpError::IncompleteLineage { lineage_id, ctx_id } => AcdpError::IncompleteLineage {
                lineage_id: lineage_id.clone(),
                ctx_id: match ctx_id {
                    Some(t) => Some(t.clone()),
                    None => None,
                },
            },
            AcdpError::SearchTruncated(t) => AcdpError::SearchTruncated(t.clone()),
            AcdpError::RevocationDiscoveryBudgetExceeded(t) => {
                AcdpError::RevocationDiscoveryBudgetExceeded(*t)
            },
            AcdpError::RevocationDiscoveryFailed { source } => {
                AcdpError::RevocationDiscoveryFailed {
                    source: Box::new((&**source).clone()),
                }
            },
            AcdpError::CrossRegistryResolutionFailed(t) => {
                AcdpError::CrossRegistryResolutionFailed(t.clone())
            },
            AcdpError::PayloadTooLarge { bytes, limit } => AcdpError::PayloadTooLarge {
                bytes: *bytes,
                limit: *limit,
            },
            AcdpError::Http(t) => AcdpError::Http(t.clone()),
            AcdpError::Serialization(t) => AcdpError::Serialization(t.clone()),
            AcdpError::Wire { code, message, transient } => AcdpError::Wire {
                code: code.clone(),
                message: message.clone(),
                transient: *transient,
            },
        }
    }
}

impl<S> AcdpError<S> {
    /// Whether the failure says nothing about what was asked for, so that the
    /// same request may succeed later.
    pub open spec fn transient(self) -> bool
        decreases self,
    {
        match self {
            AcdpError::KeyResolutionUnreachable(_) => true,
            AcdpError::Http(_) => true,
            AcdpError::Wire { transient, .. } => transient,
            AcdpError::RevocationDiscoveryFailed { source } => source.transient(),
            _ => false,
        }
    }
}

impl AcdpError<String> {
    /// Whether the failure says nothing about what was asked for, so that the
    /// same request may succeed later.
    pub fn is_transient(&self) -> (yes: bool)
        ensures
            yes == self.transient(),
            yes == self@.transient(),
        decreases self,
    {
        match self {
            AcdpError::KeyResolutionUnreachable(_) => true,
            AcdpError::Http(_) => true,
            AcdpError::Wire { transient, .. } => *transient,
            AcdpError::RevocationDiscoveryFailed { source } => (&**source).is_transient(),
            _ => false,
        }
    }
}

/// The contents of an optional text.
pub open spec fn opt_text(t: Option<String>) -> Option<Seq<char>> {
    match t {
        Some(s) => Some(s@),
        None => None,
    }
}

/// A result with its failure as a contract sees it.
pub open spec fn checked<T>(r: Result<T, AcdpError>) -> Result<T, AcdpError<Seq<char>>> {
    match r {
        Ok(t) => Ok(t),
        Err(e) => Err(e@),
    }
}

/// What a collaborator finds wrong with a document or a part of it. What a
/// document may supersede is not for a collaborator to judge.
#[derive(Debug, PartialEq, Eq)]
pub enum CheckFault<S = String> {
    /// It is not in shape.
    Schema(S),
    /// Its content does not have the hash that it states.
    HashMismatch { stored: S, recomputed: S },
    /// Its embedded data is larger than any may be.
    EmbeddedTooLarge { bytes: u64, limit: u64 },
    /// It names an identity or a key that cannot be found.
    KeyResolution(S),
    /// It cannot be written out.
    Serialization(S),
    /// Anything else, by the code that registries have for it.
    Other { code: S, message: S, transient: bool },
}

impl<S> CheckFault<S> {
    /// The failure that follows from the fault.
    pub open spec fn failure(self) -> AcdpError<S> {
        match self {
            CheckFault::Schema(t) => AcdpError::SchemaViolation(SchemaFault::Reported(t)),
            CheckFault::HashMismatch { stored, recomputed } => AcdpError::HashMismatch {
                stored,
                recomputed,
            },
            CheckFault::EmbeddedTooLarge { bytes, limit } => AcdpError::EmbeddedTooLarge {
                bytes,
                limit,
            },
            CheckFault::KeyResolution(t) => AcdpError::KeyResolution(KeyFault::Reported(t)),
            CheckFault::Serialization(t) => AcdpError::Serialization(t),
            CheckFault::Other { code, message, transient } => AcdpError::Wire {
                code,
                message,
                transient,
            },
        }
    }
}

impl CheckFault<String> {
    /// The same fault with its texts as character sequences.
    pub open spec fn view(&self) -> CheckFault<Seq<char>> {
        match self {
            CheckFault::Schema(t) => CheckFault::Schema(t@),
            CheckFault::HashMismatch { stored, recomputed } => CheckFault::HashMismatch {
                stored: stored@,
                recomputed: recomputed@,
            },
            CheckFault::EmbeddedTooLarge { bytes, limit } => CheckFault::EmbeddedTooLarge {
                bytes: *bytes,
                limit: *limit,
            },
            CheckFault::KeyResolution(t) => CheckFault::KeyResolution(t@),
            CheckFault::Serialization(t) => CheckFault::Serialization(t@),
            CheckFault::Other { code, message, transient } => CheckFault::Other {
                code: code@,
                message: message@,
                transient: *transient,
            },
        }
    }

    /// The failure that follows from the fault.
    pub fn to_error(&self) -> (e: AcdpError)
        ensures
            e@ == self@.failure(),
    {
        match self {
            CheckFault::Schema(t) => AcdpError::SchemaViolation(SchemaFault::Reported(t.clone())),
            CheckFault::HashMismatch { stored, recomputed } => AcdpError::HashMismatch {
                stored: stored.clone(),
                recomputed: recomputed.clone(),
            },
            CheckFault::EmbeddedTooLarge { bytes, limit } => AcdpError::EmbeddedTooLarge {
                bytes: *bytes,
                limit: *limit,
            },
            CheckFault::KeyResolution(t) => AcdpError::KeyResolution(
                KeyFault::Reported(t.clone()),
            ),
            CheckFault::Serialization(t) => AcdpError::Serialization(t.clone()),
            CheckFault::Other { code, message, transient } => AcdpError::Wire {
                code: code.clone(),
                message: message.clone(),
                transient: *transient,
            },
        }
    }
}

/// The result of a collaborator's check, with the failure that follows.
pub open spec fn reported<T>(r: Result<T, CheckFault>) -> Result<T, AcdpError<Seq<char>>> {
    match r {
        Ok(t) => Ok(t),
        Err(f) => Err(f@.failure()),
    }
}

/// Copies a result that carries nothing but its failure.
pub fn copy_check(r: &Result<(), AcdpError>) -> (copy: Result<(), AcdpError>)
    ensures
        checked(copy) == checked(*r),
{
    match r {
        Ok(()) => Ok(()),
        Err(e) => Err(e.clone()),
    }
}

/// A failure may pass exactly if something was not reached, if the registry
/// said so, or if it is that of a search that failed for such a reason.
pub proof fn law_which_failures_may_pass(e: AcdpError<Seq<char>>)
    ensures
        e.transient() <==> {
            ||| e is KeyResolutionUnreachable
            ||| e is Http
            ||| e is Wire && e->Wire_transient
            ||| e is RevocationDiscoveryFailed && e->source.transient()
        },
{
}

/// No fault that a check reports is taken for another kind of failure, and
/// none may pass but one of which that was said.
pub proof fn law_faults_keep_their_kind(f: CheckFault<Seq<char>>)
    ensures
        f is Schema <==> f.failure() is SchemaViolation,
        f is HashMismatch <==> f.failure() is HashMismatch,
        f is EmbeddedTooLarge <==> f.failure() is EmbeddedTooLarge,
        f is KeyResolution <==> f.failure() is KeyResolution,
        f is Serialization <==> f.failure() is Serialization,
        f is Other <==> f.failure() is Wire,
        f.failure().transient() <==> f is Other && f->transient,
{
}

} // verus!
