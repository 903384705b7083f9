//! Key revocations: the statement, carried by an ordinary signed context,
//! that a key is compromised as of a stated time.
//!
//! [`KeyRevocation::from_body`] enforces the statement's shape and derives its
//! trust class; [`effective_boundary`] applies the rule that the earliest
//! boundary counts. Neither verifies a signature.

use vstd::prelude::*;
use vstd::string::*;
use crate::error::{AcdpError, AuthorizationFault, CheckFault, RevocationMember, SchemaFault};
use crate::json::{value_is_object, value_member, JsonMember};
use crate::text::{same_text, starts_with};
use crate::time::{parse_canonical_ms, Timestamp};
use crate::types::{
    authority_to_did_web, AgentDid, Body, ContextType, PublishRequest, Visibility,
};

verus! {

/// The most characters that a revocation's reason may have.
pub const MAX_REASON_CHARS: usize = 1024;

/// The two trust classes of a key revocation. They carry different authority
/// and are never collapsed into one.
#[derive(Clone, Copy, Debug, PartialEq, Eq, Structural)]
pub enum RevocationTrustClass {
    /// Signed by the producer's own current, non-revoked key: the stronger
    /// class.
    ProducerSigned,
    /// Published under a registry's identity on the producer's behalf: the
    /// weaker fallback for a producer that has lost every key. It imports
    /// the trust that the registry deserves.
    RegistryAttested,
}

/// A key revocation whose shape has been checked.
///
/// The fingerprint is what counts; `revoked_key_id` only helps a reader.
/// Signatures made strictly before `compromised_since` are the producer's
/// own; later ones are not attributable. There is no un-revoking.
#[derive(Debug, PartialEq, Eq)]
pub struct KeyRevocation {
    /// The revoked key: `sha256:` and 64 lowercase hexadecimal digits.
    pub revoked_key_fingerprint: String,
    /// The compromise boundary.
    pub compromised_since: Timestamp,
    /// What happened, in the publisher's words.
    pub reason: Option<String>,
    /// The identifier of the revoked key.
    pub revoked_key_id: Option<String>,
    /// Whose key it is.
    pub revoked_key_controller: AgentDid,
    /// Who published the revocation.
    pub publisher: AgentDid,
    /// Derived from the controller: absent or the publisher itself means
    /// producer-signed, anyone else means registry-attested.
    pub trust_class: RevocationTrustClass,
}

/// A [`KeyRevocation`] with its texts as character sequences.
pub struct KeyRevocationView {
    pub revoked_key_fingerprint: Seq<char>,
    pub compromised_since: Timestamp,
    pub reason: Option<Seq<char>>,
    pub revoked_key_id: Option<Seq<char>>,
    pub revoked_key_controller: Seq<char>,
    pub publisher: Seq<char>,
    pub trust_class: RevocationTrustClass,
}

impl KeyRevocationView {
    /// Whether this revocation is about the key with this fingerprint.
    pub open spec fn names_key(self, fingerprint: Seq<char>) -> bool {
        self.revoked_key_fingerprint == fingerprint
    }
}

/// The revocations of a list.
pub open spec fn revocations_view(v: Seq<KeyRevocation>) -> Seq<KeyRevocationView> {
    v.map_values(|r: KeyRevocation| r@)
}

/// The metadata members of a key revocation, as they stand in the document.
#[derive(Debug, PartialEq, Eq)]
pub struct RevocationMetadata {
    pub fingerprint: Option<JsonMember>,
    pub compromised_since: Option<JsonMember>,
    pub reason: Option<JsonMember>,
    pub key_id: Option<JsonMember>,
    pub controller: Option<JsonMember>,
}

/// A [`RevocationMetadata`] with its texts as character sequences: each
/// member is absent, text, or something that is not text.
pub struct RevocationMetadataView {
    pub fingerprint: Option<Option<Seq<char>>>,
    pub compromised_since: Option<Option<Seq<char>>>,
    pub reason: Option<Option<Seq<char>>>,
    pub key_id: Option<Option<Seq<char>>>,
    pub controller: Option<Option<Seq<char>>>,
}

impl RevocationMetadata {
    /// The members with their texts as character sequences.
    pub open spec fn view(&self) -> RevocationMetadataView {
        RevocationMetadataView {
            fingerprint: crate::json::member_view(self.fingerprint),
            compromised_since: crate::json::member_view(self.compromised_since),
            reason: crate::json::member_view(self.reason),
            key_id: crate::json::member_view(self.key_id),
            controller: crate::json::member_view(self.controller),
        }
    }
}

/// An optional [`RevocationMetadata`] as a contract sees it.
pub open spec fn metadata_view(m: Option<RevocationMetadata>) -> Option<RevocationMetadataView> {
    match m {
        Some(m) => Some(m@),
        None => None,
    }
}

/// The revocation members of a document's metadata; none where the document
/// has no metadata or the metadata is not an object.
pub open spec fn metadata_of(v: Option<serde_json::Value>) -> Option<RevocationMetadataView> {
    match v {
        Some(v) => if crate::json::json_is_object(v) {
            Some(
                RevocationMetadataView {
                    fingerprint: crate::json::member_of(v, "revoked_key_fingerprint"@),
                    compromised_since: crate::json::member_of(v, "compromised_since"@),
                    reason: crate::json::member_of(v, "reason"@),
                    key_id: crate::json::member_of(v, "revoked_key_id"@),
                    controller: crate::json::member_of(v, "revoked_key_controller"@),
                },
            )
        } else {
            None
        },
        None => None,
    }
}

/// Reads the revocation members of a document's metadata.
pub fn read_metadata(v: &Option<serde_json::Value>) -> (meta: Option<RevocationMetadata>)
    ensures
        metadata_view(meta) == metadata_of(*v),
{
    match v {
        Some(v) => {
            if !value_is_object(v) {
                return None;
            }
            Some(
                RevocationMetadata {
                    fingerprint: value_member(v, "revoked_key_fingerprint"),
                    compromised_since: value_member(v, "compromised_since"),
                    reason: value_member(v, "reason"),
                    key_id: value_member(v, "revoked_key_id"),
                    controller: value_member(v, "revoked_key_controller"),
                },
            )
        },
        None => None,
    }
}

/// What resolving identities says about a revocation.
#[derive(Debug, PartialEq, Eq)]
pub struct DidChecks {
    /// Whether the declared controller is a well-formed identifier. Counts
    /// only where a controller is declared.
    pub controller: Result<(), CheckFault>,
    /// The fingerprint of the signing key, where a `did:key` key identifier
    /// gives it away. Counts only for such an identifier.
    pub signer_fingerprint: Option<String>,
}

/// A lowercase hexadecimal digit.
pub open spec fn is_lower_hex(c: char) -> bool {
    '0' <= c <= '9' || 'a' <= c <= 'f'
}

/// `sha256:` followed by exactly 64 lowercase hexadecimal digits.
pub open spec fn is_fingerprint(s: Seq<char>) -> bool {
    &&& s.len() == "sha256:"@.len() + 64
    &&& "sha256:"@.is_prefix_of(s)
    &&& forall|i: int| "sha256:"@.len() <= i < s.len() ==> is_lower_hex(#[trigger] s[i])
}

/// Whether `s` is `sha256:` followed by exactly 64 lowercase hexadecimal
/// digits.
pub fn is_sha256_fingerprint(s: &str) -> (yes: bool)
    ensures
        yes == is_fingerprint(s@),
{
    let prefix: &str = "sha256:";
    proof {
        reveal_strlit("sha256:");
    }
    let n: usize = s.unicode_len();
    if n != 71 || !starts_with(s, prefix) {
        return false;
    }
    let mut i: usize = 7;
    while i < n
        invariant
            7 <= i <= n,
            n == s@.len(),
            "sha256:"@.len() == 7,
            forall|k: int| 7 <= k < i ==> is_lower_hex(#[trigger] s@[k]),
        decreases n - i,
    {
        let c: char = s.get_char(i);
        if !(('0' <= c && c <= '9') || ('a' <= c && c <= 'f')) {
            assert(!is_lower_hex(s@[i as int]));
            return false;
        }
        i = i + 1;
    }
    true
}

/// Whether a key identifier belongs to a `did:key` identity, whose key
/// material stands in the identifier itself.
pub open spec fn is_did_key(key_id: Seq<char>) -> bool {
    "did:key:"@.is_prefix_of(key_id)
}

/// Whose key a revocation is about, given the controller it declares.
pub open spec fn controller_of(declared: Option<Seq<char>>, agent: Seq<char>) -> Seq<char> {
    match declared {
        Some(c) => c,
        None => agent,
    }
}

/// The trust class of a revocation, given the controller it declares.
pub open spec fn class_of(declared: Option<Seq<char>>, agent: Seq<char>) -> RevocationTrustClass {
    if controller_of(declared, agent) == agent {
        RevocationTrustClass::ProducerSigned
    } else {
        RevocationTrustClass::RegistryAttested
    }
}

/// The text of a member that may be absent but must not be anything else than
/// text.
pub open spec fn optional_text(m: Option<Option<Seq<char>>>, name: RevocationMember) -> Result<
    Option<Seq<char>>,
    AcdpError<Seq<char>>,
> {
    match m {
        None => Ok(None),
        Some(Some(t)) => Ok(Some(t)),
        Some(None) => Err(AcdpError::SchemaViolation(SchemaFault::MemberNotText(name))),
    }
}

/// The text of a member that must be there and must be text.
pub open spec fn required_text(m: Option<Option<Seq<char>>>, name: RevocationMember) -> Result<
    Seq<char>,
    AcdpError<Seq<char>>,
> {
    match m {
        Some(Some(t)) => Ok(t),
        _ => Err(AcdpError::SchemaViolation(SchemaFault::MemberRequired(name))),
    }
}

/// The revocation that the metadata states, where `since` is the instant that
/// its boundary writes in canonical form. The failures are listed in the
/// order in which they are reported.
pub open spec fn stated_revocation(
    meta: RevocationMetadataView,
    since: Option<Timestamp>,
    agent: Seq<char>,
    controller_check: Result<(), AcdpError<Seq<char>>>,
) -> Result<KeyRevocationView, AcdpError<Seq<char>>> {
    match required_text(meta.fingerprint, RevocationMember::Fingerprint) {
        Err(e) => Err(e),
        Ok(fingerprint) => if !is_fingerprint(fingerprint) {
            Err(AcdpError::SchemaViolation(SchemaFault::MalformedFingerprint(fingerprint)))
        } else {
            match required_text(meta.compromised_since, RevocationMember::CompromisedSince) {
                Err(e) => Err(e),
                Ok(raw) => match since {
                    None => Err(AcdpError::SchemaViolation(SchemaFault::NonCanonicalTimestamp(raw))),
                    Some(t) => stated_optionals(meta, fingerprint, t, agent, controller_check),
                },
            }
        },
    }
}

/// [`stated_revocation`] from its optional members on.
pub open spec fn stated_optionals(
    meta: RevocationMetadataView,
    fingerprint: Seq<char>,
    since: Timestamp,
    agent: Seq<char>,
    controller_check: Result<(), AcdpError<Seq<char>>>,
) -> Result<KeyRevocationView, AcdpError<Seq<char>>> {
    match optional_text(meta.reason, RevocationMember::Reason) {
        Err(e) => Err(e),
        Ok(reason) => if reason is Some && reason.unwrap().len() > MAX_REASON_CHARS {
            Err(AcdpError::SchemaViolation(SchemaFault::ReasonTooLong))
        } else {
            match optional_text(meta.key_id, RevocationMember::KeyId) {
                Err(e) => Err(e),
                Ok(key_id) => match optional_text(meta.controller, RevocationMember::Controller) {
                    Err(e) => Err(e),
                    Ok(declared) => if declared is Some && controller_check is Err {
                        Err(controller_check->Err_0)
                    } else {
                        Ok(
                            KeyRevocationView {
                                revoked_key_fingerprint: fingerprint,
                                compromised_since: since,
                                reason,
                                revoked_key_id: key_id,
                                revoked_key_controller: controller_of(declared, agent),
                                publisher: agent,
                                trust_class: class_of(declared, agent),
                            },
                        )
                    },
                },
            }
        },
    }
}

/// The revocation that a context states: of the right type, public, with a
/// well-shaped statement, and not signed by a `did:key` key that it revokes.
pub open spec fn revocation_of(
    context_type: ContextType,
    visibility: Visibility,
    meta: Option<RevocationMetadataView>,
    since: Option<Timestamp>,
    agent: Seq<char>,
    signing_key_id: Seq<char>,
    controller_check: Result<(), AcdpError<Seq<char>>>,
    signer_fingerprint: Option<Seq<char>>,
) -> Result<KeyRevocationView, AcdpError<Seq<char>>> {
    if !context_type.revokes_key() {
        Err(
            AcdpError::SchemaViolation(
                SchemaFault::NotKeyRevocation { context_type: context_type.name() },
            ),
        )
    } else if visibility != Visibility::Public {
        Err(AcdpError::SchemaViolation(SchemaFault::NotPublic))
    } else {
        match meta {
            None => Err(AcdpError::SchemaViolation(SchemaFault::NoMetadataObject)),
            Some(meta) => match stated_revocation(meta, since, agent, controller_check) {
                Err(e) => Err(e),
                Ok(r) => if is_did_key(signing_key_id) && signer_fingerprint == Some(
                    r.revoked_key_fingerprint,
                ) {
                    Err(
                        AcdpError::KeyNotAuthorized(
                            AuthorizationFault::SelfSigned(r.revoked_key_fingerprint),
                        ),
                    )
                } else {
                    Ok(r)
                },
            },
        }
    }
}

/// The instant that the boundary of a revocation writes in canonical form.
pub open spec fn boundary_instant(meta: Option<RevocationMetadataView>) -> Option<Timestamp> {
    match meta {
        Some(m) => match m.compromised_since {
            Some(Some(raw)) => crate::time::canonical_instant(raw),
            _ => None,
        },
        None => None,
    }
}

/// The revocation that a context with these parts states.
pub open spec fn parts_revocation(
    context_type: ContextType,
    visibility: Visibility,
    metadata: Option<serde_json::Value>,
    agent: Seq<char>,
    signing_key_id: Seq<char>,
    dids: DidChecks,
) -> Result<KeyRevocationView, AcdpError<Seq<char>>> {
    revocation_of(
        context_type,
        visibility,
        metadata_of(metadata),
        boundary_instant(metadata_of(metadata)),
        agent,
        signing_key_id,
        crate::error::reported(dids.controller),
        crate::error::opt_text(dids.signer_fingerprint),
    )
}

/// The revocation that a published context states.
pub open spec fn body_revocation(body: Body, dids: DidChecks) -> Result<
    KeyRevocationView,
    AcdpError<Seq<char>>,
> {
    parts_revocation(
        body.context_type,
        body.visibility,
        body.metadata,
        body.agent_id@,
        body.signature.key_id@,
        dids,
    )
}

/// The revocation that a publish request states.
pub open spec fn request_revocation(req: PublishRequest, dids: DidChecks) -> Result<
    KeyRevocationView,
    AcdpError<Seq<char>>,
> {
    parts_revocation(
        req.context_type,
        req.visibility,
        req.metadata,
        req.agent_id@,
        req.signature.key_id@,
        dids,
    )
}

/// A parsed revocation as a contract sees it.
pub open spec fn parsed(r: Result<KeyRevocation, AcdpError>) -> Result<
    KeyRevocationView,
    AcdpError<Seq<char>>,
> {
    match r {
        Ok(r) => Ok(r@),
        Err(e) => Err(e@),
    }
}

fn required_str(m: &Option<JsonMember>, name: RevocationMember) -> (text: Result<&str, AcdpError>)
    ensures
        match text {
            Ok(t) => required_text(crate::json::member_view(*m), name) == Ok::<
                Seq<char>,
                AcdpError<Seq<char>>,
            >(t@),
            Err(e) => required_text(crate::json::member_view(*m), name) == Err::<
                Seq<char>,
                AcdpError<Seq<char>>,
            >(e@),
        },
{
    match m {
        Some(JsonMember::Text(t)) => Ok(t.as_str()),
        _ => Err(AcdpError::SchemaViolation(SchemaFault::MemberRequired(name))),
    }
}

fn optional_str(m: &Option<JsonMember>, name: RevocationMember) -> (text: Result<
    Option<String>,
    AcdpError,
>)
    ensures
        match text {
            Ok(t) => optional_text(crate::json::member_view(*m), name) == Ok::<
                Option<Seq<char>>,
                AcdpError<Seq<char>>,
            >(crate::error::opt_text(t)),
            Err(e) => optional_text(crate::json::member_view(*m), name) == Err::<
                Option<Seq<char>>,
                AcdpError<Seq<char>>,
            >(e@),
        },
{
    match m {
        None => Ok(None),
        Some(JsonMember::Text(t)) => Ok(Some(t.clone())),
        Some(JsonMember::Other) => Err(
            AcdpError::SchemaViolation(SchemaFault::MemberNotText(name)),
        ),
    }
}

impl KeyRevocation {
    /// The revocation with its texts as character sequences.
    pub open spec fn view(&self) -> KeyRevocationView {
        KeyRevocationView {
            revoked_key_fingerprint: self.revoked_key_fingerprint@,
            compromised_since: self.compromised_since,
            reason: crate::error::opt_text(self.reason),
            revoked_key_id: crate::error::opt_text(self.revoked_key_id),
            revoked_key_controller: self.revoked_key_controller@,
            publisher: self.publisher@,
            trust_class: self.trust_class,
        }
    }

    /// Reads the revocation that a published context states and checks its
    /// shape.
    pub fn from_body(body: &Body, dids: &DidChecks) -> (r: Result<Self, AcdpError>)
        ensures
            parsed(r) == body_revocation(*body, *dids),
    {
        Self::from_parts(
            &body.context_type,
            body.visibility,
            &body.metadata,
            &body.agent_id,
            body.signature.key_id.as_str(),
            dids,
        )
    }

    /// Reads the revocation that a publish request states and checks its
    /// shape, by the same rules as [`Self::from_body`].
    pub fn from_publish_request(req: &PublishRequest, dids: &DidChecks) -> (r: Result<
        Self,
        AcdpError,
    >)
        ensures
            parsed(r) == request_revocation(*req, *dids),
    {
        Self::from_parts(
            &req.context_type,
            req.visibility,
            &req.metadata,
            &req.agent_id,
            req.signature.key_id.as_str(),
            dids,
        )
    }

    fn from_parts(
        context_type: &ContextType,
        visibility: Visibility,
        metadata: &Option<serde_json::Value>,
        agent_id: &AgentDid,
        signing_key_id: &str,
        dids: &DidChecks,
    ) -> (r: Result<Self, AcdpError>)
        ensures
            parsed(r) == parts_revocation(
                *context_type,
                visibility,
                *metadata,
                agent_id@,
                signing_key_id@,
                *dids,
            ),
    {
        let meta = read_metadata(metadata);
        let since: Option<Timestamp> = match &meta {
            Some(m) => match &m.compromised_since {
                Some(JsonMember::Text(raw)) => parse_canonical_ms(raw.as_str()),
                _ => None,
            },
            None => None,
        };
        Self::from_members(context_type, visibility, &meta, since, agent_id, signing_key_id, dids)
    }

    /// Reads a revocation from the members of its metadata, given the instant
    /// that the boundary among them writes in canonical form.
    pub fn from_members(
        context_type: &ContextType,
        visibility: Visibility,
        meta: &Option<RevocationMetadata>,
        since: Option<Timestamp>,
        agent_id: &AgentDid,
        signing_key_id: &str,
        dids: &DidChecks,
    ) -> (r: Result<Self, AcdpError>)
        ensures
            parsed(r) == revocation_of(
                *context_type,
                visibility,
                metadata_view(*meta),
                since,
                agent_id@,
                signing_key_id@,
                crate::error::reported(dids.controller),
                crate::error::opt_text(dids.signer_fingerprint),
            ),
    {
        if !context_type.is_key_revocation() {
            return Err(
                AcdpError::SchemaViolation(
                    SchemaFault::NotKeyRevocation { context_type: context_type.label() },
                ),
            );
        }
        if visibility != Visibility::Public {
            return Err(AcdpError::SchemaViolation(SchemaFault::NotPublic));
        }
        let meta: &RevocationMetadata = match meta {
            Some(m) => m,
            None => {
                return Err(AcdpError::SchemaViolation(SchemaFault::NoMetadataObject));
            },
        };
        let revocation: KeyRevocation = match Self::state(meta, since, agent_id, &dids.controller) {
            Ok(r) => r,
            Err(e) => {
                return Err(e);
            },
        };
        if starts_with(signing_key_id, "did:key:") {
            if let Some(fingerprint) = &dids.signer_fingerprint {
                if let Err(e) = revocation.check_not_self_signed(fingerprint.as_str()) {
                    return Err(e);
                }
            }
        }
        Ok(revocation)
    }

    fn state(
        meta: &RevocationMetadata,
        since: Option<Timestamp>,
        agent_id: &AgentDid,
        controller_check: &Result<(), CheckFault>,
    ) -> (r: Result<Self, AcdpError>)
        ensures
            parsed(r) == stated_revocation(
                meta@,
                since,
                agent_id@,
                crate::error::reported(*controller_check),
            ),
    {
        let fingerprint: &str = match required_str(
            &meta.fingerprint,
            RevocationMember::Fingerprint,
        ) {
            Ok(t) => t,
            Err(e) => {
                return Err(e);
            },
        };
        if !is_sha256_fingerprint(fingerprint) {
            return Err(
                AcdpError::SchemaViolation(
                    SchemaFault::MalformedFingerprint(fingerprint.to_owned()),
                ),
            );
        }
        let raw: &str = match required_str(
            &meta.compromised_since,
            RevocationMember::CompromisedSince,
        ) {
            Ok(t) => t,
            Err(e) => {
                return Err(e);
            },
        };
        let compromised_since: Timestamp = match since {
            Some(t) => t,
            None => {
                return Err(
                    AcdpError::SchemaViolation(SchemaFault::NonCanonicalTimestamp(raw.to_owned())),
                );
            },
        };
        let reason: Option<String> = match optional_str(&meta.reason, RevocationMember::Reason) {
            Ok(t) => t,
            Err(e) => {
                return Err(e);
            },
        };
        if let Some(text) = &reason {
            if text.as_str().unicode_len() > MAX_REASON_CHARS {
                return Err(AcdpError::SchemaViolation(SchemaFault::ReasonTooLong));
            }
        }
        let revoked_key_id: Option<String> = match optional_str(
            &meta.key_id,
            RevocationMember::KeyId,
        ) {
            Ok(t) => t,
            Err(e) => {
                return Err(e);
            },
        };
        let declared: Option<String> = match optional_str(
            &meta.controller,
            RevocationMember::Controller,
        ) {
            Ok(t) => t,
            Err(e) => {
                return Err(e);
            },
        };
        let controller: AgentDid = match declared {
            None => agent_id.clone(),
            Some(c) => {
                if let Err(f) = controller_check {
                    return Err(f.to_error());
                }
                AgentDid(c)
            },
        };
        let trust_class: RevocationTrustClass = if controller.same(agent_id) {
            RevocationTrustClass::ProducerSigned
        } else {
            RevocationTrustClass::RegistryAttested
        };
        Ok(
            KeyRevocation {
                revoked_key_fingerprint: fingerprint.to_owned(),
                compromised_since,
                reason,
                revoked_key_id,
                revoked_key_controller: controller,
                publisher: agent_id.clone(),
                trust_class,
            },
        )
    }

    /// Refuses a revocation that is signed by the very key it revokes: such a
    /// statement proves only possession of that key.
    pub fn check_not_self_signed(&self, signing_key_fingerprint: &str) -> (r: Result<
        (),
        AcdpError,
    >)
        ensures
            crate::error::checked(r) == not_self_signed(
                Some(self@.revoked_key_fingerprint),
                signing_key_fingerprint@,
            ),
    {
        if self.revokes(signing_key_fingerprint) {
            return Err(
                AcdpError::KeyNotAuthorized(
                    AuthorizationFault::SelfSigned(self.revoked_key_fingerprint.clone()),
                ),
            );
        }
        Ok(())
    }

    /// Whether this revocation is about the key with this fingerprint.
    pub fn revokes(&self, key_fingerprint: &str) -> (yes: bool)
        ensures
            yes == self@.names_key(key_fingerprint@),
    {
        same_text(self.revoked_key_fingerprint.as_str(), key_fingerprint)
    }

    /// Refuses a publish request whose stated revocation is signed by the key
    /// it revokes, without requiring anything else of the statement: one that
    /// names no fingerprint passes.
    pub fn check_not_self_signed_lenient(
        req: &PublishRequest,
        signing_key_fingerprint: &str,
    ) -> (r: Result<(), AcdpError>)
        ensures
            crate::error::checked(r) == not_self_signed(
                named_fingerprint(metadata_of(req.metadata)),
                signing_key_fingerprint@,
            ),
    {
        let meta = read_metadata(&req.metadata);
        Self::check_named_fingerprint(&meta, signing_key_fingerprint)
    }

    /// Refuses metadata that names the signing key as revoked.
    pub fn check_named_fingerprint(
        meta: &Option<RevocationMetadata>,
        signing_key_fingerprint: &str,
    ) -> (r: Result<(), AcdpError>)
        ensures
            crate::error::checked(r) == not_self_signed(
                named_fingerprint(metadata_view(*meta)),
                signing_key_fingerprint@,
            ),
    {
        if let Some(meta) = meta {
            if let Some(JsonMember::Text(fingerprint)) = &meta.fingerprint {
                if same_text(fingerprint.as_str(), signing_key_fingerprint) {
                    return Err(
                        AcdpError::KeyNotAuthorized(
                            AuthorizationFault::SelfSigned(fingerprint.clone()),
                        ),
                    );
                }
            }
        }
        Ok(())
    }

    /// [`Self::check_not_self_signed_lenient`] for a `did:key` signer, whose
    /// fingerprint the key identifier gives away. Any other signer passes,
    /// and so does one whose fingerprint could not be derived.
    pub fn check_not_self_signed_did_key_lenient(
        req: &PublishRequest,
        signer_fingerprint: &Option<String>,
    ) -> (r: Result<(), AcdpError>)
        ensures
            crate::error::checked(r) == if is_did_key(req.signature.key_id@)
                && signer_fingerprint is Some {
                not_self_signed(
                    named_fingerprint(metadata_of(req.metadata)),
                    signer_fingerprint->Some_0@,
                )
            } else {
                Ok(())
            },
    {
        if !starts_with(req.signature.key_id.as_str(), "did:key:") {
            return Ok(());
        }
        match signer_fingerprint {
            Some(fingerprint) => Self::check_not_self_signed_lenient(req, fingerprint.as_str()),
            None => Ok(()),
        }
    }

    /// Binds a registry-attested revocation to the registry it came from: its
    /// publisher must be the identity of the authority that served it and the
    /// identity that the registry advertises.
    pub fn cross_check_registry_binding(
        &self,
        serving_authority: &str,
        capabilities_registry_did: &str,
    ) -> (r: Result<(), AcdpError>)
        ensures
            crate::error::checked(r) == registry_binding(
                self@.publisher,
                serving_authority@,
                capabilities_registry_did@,
            ),
    {
        let expected: String = authority_to_did_web(serving_authority);
        if !same_text(self.publisher.as_str(), expected.as_str()) {
            return Err(
                AcdpError::KeyNotAuthorized(
                    AuthorizationFault::PublisherNotServing {
                        publisher: self.publisher.0.clone(),
                        expected,
                    },
                ),
            );
        }
        if !same_text(self.publisher.as_str(), capabilities_registry_did) {
            return Err(
                AcdpError::KeyNotAuthorized(
                    AuthorizationFault::PublisherNotRegistry {
                        publisher: self.publisher.0.clone(),
                        registry_did: capabilities_registry_did.to_owned(),
                    },
                ),
            );
        }
        Ok(())
    }

    /// Whether both say the same.
    pub fn same(&self, other: &KeyRevocation) -> (yes: bool)
        ensures
            yes == (self@ == other@),
    {
        self.revoked_key_fingerprint == other.revoked_key_fingerprint && self.compromised_since
            == other.compromised_since && same_optional(&self.reason, &other.reason)
            && same_optional(&self.revoked_key_id, &other.revoked_key_id)
            && self.revoked_key_controller.same(&other.revoked_key_controller)
            && self.publisher.same(&other.publisher) && self.trust_class == other.trust_class
    }
}

fn same_optional(a: &Option<String>, b: &Option<String>) -> (yes: bool)
    ensures
        yes == (crate::error::opt_text(*a) == crate::error::opt_text(*b)),
{
    match (a, b) {
        (Some(x), Some(y)) => same_text(x.as_str(), y.as_str()),
        (None, None) => true,
        _ => false,
    }
}

fn copy_optional(t: &Option<String>) -> (copy: Option<String>)
    ensures
        copy == *t,
{
    match t {
        Some(s) => Some(s.clone()),
        None => None,
    }
}

impl Clone for KeyRevocation {
    fn clone(&self) -> (copy: Self)
        ensures
            copy == *self,
    {
        KeyRevocation {
            revoked_key_fingerprint: self.revoked_key_fingerprint.clone(),
            compromised_since: self.compromised_since,
            reason: copy_optional(&self.reason),
            revoked_key_id: copy_optional(&self.revoked_key_id),
            revoked_key_controller: self.revoked_key_controller.clone(),
            publisher: self.publisher.clone(),
            trust_class: self.trust_class,
        }
    }
}

/// The fingerprint that metadata names as revoked, if it names one.
pub open spec fn named_fingerprint(meta: Option<RevocationMetadataView>) -> Option<Seq<char>> {
    match meta {
        Some(m) => match m.fingerprint {
            Some(t) => t,
            None => None,
        },
        None => None,
    }
}

/// A key may not attest its own compromise.
pub open spec fn not_self_signed(revoked: Option<Seq<char>>, signer: Seq<char>) -> Result<
    (),
    AcdpError<Seq<char>>,
> {
    if revoked == Some(signer) {
        Err(AcdpError::KeyNotAuthorized(AuthorizationFault::SelfSigned(signer)))
    } else {
        Ok(())
    }
}

/// A registry-attested revocation counts only if its publisher is the serving
/// authority's identity and the advertised one.
pub open spec fn registry_binding(
    publisher: Seq<char>,
    serving_authority: Seq<char>,
    registry_did: Seq<char>,
) -> Result<(), AcdpError<Seq<char>>> {
    if publisher != crate::types::did_web_of(serving_authority) {
        Err(
            AcdpError::KeyNotAuthorized(
                AuthorizationFault::PublisherNotServing {
                    publisher,
                    expected: crate::types::did_web_of(serving_authority),
                },
            ),
        )
    } else if publisher != registry_did {
        Err(
            AcdpError::KeyNotAuthorized(
                AuthorizationFault::PublisherNotRegistry { publisher, registry_did },
            ),
        )
    } else {
        Ok(())
    }
}

/// The earlier of two boundaries, where none is no boundary at all.
pub open spec fn earlier(a: Option<Timestamp>, b: Option<Timestamp>) -> Option<Timestamp> {
    match (a, b) {
        (Some(x), Some(y)) => if y.is_before(x) {
            Some(y)
        } else {
            Some(x)
        },
        (Some(x), None) => Some(x),
        (None, y) => y,
    }
}

/// The boundary that one revocation sets for a key.
pub open spec fn own_boundary(r: KeyRevocationView, fingerprint: Seq<char>) -> Option<Timestamp> {
    if r.names_key(fingerprint) {
        Some(r.compromised_since)
    } else {
        None
    }
}

/// The boundary that a set of revocations sets for a key: the earliest of
/// those that name it.
pub open spec fn boundary(revocations: Seq<KeyRevocationView>, fingerprint: Seq<char>) -> Option<
    Timestamp,
>
    decreases revocations.len(),
{
    if revocations.len() == 0 {
        None
    } else {
        earlier(
            boundary(revocations.drop_last(), fingerprint),
            own_boundary(revocations.last(), fingerprint),
        )
    }
}

/// The earliest boundary among the revocations that name a key, or none where
/// no revocation names it.
///
/// A superseding revocation may widen the compromise window and never narrow
/// it, so every revocation of a lineage is to be among `revocations`, the
/// superseded ones too.
pub fn effective_boundary(revocations: &Vec<KeyRevocation>, key_fingerprint: &str) -> (t: Option<
    Timestamp,
>)
    ensures
        t == boundary(revocations_view(revocations@), key_fingerprint@),
{
    let mut earliest: Option<Timestamp> = None;
    let mut i: usize = 0;
    let ghost all = revocations_view(revocations@);
    while i < revocations.len()
        invariant
            i <= revocations.len(),
            all == revocations_view(revocations@),
            earliest == boundary(all.take(i as int), key_fingerprint@),
        decreases revocations.len() - i,
    {
        proof {
            assert(all.take(i as int + 1).drop_last() =~= all.take(i as int));
        }
        let r: &KeyRevocation = &revocations[i];
        if r.revokes(key_fingerprint) {
            earliest = match earliest {
                Some(t) => if r.compromised_since.before(t) {
                    Some(r.compromised_since)
                } else {
                    Some(t)
                },
                None => Some(r.compromised_since),
            };
        }
        i = i + 1;
    }
    proof {
        assert(all.take(i as int) =~= all);
    }
    earliest
}

/// The effective boundary is the earliest one: it exists exactly if some
/// revocation names the key, it is the boundary of one that does, and none
/// that does has an earlier one.
pub proof fn law_boundary_is_earliest(
    revocations: Seq<KeyRevocationView>,
    fingerprint: Seq<char>,
)
    ensures
        match boundary(revocations, fingerprint) {
            Some(b) => {
                &&& exists|i: int|
                    0 <= i < revocations.len() && (#[trigger] revocations[i]).names_key(fingerprint)
                        && revocations[i].compromised_since == b
                &&& forall|i: int|
                    0 <= i < revocations.len() && (#[trigger] revocations[i]).names_key(fingerprint)
                        ==> b.is_at_most(revocations[i].compromised_since)
            },
            None => forall|i: int|
                0 <= i < revocations.len() ==> !(#[trigger] revocations[i]).names_key(fingerprint),
        },
    decreases revocations.len(),
{
    if revocations.len() > 0 {
        let init = revocations.drop_last();
        law_boundary_is_earliest(init, fingerprint);
        let last = revocations.len() - 1;
        assert(revocations[last] == revocations.last());
        assert forall|i: int| 0 <= i < last implies #[trigger] revocations[i] == init[i] by {}
        match boundary(init, fingerprint) {
            Some(b) => {
                let w = choose|i: int|
                    0 <= i < init.len() && (#[trigger] init[i]).names_key(fingerprint)
                        && init[i].compromised_since == b;
                assert(revocations[w] == init[w]);
            },
            None => {},
        }
        match boundary(revocations, fingerprint) {
            Some(b) => {
                assert forall|i: int|
                    0 <= i < revocations.len() && (#[trigger] revocations[i]).names_key(
                        fingerprint,
                    ) implies b.is_at_most(revocations[i].compromised_since) by {
                    if i < last {
                        assert(init[i].names_key(fingerprint));
                    }
                }
            },
            None => {
                assert forall|i: int| 0 <= i < revocations.len() implies !(
                #[trigger] revocations[i]).names_key(fingerprint) by {
                    if i < last {
                        assert(!init[i].names_key(fingerprint));
                    }
                }
            },
        }
    }
}

/// Putting two sets of revocations together gives the earlier of their two
/// boundaries.
pub proof fn law_boundary_of_union(
    a: Seq<KeyRevocationView>,
    b: Seq<KeyRevocationView>,
    fingerprint: Seq<char>,
)
    ensures
        boundary(a + b, fingerprint) == earlier(
            boundary(a, fingerprint),
            boundary(b, fingerprint),
        ),
    decreases b.len(),
{
    if b.len() == 0 {
        assert(a + b =~= a);
    } else {
        law_boundary_of_union(a, b.drop_last(), fingerprint);
        assert((a + b).drop_last() =~= a + b.drop_last());
    }
}

/// More revocations can only move the boundary of a key earlier, never later,
/// and never remove it.
pub proof fn law_more_revocations_widen(
    a: Seq<KeyRevocationView>,
    b: Seq<KeyRevocationView>,
    fingerprint: Seq<char>,
)
    ensures
        boundary(a, fingerprint) matches Some(t) ==> {
            &&& boundary(a + b, fingerprint) matches Some(u)
            &&& u.is_at_most(t)
        },
        boundary(b, fingerprint) matches Some(t) ==> {
            &&& boundary(a + b, fingerprint) matches Some(u)
            &&& u.is_at_most(t)
        },
{
    law_boundary_of_union(a, b, fingerprint);
}

/// Neither the order in which revocations are given nor how often one is
/// given matters.
pub proof fn law_boundary_ignores_order_and_repetition(
    a: Seq<KeyRevocationView>,
    b: Seq<KeyRevocationView>,
    fingerprint: Seq<char>,
)
    requires
        forall|r: KeyRevocationView| a.contains(r) <==> b.contains(r),
    ensures
        boundary(a, fingerprint) == boundary(b, fingerprint),
{
    law_boundary_is_earliest(a, fingerprint);
    law_boundary_is_earliest(b, fingerprint);
    lemma_boundary_at_most(a, b, fingerprint);
    lemma_boundary_at_most(b, a, fingerprint);
}

proof fn lemma_boundary_at_most(
    a: Seq<KeyRevocationView>,
    b: Seq<KeyRevocationView>,
    fingerprint: Seq<char>,
)
    requires
        forall|r: KeyRevocationView| a.contains(r) ==> b.contains(r),
    ensures
        boundary(a, fingerprint) matches Some(t) ==> {
            &&& boundary(b, fingerprint) matches Some(u)
            &&& u.is_at_most(t)
        },
{
    law_boundary_is_earliest(a, fingerprint);
    law_boundary_is_earliest(b, fingerprint);
    if let Some(t) = boundary(a, fingerprint) {
        let i = choose|i: int|
            0 <= i < a.len() && (#[trigger] a[i]).names_key(fingerprint)
                && a[i].compromised_since == t;
        assert(a.contains(a[i]));
        let j = choose|j: int| 0 <= j < b.len() && b[j] == a[i];
        assert(b[j].names_key(fingerprint));
    }
}

/// Publishing changes nothing about a revocation: a stored context that keeps
/// the type, visibility, metadata, publisher and signing key of its request
/// states the same revocation, or fails in the same way.
pub proof fn law_body_and_request_agree(body: Body, req: PublishRequest, dids: DidChecks)
    requires
        body.context_type == req.context_type,
        body.visibility == req.visibility,
        body.metadata == req.metadata,
        body.agent_id@ == req.agent_id@,
        body.signature.key_id@ == req.signature.key_id@,
    ensures
        body_revocation(body, dids) == request_revocation(req, dids),
{
}

/// Whatever is read as a revocation has the shape that a revocation must
/// have: it comes from a public key-revocation context, its fingerprint and
/// its reason are in form, it is published by the context's own publisher,
/// and it is producer-signed exactly if the controller is that publisher.
pub proof fn law_revocation_is_in_shape(
    context_type: ContextType,
    visibility: Visibility,
    meta: Option<RevocationMetadataView>,
    since: Option<Timestamp>,
    agent: Seq<char>,
    signing_key_id: Seq<char>,
    controller_check: Result<(), AcdpError<Seq<char>>>,
    signer_fingerprint: Option<Seq<char>>,
)
    ensures
        revocation_of(
            context_type,
            visibility,
            meta,
            since,
            agent,
            signing_key_id,
            controller_check,
            signer_fingerprint,
        ) matches Ok(r) ==> {
            &&& context_type.revokes_key()
            &&& visibility == Visibility::Public
            &&& is_fingerprint(r.revoked_key_fingerprint)
            &&& since == Some(r.compromised_since)
            &&& (r.reason matches Some(text) ==> text.len() <= MAX_REASON_CHARS)
            &&& r.publisher == agent
            &&& (r.trust_class == RevocationTrustClass::ProducerSigned <==> r.revoked_key_controller
                == r.publisher)
        },
{
}

/// A key never attests its own compromise: no revocation is read from a
/// context whose `did:key` signer is the key that it would revoke.
pub proof fn law_did_key_signer_is_not_revoked(
    context_type: ContextType,
    visibility: Visibility,
    meta: Option<RevocationMetadataView>,
    since: Option<Timestamp>,
    agent: Seq<char>,
    signing_key_id: Seq<char>,
    controller_check: Result<(), AcdpError<Seq<char>>>,
    signer_fingerprint: Seq<char>,
)
    requires
        is_did_key(signing_key_id),
    ensures
        revocation_of(
            context_type,
            visibility,
            meta,
            since,
            agent,
            signing_key_id,
            controller_check,
            Some(signer_fingerprint),
        ) matches Ok(r) ==> !r.names_key(signer_fingerprint),
{
}

/// Whether parts of a context state exactly this revocation: a public context
/// of the type, in either spelling, whose metadata names the key by a
/// fingerprint in form and the boundary, and gives what else the revocation
/// says as texts, the reason with at most 1024 characters; the controller, if
/// one is declared, is well formed, and the context is not signed by the
/// revoked key itself.
pub open spec fn is_stated_by(
    r: KeyRevocationView,
    context_type: ContextType,
    visibility: Visibility,
    meta: RevocationMetadataView,
    since: Option<Timestamp>,
    agent: Seq<char>,
    signing_key_id: Seq<char>,
    controller_check: Result<(), AcdpError<Seq<char>>>,
    signer_fingerprint: Option<Seq<char>>,
) -> bool {
    &&& context_type is KeyRevocation || (context_type is Custom && context_type->Custom_0@
        == "acdp:key-revocation"@)
    &&& visibility == Visibility::Public
    &&& meta.fingerprint == Some(Some(r.revoked_key_fingerprint))
    &&& r.revoked_key_fingerprint.len() == 71
    &&& r.revoked_key_fingerprint.take(7) == "sha256:"@
    &&& forall|i: int|
        7 <= i < 71 ==> '0' <= (#[trigger] r.revoked_key_fingerprint[i]) <= '9' || 'a'
            <= r.revoked_key_fingerprint[i] <= 'f'
    &&& meta.compromised_since is Some && meta.compromised_since->Some_0 is Some
    &&& since == Some(r.compromised_since)
    &&& if meta.reason is None {
        r.reason is None
    } else {
        r.reason is Some && meta.reason == Some(r.reason) && r.reason->Some_0.len() <= 1024
    }
    &&& if meta.key_id is None {
        r.revoked_key_id is None
    } else {
        r.revoked_key_id is Some && meta.key_id == Some(r.revoked_key_id)
    }
    &&& if meta.controller is None {
        r.revoked_key_controller == agent
    } else {
        meta.controller == Some(Some(r.revoked_key_controller)) && controller_check is Ok
    }
    &&& r.publisher == agent
    &&& r.trust_class == if r.revoked_key_controller == agent {
        RevocationTrustClass::ProducerSigned
    } else {
        RevocationTrustClass::RegistryAttested
    }
    &&& !("did:key:"@.is_prefix_of(signing_key_id) && signer_fingerprint == Some(
        r.revoked_key_fingerprint,
    ))
}

/// A revocation is read whenever one is stated in shape, and it is the one
/// that is stated; without an object of metadata none is.
pub proof fn law_stated_revocations_are_read(
    r: KeyRevocationView,
    context_type: ContextType,
    visibility: Visibility,
    meta: Option<RevocationMetadataView>,
    since: Option<Timestamp>,
    agent: Seq<char>,
    signing_key_id: Seq<char>,
    controller_check: Result<(), AcdpError<Seq<char>>>,
    signer_fingerprint: Option<Seq<char>>,
)
    ensures
        revocation_of(
            context_type,
            visibility,
            meta,
            since,
            agent,
            signing_key_id,
            controller_check,
            signer_fingerprint,
        ) == Ok::<KeyRevocationView, AcdpError<Seq<char>>>(r) <==> meta is Some && is_stated_by(
            r,
            context_type,
            visibility,
            meta->Some_0,
            since,
            agent,
            signing_key_id,
            controller_check,
            signer_fingerprint,
        ),
{
    reveal_strlit("sha256:");
    if meta is Some {
        if let Some(Some(f)) = meta->Some_0.fingerprint {
            if f.len() == 71 {
                assert("sha256:"@.is_prefix_of(f) <==> f.take(7) == "sha256:"@) by {
                    assert(f.take(7) =~= f.subrange(0, 7));
                }
            }
            if f.len() == 71 && forall|i: int|
                7 <= i < 71 ==> '0' <= (#[trigger] f[i]) <= '9' || 'a' <= f[i] <= 'f' {
                assert(forall|i: int| 7 <= i < f.len() ==> is_lower_hex(#[trigger] f[i]));
            }
            if is_fingerprint(f) {
                assert forall|i: int| 7 <= i < 71 implies '0' <= (#[trigger] f[i]) <= '9' || 'a'
                    <= f[i] <= 'f' by {
                    assert(is_lower_hex(f[i]));
                }
            }
        }
    }
}

/// The revocation that a context states is read from the members of its
/// metadata under their five names, from its own type, visibility and
/// publisher, and from the key that signed it; a publish request is read in
/// the same way.
pub proof fn law_revocation_is_read_from_its_metadata(
    body: Body,
    req: PublishRequest,
    dids: DidChecks,
    r: KeyRevocationView,
    v: serde_json::Value,
)
    requires
        crate::json::json_is_object(v),
    ensures
        ({
            let meta = RevocationMetadataView {
                fingerprint: crate::json::member_of(v, "revoked_key_fingerprint"@),
                compromised_since: crate::json::member_of(v, "compromised_since"@),
                reason: crate::json::member_of(v, "reason"@),
                key_id: crate::json::member_of(v, "revoked_key_id"@),
                controller: crate::json::member_of(v, "revoked_key_controller"@),
            };
            let since = if meta.compromised_since is Some && meta.compromised_since->Some_0 is Some {
                crate::time::canonical_instant(meta.compromised_since->Some_0->Some_0)
            } else {
                None
            };
            &&& body.metadata == Some(v) ==> (body_revocation(body, dids) == Ok::<
                KeyRevocationView,
                AcdpError<Seq<char>>,
            >(r) <==> is_stated_by(
                r,
                body.context_type,
                body.visibility,
                meta,
                since,
                body.agent_id@,
                body.signature.key_id@,
                crate::error::reported(dids.controller),
                crate::error::opt_text(dids.signer_fingerprint),
            ))
            &&& req.metadata == Some(v) ==> (request_revocation(req, dids) == Ok::<
                KeyRevocationView,
                AcdpError<Seq<char>>,
            >(r) <==> is_stated_by(
                r,
                req.context_type,
                req.visibility,
                meta,
                since,
                req.agent_id@,
                req.signature.key_id@,
                crate::error::reported(dids.controller),
                crate::error::opt_text(dids.signer_fingerprint),
            ))
        }),
{
    let check = crate::error::reported(dids.controller);
    let fp = crate::error::opt_text(dids.signer_fingerprint);
    let meta = metadata_of(Some(v));
    let since = boundary_instant(meta);
    law_stated_revocations_are_read(
        r,
        body.context_type,
        body.visibility,
        meta,
        since,
        body.agent_id@,
        body.signature.key_id@,
        check,
        fp,
    );
    law_stated_revocations_are_read(
        r,
        req.context_type,
        req.visibility,
        meta,
        since,
        req.agent_id@,
        req.signature.key_id@,
        check,
        fp,
    );
}

/// An attested revocation is bound to its registry exactly if its publisher
/// is the identity of the authority that serves it and the one that the
/// registry has.
pub proof fn law_what_binds_an_attested_revocation(
    publisher: Seq<char>,
    serving_authority: Seq<char>,
    registry_did: Seq<char>,
)
    ensures
        registry_binding(publisher, serving_authority, registry_did) is Ok <==> publisher
            == crate::types::did_web_of(serving_authority) && publisher == registry_did,
        publisher != crate::types::did_web_of(serving_authority) ==> registry_binding(
            publisher,
            serving_authority,
            registry_did,
        ) == Err::<(), AcdpError<Seq<char>>>(
            AcdpError::KeyNotAuthorized(
                AuthorizationFault::PublisherNotServing {
                    publisher,
                    expected: crate::types::did_web_of(serving_authority),
                },
            ),
        ),
        publisher == crate::types::did_web_of(serving_authority) && publisher != registry_did
            ==> registry_binding(publisher, serving_authority, registry_did) == Err::<
            (),
            AcdpError<Seq<char>>,
        >(
            AcdpError::KeyNotAuthorized(
                AuthorizationFault::PublisherNotRegistry { publisher, registry_did },
            ),
        ),
{
}

/// Only the very key that is revoked is refused as the signer of its own
/// revocation.
pub proof fn law_only_the_revoked_key_is_refused(revoked: Option<Seq<char>>, signer: Seq<char>)
    ensures
        not_self_signed(revoked, signer) is Ok <==> revoked is None || revoked->Some_0 != signer,
        not_self_signed(revoked, signer) matches Err(e) ==> e == AcdpError::KeyNotAuthorized(
            AuthorizationFault::SelfSigned(signer),
        ),
{
}

/// A revocation that is not in shape is refused for the first thing that is
/// wrong with it: its type, its visibility, that it has no metadata, its
/// fingerprint, its boundary, its reason, the identifier of the key, its
/// controller, and last that it is signed with the revoked key.
pub proof fn law_shape_faults_come_in_order(
    context_type: ContextType,
    visibility: Visibility,
    meta: RevocationMetadataView,
    since: Option<Timestamp>,
    agent: Seq<char>,
    signing_key_id: Seq<char>,
    controller_check: Result<(), AcdpError<Seq<char>>>,
    signer_fingerprint: Option<Seq<char>>,
)
    ensures
        ({
            let r = revocation_of(
                context_type,
                visibility,
                Some(meta),
                since,
                agent,
                signing_key_id,
                controller_check,
                signer_fingerprint,
            );
            let none = revocation_of(
                context_type,
                visibility,
                None,
                since,
                agent,
                signing_key_id,
                controller_check,
                signer_fingerprint,
            );
            let revokes = context_type is KeyRevocation || (context_type is Custom
                && context_type->Custom_0@ == "acdp:key-revocation"@);
            let public = revokes && visibility == Visibility::Public;
            let named = public && meta.fingerprint is Some && meta.fingerprint->Some_0 is Some;
            let formed = named && is_fingerprint(meta.fingerprint->Some_0->Some_0);
            let dated = formed && meta.compromised_since is Some && meta.compromised_since->Some_0
                is Some;
            let placed = dated && since is Some;
            let reasoned = placed && meta.reason != Some(None::<Seq<char>>) && (meta.reason is Some
                ==> meta.reason->Some_0->Some_0.len() <= 1024);
            let keyed = reasoned && meta.key_id != Some(None::<Seq<char>>);
            let owned = keyed && meta.controller != Some(None::<Seq<char>>);
            &&& !revokes ==> r == Err::<KeyRevocationView, AcdpError<Seq<char>>>(
                AcdpError::SchemaViolation(
                    SchemaFault::NotKeyRevocation { context_type: context_type.name() },
                ),
            )
            &&& revokes && !public ==> r == Err::<KeyRevocationView, AcdpError<Seq<char>>>(
                AcdpError::SchemaViolation(SchemaFault::NotPublic),
            )
            &&& public ==> none == Err::<KeyRevocationView, AcdpError<Seq<char>>>(
                AcdpError::SchemaViolation(SchemaFault::NoMetadataObject),
            )
            &&& public && !named ==> r == Err::<KeyRevocationView, AcdpError<Seq<char>>>(
                AcdpError::SchemaViolation(
                    SchemaFault::MemberRequired(RevocationMember::Fingerprint),
                ),
            )
            &&& named && !formed ==> r == Err::<KeyRevocationView, AcdpError<Seq<char>>>(
                AcdpError::SchemaViolation(
                    SchemaFault::MalformedFingerprint(meta.fingerprint->Some_0->Some_0),
                ),
            )
            &&& formed && !dated ==> r == Err::<KeyRevocationView, AcdpError<Seq<char>>>(
                AcdpError::SchemaViolation(
                    SchemaFault::MemberRequired(RevocationMember::CompromisedSince),
                ),
            )
            &&& dated && !placed ==> r == Err::<KeyRevocationView, AcdpError<Seq<char>>>(
                AcdpError::SchemaViolation(
                    SchemaFault::NonCanonicalTimestamp(meta.compromised_since->Some_0->Some_0),
                ),
            )
            &&& placed && meta.reason == Some(None::<Seq<char>>) ==> r == Err::<
                KeyRevocationView,
                AcdpError<Seq<char>>,
            >(AcdpError::SchemaViolation(SchemaFault::MemberNotText(RevocationMember::Reason)))
            &&& placed && meta.reason != Some(None::<Seq<char>>) && !reasoned ==> r == Err::<
                KeyRevocationView,
                AcdpError<Seq<char>>,
            >(AcdpError::SchemaViolation(SchemaFault::ReasonTooLong))
            &&& reasoned && !keyed ==> r == Err::<KeyRevocationView, AcdpError<Seq<char>>>(
                AcdpError::SchemaViolation(SchemaFault::MemberNotText(RevocationMember::KeyId)),
            )
            &&& keyed && !owned ==> r == Err::<KeyRevocationView, AcdpError<Seq<char>>>(
                AcdpError::SchemaViolation(
                    SchemaFault::MemberNotText(RevocationMember::Controller),
                ),
            )
            &&& owned && meta.controller is Some && controller_check is Err ==> r == Err::<
                KeyRevocationView,
                AcdpError<Seq<char>>,
            >(controller_check->Err_0)
            &&& owned && (meta.controller is Some ==> controller_check is Ok)
                && "did:key:"@.is_prefix_of(signing_key_id) && signer_fingerprint
                == meta.fingerprint->Some_0 ==> r == Err::<
                KeyRevocationView,
                AcdpError<Seq<char>>,
            >(
                AcdpError::KeyNotAuthorized(
                    AuthorizationFault::SelfSigned(meta.fingerprint->Some_0->Some_0),
                ),
            )
        }),
{
}

/// The fingerprint that metadata names is the text of that member, and none
/// where there is no metadata, no such member or one that is no text.
pub proof fn law_which_fingerprint_is_named(meta: RevocationMetadataView, fingerprint: Seq<char>)
    ensures
        named_fingerprint(Some(meta)) == Some(fingerprint) <==> meta.fingerprint == Some(
            Some(fingerprint),
        ),
        named_fingerprint(None) is None,
{
}

/// Without an object of metadata, a context of the type states no revocation,
/// whatever else it says.
pub proof fn law_no_metadata_no_revocation(body: Body, req: PublishRequest, dids: DidChecks)
    ensures
        body.metadata is None || !crate::json::json_is_object(body.metadata->Some_0)
            ==> body_revocation(body, dids) is Err,
        req.metadata is None || !crate::json::json_is_object(req.metadata->Some_0)
            ==> request_revocation(req, dids) is Err,
{
}

} // verus!
