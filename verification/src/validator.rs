//! What a registry checks before it takes a publication in, and the
//! identifiers that it then assigns.

use vstd::prelude::*;
use vstd::string::*;
use crate::error::{
    AcdpError, AuthorizationFault, CheckFault, KeyFault, SchemaFault, SupersessionFault,
};
use crate::key_revocation::{read_metadata, DidChecks, KeyRevocation, RevocationTrustClass};
use crate::text::{all_digits, parse_u64, same_text, split, split_once};
use crate::types::{
    list_has, AgentDid, Body, CapabilitiesDocument, ContentHash, ContextType, CtxId, DataRef,
    PublishRequest,
};

verus! {

/// A publication that passed validation: the registry can now assign
/// identifiers and keep it.
#[derive(Debug, PartialEq, Eq)]
pub struct ValidatedPublish {
    /// The hash recomputed over the producer's content.
    pub recomputed_hash: ContentHash,
}

/// What collaborators found out about a publish request.
#[derive(Debug, PartialEq, Eq)]
pub struct PublishChecks {
    /// Whether the request has the shape that every publish request has.
    pub schema: Result<(), CheckFault>,
    /// The hash recomputed over the producer's content.
    pub content_hash: Result<ContentHash, CheckFault>,
    /// The identities behind a key revocation.
    pub dids: DidChecks,
}

/// Validates publish requests for one registry. It keeps no state between
/// requests.
pub struct PublishValidator<'a> {
    caps: &'a CapabilitiesDocument,
    own_authority: Option<&'a str>,
}

/// Whether `v` is `major.minor.patch`: three runs of digits with dots
/// between them.
pub open spec fn is_version(v: Seq<char>) -> bool {
    let parts = crate::text::pieces(v, '.');
    parts.len() == 3 && forall|i: int|
        0 <= i < parts.len() ==> crate::text::is_number(#[trigger] parts[i])
}

/// Whether a version is at least `0.<minor>.0`; none where `v` is no version
/// or its numbers are out of range.
pub open spec fn version_reaches(v: Seq<char>, minor: u64) -> Option<bool> {
    let parts = crate::text::pieces(v, '.');
    if !is_version(v) {
        None
    } else {
        match (crate::text::u64_of(parts[0]), crate::text::u64_of(parts[1])) {
            (Some(major), Some(own_minor)) => Some(major > 0 || own_minor >= minor),
            _ => None,
        }
    }
}

/// Whether `v` is a well-formed `major.minor.patch` version.
pub fn is_well_formed_version(v: &str) -> (yes: bool)
    ensures
        yes == is_version(v@),
{
    let parts: Vec<&str> = split(v, '.');
    proof {
        assert(crate::text::texts(parts@).len() == parts@.len());
    }
    if parts.len() != 3 {
        return false;
    }
    let yes: bool = all_digits(parts[0]) && all_digits(parts[1]) && all_digits(parts[2]);
    proof {
        let t = crate::text::texts(parts@);
        assert(t[0] == parts@[0]@ && t[1] == parts@[1]@ && t[2] == parts@[2]@);
    }
    yes
}

fn reaches(v: &str, minor: u64) -> (r: Option<bool>)
    ensures
        r == version_reaches(v@, minor),
{
    if !is_well_formed_version(v) {
        return None;
    }
    let parts: Vec<&str> = split(v, '.');
    proof {
        let t = crate::text::texts(parts@);
        assert(t.len() == parts@.len());
        assert(t[0] == parts@[0]@ && t[1] == parts@[1]@);
    }
    match (parse_u64(parts[0]), parse_u64(parts[1])) {
        (Some(major), Some(own_minor)) => Some(major > 0 || own_minor >= minor),
        _ => None,
    }
}

/// Whether a registry of this version checks the shape of key revocations:
/// from 0.3.0 on, and always where the version is malformed.
pub open spec fn checks_revocations(version: Seq<char>) -> bool {
    version_reaches(version, 3) != Some(false)
}

/// Whether a registry of this version refuses the interim spelling of the
/// key-revocation type: from 0.5.0 on, and always where the version is
/// malformed.
pub open spec fn retires_interim(version: Seq<char>) -> bool {
    version_reaches(version, 5) != Some(false)
}

/// Whether a version is well formed and at least 0.5.0.
pub open spec fn advertises_0_5_0(version: Seq<char>) -> bool {
    version_reaches(version, 5) == Some(true)
}

/// Whether a registry of this version checks the shape of key revocations. A
/// malformed version turns the check on.
pub fn key_revocation_gate_applies(acdp_version: &str) -> (yes: bool)
    ensures
        yes == checks_revocations(acdp_version@),
{
    match reaches(acdp_version, 3) {
        Some(yes) => yes,
        None => true,
    }
}

/// Whether this is the interim spelling of the key-revocation type, and only
/// that.
pub fn is_interim_key_revocation_form(ct: &ContextType) -> (yes: bool)
    ensures
        yes == ct.is_interim(),
{
    match ct {
        ContextType::Custom(name) => same_text(name.as_str(), ContextType::interim_name()),
        _ => false,
    }
}

/// Whether a registry of this version refuses the interim spelling of the
/// key-revocation type. A malformed version turns the refusal on.
pub fn key_revocation_retirement_gate_applies(acdp_version: &str) -> (yes: bool)
    ensures
        yes == retires_interim(acdp_version@),
{
    match reaches(acdp_version, 5) {
        Some(yes) => yes,
        None => true,
    }
}

/// Whether a version is well formed and at least 0.5.0. A malformed version
/// does not count as a later one: this chooses between two error codes, and
/// the newer one is only for registries that declare the newer version.
pub fn advertises_0_5_0_or_higher(acdp_version: &str) -> (yes: bool)
    ensures
        yes == advertises_0_5_0(acdp_version@),
{
    match reaches(acdp_version, 5) {
        Some(yes) => yes,
        None => false,
    }
}

/// What is wrong with an embedded data reference, if anything: it does not
/// decode, it is too large, or it does not have its declared hash.
pub open spec fn embedded_fault(dr: DataRef, limit: u64) -> Option<AcdpError<Seq<char>>> {
    match dr.embedded {
        None => None,
        Some(check) => match check.decoded {
            Err(f) => Some(f@.failure()),
            Ok(bytes) => if bytes > limit {
                Some(AcdpError::EmbeddedTooLarge { bytes: bytes as u64, limit })
            } else {
                match check.hash {
                    Err(f) => Some(f@.failure()),
                    Ok(()) => None,
                }
            },
        },
    }
}

/// What is wrong with the first faulty data reference, if one is.
pub open spec fn first_embedded_fault(refs: Seq<DataRef>, limit: u64) -> Option<
    AcdpError<Seq<char>>,
>
    decreases refs.len(),
{
    if refs.len() == 0 {
        None
    } else {
        match first_embedded_fault(refs.drop_last(), limit) {
            Some(e) => Some(e),
            None => embedded_fault(refs.last(), limit),
        }
    }
}

fn check_embedded(refs: &Vec<DataRef>, limit: u64) -> (r: Result<(), AcdpError>)
    ensures
        crate::error::checked(r) == match first_embedded_fault(refs@, limit) {
            Some(e) => Err(e),
            None => Ok(()),
        },
{
    let mut i: usize = 0;
    while i < refs.len()
        invariant
            i <= refs.len(),
            first_embedded_fault(refs@.take(i as int), limit) is None,
        decreases refs.len() - i,
    {
        proof {
            assert(refs@.take(i as int + 1).drop_last() =~= refs@.take(i as int));
            lemma_first_fault_stays(refs@, i as int + 1, limit);
        }
        if let Some(check) = &refs[i].embedded {
            match &check.decoded {
                Err(f) => {
                    return Err(f.to_error());
                },
                Ok(bytes) => {
                    if *bytes as u64 > limit {
                        return Err(AcdpError::EmbeddedTooLarge { bytes: *bytes as u64, limit });
                    }
                },
            }
            if let Err(f) = &check.hash {
                return Err(f.to_error());
            }
        }
        i = i + 1;
    }
    proof {
        assert(refs@.take(i as int) =~= refs@);
    }
    Ok(())
}

/// A fault among the first references is the first fault of all of them.
proof fn lemma_first_fault_stays(refs: Seq<DataRef>, n: int, limit: u64)
    requires
        0 <= n <= refs.len(),
    ensures
        first_embedded_fault(refs.take(n), limit) is Some ==> first_embedded_fault(refs, limit)
            == first_embedded_fault(refs.take(n), limit),
    decreases refs.len(),
{
    if n < refs.len() {
        lemma_first_fault_stays(refs.drop_last(), n, limit);
        assert(refs.drop_last().take(n) =~= refs.take(n));
    } else {
        assert(refs.take(n) =~= refs);
    }
}

/// The method of an identity: its first two parts, `did:web` say.
pub open spec fn did_method(did: Seq<char>) -> Seq<char> {
    let parts = crate::text::pieces(did, ':');
    if parts.len() < 2 {
        did
    } else {
        parts[0] + ":"@ + parts[1]
    }
}

fn method_of(did: &str) -> (method: String)
    ensures
        method@ == did_method(did@),
{
    let parts: Vec<&str> = split(did, ':');
    proof {
        let t = crate::text::texts(parts@);
        assert(t.len() == parts@.len());
        if parts@.len() >= 2 {
            assert(t[0] == parts@[0]@ && t[1] == parts@[1]@);
        }
    }
    if parts.len() < 2 {
        return did.to_owned();
    }
    let mut method: String = parts[0].to_owned();
    method.append(":");
    method.append(parts[1]);
    method
}

/// Why a revocation's controller does not fit its publisher: a controller
/// other than the publisher is for the registry to name, and the registry
/// must name one.
pub open spec fn controller_fault(
    registry_did: Seq<char>,
    controller_present: bool,
    controller: Seq<char>,
    agent: Seq<char>,
) -> Option<AcdpError<Seq<char>>> {
    if controller_present && controller != agent && agent != registry_did {
        Some(
            AcdpError::SchemaViolation(
                SchemaFault::ForeignController { controller, agent_id: agent, registry_did },
            ),
        )
    } else if !controller_present && agent == registry_did {
        Some(AcdpError::SchemaViolation(SchemaFault::ControllerMissing { registry_did }))
    } else {
        None
    }
}

/// Whether metadata declares a controller at all.
pub open spec fn declares_controller(metadata: Option<serde_json::Value>) -> bool {
    crate::key_revocation::metadata_of(metadata) matches Some(m) && m.controller is Some
}

/// A failure, or none, as a result.
pub open spec fn unless(fault: Option<AcdpError<Seq<char>>>) -> Result<(), AcdpError<Seq<char>>> {
    match fault {
        Some(e) => Err(e),
        None => Ok(()),
    }
}

/// What is wrong with a key revocation that is to be published.
pub open spec fn revocation_fault(
    caps: CapabilitiesDocument,
    req: PublishRequest,
    dids: DidChecks,
) -> Option<AcdpError<Seq<char>>> {
    if req.context_type.is_interim() && retires_interim(caps.acdp_version@) {
        Some(AcdpError::SchemaViolation(SchemaFault::InterimFormRetired))
    } else if req.context_type.revokes_key() && checks_revocations(caps.acdp_version@) {
        match crate::key_revocation::request_revocation(req, dids) {
            Err(e) => Some(e),
            Ok(r) => controller_fault(
                caps.registry_did@,
                declares_controller(req.metadata),
                r.revoked_key_controller,
                req.agent_id@,
            ),
        }
    } else {
        None
    }
}

/// What is wrong with the key that a request is signed with: the algorithm or
/// the method of its identity is not supported, or it is not the publisher's.
pub open spec fn key_fault(caps: CapabilitiesDocument, req: PublishRequest) -> Option<
    AcdpError<Seq<char>>,
> {
    if !crate::types::list_view(caps.supported_signature_algorithms@).contains(
        req.signature.algorithm@,
    ) {
        Some(
            AcdpError::SchemaViolation(
                SchemaFault::UnsupportedAlgorithm(req.signature.algorithm@),
            ),
        )
    } else if !crate::types::list_view(caps.supported_did_methods@).contains(
        did_method(req.agent_id@),
    ) {
        Some(AcdpError::KeyResolution(KeyFault::UnsupportedMethod(did_method(req.agent_id@))))
    } else {
        match crate::text::halves(req.signature.key_id@, '#') {
            None => Some(
                AcdpError::KeyResolution(KeyFault::NoFragment(req.signature.key_id@)),
            ),
            Some((did, _)) => if did != req.agent_id@ {
                Some(
                    AcdpError::KeyNotAuthorized(
                        AuthorizationFault::ForeignKey { did, agent_id: req.agent_id@ },
                    ),
                )
            } else {
                None
            },
        }
    }
}

/// A context may only be superseded on its own registry.
pub open spec fn supersession_fault(
    own_authority: Option<Seq<char>>,
    supersedes: Option<CtxId>,
) -> Option<AcdpError<Seq<char>>> {
    match (own_authority, supersedes) {
        (Some(own), Some(target)) => if crate::types::authority_of(target@) != own {
            Some(
                AcdpError::SupersededTarget(
                    SupersessionFault::CrossRegistrySupersessionUnsupported {
                        target_authority: crate::types::authority_of(target@),
                        own_authority: own,
                    },
                ),
            )
        } else {
            None
        },
        _ => None,
    }
}

/// The first of three possible failures.
pub open spec fn first_of(
    a: Option<AcdpError<Seq<char>>>,
    b: Option<AcdpError<Seq<char>>>,
    c: Option<AcdpError<Seq<char>>>,
) -> Option<AcdpError<Seq<char>>> {
    if a is Some {
        a
    } else if b is Some {
        b
    } else {
        c
    }
}

/// What a registry makes of a publish request: the recomputed hash, or the
/// first thing that is wrong.
pub open spec fn publish_outcome(
    caps: CapabilitiesDocument,
    own_authority: Option<Seq<char>>,
    req: PublishRequest,
    raw_body_bytes: usize,
    checks: PublishChecks,
) -> Result<Seq<char>, AcdpError<Seq<char>>> {
    if checks.schema is Err {
        Err(checks.schema->Err_0@.failure())
    } else if raw_body_bytes > caps.limits.max_payload_bytes {
        Err(
            AcdpError::SchemaViolation(
                SchemaFault::PayloadOverLimit {
                    bytes: raw_body_bytes as u64,
                    limit: caps.limits.max_payload_bytes,
                },
            ),
        )
    } else {
        match first_embedded_fault(req.data_refs@, caps.limits.max_embedded_bytes) {
            Some(e) => Err(e),
            None => match checks.content_hash {
                Err(f) => Err(f@.failure()),
                Ok(hash) => if hash@ != req.content_hash@ {
                    Err(
                        AcdpError::HashMismatch {
                            stored: req.content_hash@,
                            recomputed: hash@,
                        },
                    )
                } else {
                    match first_of(
                        key_fault(caps, req),
                        supersession_fault(own_authority, req.supersedes),
                        revocation_fault(caps, req, checks.dids),
                    ) {
                        Some(e) => Err(e),
                        None => Ok(hash@),
                    }
                },
            },
        }
    }
}

/// The outcome of a validation as a contract sees it.
pub open spec fn validated(r: Result<ValidatedPublish, AcdpError>) -> Result<
    Seq<char>,
    AcdpError<Seq<char>>,
> {
    match r {
        Ok(v) => Ok(v.recomputed_hash@),
        Err(e) => Err(e@),
    }
}

impl<'a> PublishValidator<'a> {
    /// What the registry says of itself.
    pub closed spec fn capabilities(&self) -> CapabilitiesDocument {
        *self.caps
    }

    /// The registry's own authority, where supersession is confined to it.
    pub closed spec fn authority(&self) -> Option<Seq<char>> {
        match self.own_authority {
            Some(a) => Some(a@),
            None => None,
        }
    }

    /// A validator that lets a context of any registry be superseded.
    pub fn new(caps: &'a CapabilitiesDocument) -> (v: Self)
        ensures
            v.capabilities() == *caps,
            v.authority() is None,
    {
        Self { caps, own_authority: None }
    }

    /// A validator that refuses to supersede a context of another registry
    /// than the one at `own_authority`.
    pub fn for_authority(caps: &'a CapabilitiesDocument, own_authority: &'a str) -> (v: Self)
        ensures
            v.capabilities() == *caps,
            v.authority() == Some(own_authority@),
    {
        Self { caps, own_authority: Some(own_authority) }
    }

    /// Validates a publish request of `raw_body_bytes` bytes, up to the
    /// verification of its signature.
    pub fn validate_post_schema(
        &self,
        req: &PublishRequest,
        raw_body_bytes: usize,
        checks: &PublishChecks,
    ) -> (r: Result<ValidatedPublish, AcdpError>)
        ensures
            validated(r) == publish_outcome(
                self.capabilities(),
                self.authority(),
                *req,
                raw_body_bytes,
                *checks,
            ),
    {
        if let Err(f) = &checks.schema {
            return Err(f.to_error());
        }
        self.validate_registry_limits_and_crypto(req, raw_body_bytes, checks)
    }

    /// The same as [`Self::validate_post_schema`], under an older name.
    pub fn validate_structural(
        &self,
        req: &PublishRequest,
        raw_body_bytes: usize,
        checks: &PublishChecks,
    ) -> (r: Result<ValidatedPublish, AcdpError>)
        ensures
            validated(r) == publish_outcome(
                self.capabilities(),
                self.authority(),
                *req,
                raw_body_bytes,
                *checks,
            ),
    {
        self.validate_post_schema(req, raw_body_bytes, checks)
    }

    fn validate_registry_limits_and_crypto(
        &self,
        req: &PublishRequest,
        raw_body_bytes: usize,
        checks: &PublishChecks,
    ) -> (r: Result<ValidatedPublish, AcdpError>)
        requires
            checks.schema is Ok,
        ensures
            validated(r) == publish_outcome(
                self.capabilities(),
                self.authority(),
                *req,
                raw_body_bytes,
                *checks,
            ),
    {
        if raw_body_bytes as u64 > self.caps.limits.max_payload_bytes {
            return Err(
                AcdpError::SchemaViolation(
                    SchemaFault::PayloadOverLimit {
                        bytes: raw_body_bytes as u64,
                        limit: self.caps.limits.max_payload_bytes,
                    },
                ),
            );
        }
        if let Err(e) = check_embedded(&req.data_refs, self.caps.limits.max_embedded_bytes) {
            return Err(e);
        }
        let recomputed: &ContentHash = match &checks.content_hash {
            Ok(hash) => hash,
            Err(f) => {
                return Err(f.to_error());
            },
        };
        if !same_text(recomputed.0.as_str(), req.content_hash.0.as_str()) {
            return Err(
                AcdpError::HashMismatch {
                    stored: req.content_hash.0.clone(),
                    recomputed: recomputed.0.clone(),
                },
            );
        }
        if let Err(e) = self.check_key(req) {
            return Err(e);
        }
        if let Err(e) = self.check_supersession_target(&req.supersedes) {
            return Err(e);
        }
        if let Err(e) = self.check_revocation(req, &checks.dids) {
            return Err(e);
        }
        Ok(ValidatedPublish { recomputed_hash: recomputed.clone() })
    }

    fn check_key(&self, req: &PublishRequest) -> (r: Result<(), AcdpError>)
        ensures
            crate::error::checked(r) == unless(key_fault(self.capabilities(), *req)),
    {
        if !list_has(
            &self.caps.supported_signature_algorithms,
            req.signature.algorithm.as_str(),
        ) {
            return Err(
                AcdpError::SchemaViolation(
                    SchemaFault::UnsupportedAlgorithm(req.signature.algorithm.clone()),
                ),
            );
        }
        let method: String = method_of(req.agent_id.as_str());
        if !self.caps.supports_did_method(method.as_str()) {
            return Err(AcdpError::KeyResolution(KeyFault::UnsupportedMethod(method)));
        }
        match split_once(req.signature.key_id.as_str(), '#') {
            None => Err(
                AcdpError::KeyResolution(KeyFault::NoFragment(req.signature.key_id.clone())),
            ),
            Some((did, _)) => {
                if !same_text(did, req.agent_id.as_str()) {
                    return Err(
                        AcdpError::KeyNotAuthorized(
                            AuthorizationFault::ForeignKey {
                                did: did.to_owned(),
                                agent_id: req.agent_id.0.clone(),
                            },
                        ),
                    );
                }
                Ok(())
            },
        }
    }

    fn check_supersession_target(&self, supersedes: &Option<CtxId>) -> (r: Result<(), AcdpError>)
        ensures
            crate::error::checked(r) == unless(supersession_fault(self.authority(), *supersedes)),
    {
        if let (Some(own), Some(target)) = (self.own_authority, supersedes) {
            let target_authority: &str = target.authority();
            if !same_text(target_authority, own) {
                return Err(
                    AcdpError::SupersededTarget(
                        SupersessionFault::CrossRegistrySupersessionUnsupported {
                            target_authority: target_authority.to_owned(),
                            own_authority: own.to_owned(),
                        },
                    ),
                );
            }
        }
        Ok(())
    }

    fn check_revocation(&self, req: &PublishRequest, dids: &DidChecks) -> (r: Result<(), AcdpError>)
        ensures
            crate::error::checked(r) == unless(
                revocation_fault(self.capabilities(), *req, *dids),
            ),
    {
        let version: &str = self.caps.acdp_version.as_str();
        if is_interim_key_revocation_form(&req.context_type)
            && key_revocation_retirement_gate_applies(version) {
            return Err(AcdpError::SchemaViolation(SchemaFault::InterimFormRetired));
        }
        if req.context_type.is_key_revocation() && key_revocation_gate_applies(version) {
            match KeyRevocation::from_publish_request(req, dids) {
                Err(e) => {
                    return Err(e);
                },
                Ok(revocation) => {
                    return self.check_revocation_controller(req, &revocation);
                },
            }
        }
        Ok(())
    }

    /// Refuses a revocation whose controller does not fit its publisher: a
    /// controller other than the publisher is for the registry to name, and
    /// the registry must name one.
    pub fn check_revocation_controller(
        &self,
        req: &PublishRequest,
        revocation: &KeyRevocation,
    ) -> (r: Result<(), AcdpError>)
        ensures
            crate::error::checked(r) == unless(
                controller_fault(
                    self.capabilities().registry_did@,
                    declares_controller(req.metadata),
                    revocation@.revoked_key_controller,
                    req.agent_id@,
                ),
            ),
    {
        let controller_present: bool = match read_metadata(&req.metadata) {
            Some(meta) => meta.controller.is_some(),
            None => false,
        };
        self.check_controller(controller_present, &revocation.revoked_key_controller, &req.agent_id)
    }

    /// Refuses a controller that does not fit its publisher.
    pub fn check_controller(
        &self,
        controller_present: bool,
        controller: &AgentDid,
        agent_id: &AgentDid,
    ) -> (r: Result<(), AcdpError>)
        ensures
            crate::error::checked(r) == unless(
                controller_fault(
                    self.capabilities().registry_did@,
                    controller_present,
                    controller@,
                    agent_id@,
                ),
            ),
    {
        let registry_did: &str = self.caps.registry_did.as_str();
        let agent_is_registry: bool = same_text(agent_id.as_str(), registry_did);
        if controller_present && !controller.same(agent_id) && !agent_is_registry {
            return Err(
                AcdpError::SchemaViolation(
                    SchemaFault::ForeignController {
                        controller: controller.0.clone(),
                        agent_id: agent_id.0.clone(),
                        registry_did: registry_did.to_owned(),
                    },
                ),
            );
        }
        if !controller_present && agent_is_registry {
            return Err(
                AcdpError::SchemaViolation(
                    SchemaFault::ControllerMissing { registry_did: registry_did.to_owned() },
                ),
            );
        }
        Ok(())
    }
}

/// Whether a key revocation may take the place of another context: only
/// another key revocation may supersede one, and only one of the same trust
/// class. A predecessor that is not in shape has no class to compare.
pub open spec fn supersession_outcome(
    prev: Body,
    prev_revocation: Result<crate::key_revocation::KeyRevocationView, AcdpError<Seq<char>>>,
    req: PublishRequest,
    req_revocation: Result<crate::key_revocation::KeyRevocationView, AcdpError<Seq<char>>>,
    acdp_version: Seq<char>,
) -> Result<(), AcdpError<Seq<char>>> {
    if !prev.context_type.revokes_key() {
        Ok(())
    } else if !req.context_type.revokes_key() {
        if advertises_0_5_0(acdp_version) {
            Err(
                AcdpError::SupersededTarget(
                    SupersessionFault::RevocationTypeMismatch {
                        ctx_id: prev.ctx_id@,
                        agent_id: req.agent_id@,
                        context_type: req.context_type.name(),
                    },
                ),
            )
        } else {
            Err(
                AcdpError::SchemaViolation(
                    SchemaFault::SupersededByOtherType {
                        ctx_id: prev.ctx_id@,
                        agent_id: req.agent_id@,
                        context_type: req.context_type.name(),
                    },
                ),
            )
        }
    } else {
        match (prev_revocation, req_revocation) {
            (Err(_), _) => Ok(()),
            (Ok(_), Err(e)) => Err(e),
            (Ok(p), Ok(r)) => if p.trust_class == r.trust_class {
                Ok(())
            } else {
                Err(
                    AcdpError::SchemaViolation(
                        SchemaFault::ClassChanged {
                            ctx_id: prev.ctx_id@,
                            class: p.trust_class,
                            agent_id: req.agent_id@,
                            incoming_class: r.trust_class,
                        },
                    ),
                )
            },
        }
    }
}

/// Checks whether the request may supersede `prev`, the current version of
/// the lineage that it names. Only the type and the trust class are compared:
/// moving the boundary is allowed in either direction, because the reader of
/// a lineage always takes the earliest one.
///
/// To be called where [`key_revocation_gate_applies`] holds for the
/// registry's own version, `acdp_version`, which here only chooses the error.
pub fn check_revocation_supersession(
    prev: &Body,
    prev_dids: &DidChecks,
    req: &PublishRequest,
    req_dids: &DidChecks,
    acdp_version: &str,
) -> (r: Result<(), AcdpError>)
    ensures
        crate::error::checked(r) == supersession_outcome(
            *prev,
            crate::key_revocation::body_revocation(*prev, *prev_dids),
            *req,
            crate::key_revocation::request_revocation(*req, *req_dids),
            acdp_version@,
        ),
{
    judge_supersession(
        prev,
        &KeyRevocation::from_body(prev, prev_dids),
        req,
        KeyRevocation::from_publish_request(req, req_dids),
        acdp_version,
    )
}

/// Judges whether the request may supersede `prev`, given what reading each
/// as a key revocation gave.
pub fn judge_supersession(
    prev: &Body,
    prev_revocation: &Result<KeyRevocation, AcdpError>,
    req: &PublishRequest,
    req_revocation: Result<KeyRevocation, AcdpError>,
    acdp_version: &str,
) -> (r: Result<(), AcdpError>)
    ensures
        crate::error::checked(r) == supersession_outcome(
            *prev,
            crate::key_revocation::parsed(*prev_revocation),
            *req,
            crate::key_revocation::parsed(req_revocation),
            acdp_version@,
        ),
{
    if !prev.context_type.is_key_revocation() {
        return Ok(());
    }
    if !req.context_type.is_key_revocation() {
        return Err(wrong_successor(prev, req, acdp_version));
    }
    let class: RevocationTrustClass = match prev_revocation {
        Ok(r) => r.trust_class,
        Err(_) => {
            return Ok(());
        },
    };
    match req_revocation {
        Err(e) => Err(e),
        Ok(incoming) => {
            if class == incoming.trust_class {
                return Ok(());
            }
            Err(
                AcdpError::SchemaViolation(
                    SchemaFault::ClassChanged {
                        ctx_id: prev.ctx_id.0.clone(),
                        class,
                        agent_id: req.agent_id.0.clone(),
                        incoming_class: incoming.trust_class,
                    },
                ),
            )
        },
    }
}

fn wrong_successor(prev: &Body, req: &PublishRequest, acdp_version: &str) -> (e: AcdpError)
    requires
        prev.context_type.revokes_key(),
        !req.context_type.revokes_key(),
    ensures
        forall|p, r|
            supersession_outcome(*prev, p, *req, r, acdp_version@) == Err::<
                (),
                AcdpError<Seq<char>>,
            >(e@),
{
    let ctx_id: String = prev.ctx_id.0.clone();
    let agent_id: String = req.agent_id.0.clone();
    let context_type: String = req.context_type.label();
    if advertises_0_5_0_or_higher(acdp_version) {
        AcdpError::SupersededTarget(
            SupersessionFault::RevocationTypeMismatch { ctx_id, agent_id, context_type },
        )
    } else {
        AcdpError::SchemaViolation(
            SchemaFault::SupersededByOtherType { ctx_id, agent_id, context_type },
        )
    }
}

/// The text of a version 4 UUID: lowercase hexadecimal digits in groups of 8,
/// 4, 4, 4 and 12 with hyphens between them, `4` at the head of the third
/// group and one of `8`, `9`, `a`, `b` at the head of the fourth.
pub open spec fn is_uuid_v4(s: Seq<char>) -> bool {
    &&& s.len() == 36
    &&& forall|i: int|
        0 <= i < 36 ==> if i == 8 || i == 13 || i == 18 || i == 23 {
            #[trigger] s[i] == '-'
        } else {
            crate::key_revocation::is_lower_hex(s[i])
        }
    &&& s[14] == '4'
    &&& (s[19] == '8' || s[19] == '9' || s[19] == 'a' || s[19] == 'b')
}

/// Calls `uuid::Uuid::new_v4` and writes the UUID in its hyphenated lowercase
/// form. Which UUID it is depends on chance; every one has the form of a
/// version 4 UUID.
#[verifier::external_body]
fn new_uuid_v4() -> (text: String)
    ensures
        is_uuid_v4(text@),
{
    uuid::Uuid::new_v4().hyphenated().to_string()
}

/// The identifiers of a new context.
#[derive(Debug, PartialEq, Eq)]
pub struct AssignedIdentifiers {
    /// The context's own identifier.
    pub ctx_id: CtxId,
    /// The identifier from which the lineage's own is derived: that of the
    /// lineage's first version.
    pub lineage_source: CtxId,
}

/// The identifier of the context with this UUID on this registry.
pub open spec fn ctx_id_text(authority: Seq<char>, uuid: Seq<char>) -> Seq<char> {
    "acdp://"@ + authority + "/"@ + uuid
}

/// Whether the identifiers can be assigned: a superseding context needs the
/// first version's identifier.
pub open spec fn can_assign(supersedes: Option<CtxId>, first: Option<&CtxId>) -> bool {
    supersedes is None || first is Some
}

/// The identifier that a lineage goes by: the new one at the first version,
/// the first version's later.
pub open spec fn lineage_source_of(
    supersedes: Option<CtxId>,
    first: Option<&CtxId>,
    ctx_id: Seq<char>,
) -> Seq<char> {
    if supersedes is None {
        ctx_id
    } else {
        first->Some_0@
    }
}

/// Assigns the identifiers of a validated publication on the registry at
/// `authority`. Where it supersedes another context, `first_version_ctx_id`
/// is the identifier of the lineage's first version: the new identifier would
/// orphan the context from its lineage.
pub fn assign_identifiers(
    authority: &str,
    supersedes: &Option<CtxId>,
    first_version_ctx_id: Option<&CtxId>,
    _validated: &ValidatedPublish,
) -> (r: Result<AssignedIdentifiers, AcdpError>)
    ensures
        match r {
            Ok(a) => {
                &&& can_assign(*supersedes, first_version_ctx_id)
                &&& exists|uuid: Seq<char>|
                    is_uuid_v4(uuid) && a.ctx_id@ == ctx_id_text(authority@, uuid)
                &&& a.lineage_source@ == lineage_source_of(
                    *supersedes,
                    first_version_ctx_id,
                    a.ctx_id@,
                )
            },
            Err(e) => {
                &&& !can_assign(*supersedes, first_version_ctx_id)
                &&& e@ == AcdpError::<Seq<char>>::SchemaViolation(SchemaFault::FirstVersionUnknown)
            },
        },
{
    let uuid: String = new_uuid_v4();
    identifiers_for(authority, uuid.as_str(), supersedes, first_version_ctx_id)
}

/// The identifiers of the context with this UUID.
pub fn identifiers_for(
    authority: &str,
    uuid: &str,
    supersedes: &Option<CtxId>,
    first_version_ctx_id: Option<&CtxId>,
) -> (r: Result<AssignedIdentifiers, AcdpError>)
    ensures
        match r {
            Ok(a) => {
                &&& can_assign(*supersedes, first_version_ctx_id)
                &&& a.ctx_id@ == ctx_id_text(authority@, uuid@)
                &&& a.lineage_source@ == lineage_source_of(
                    *supersedes,
                    first_version_ctx_id,
                    a.ctx_id@,
                )
            },
            Err(e) => {
                &&& !can_assign(*supersedes, first_version_ctx_id)
                &&& e@ == AcdpError::<Seq<char>>::SchemaViolation(SchemaFault::FirstVersionUnknown)
            },
        },
{
    let mut text: String = "acdp://".to_owned();
    text.append(authority);
    text.append("/");
    text.append(uuid);
    let ctx_id: CtxId = CtxId(text);
    let lineage_source: CtxId = match (supersedes, first_version_ctx_id) {
        (None, _) => ctx_id.clone(),
        (Some(_), Some(first)) => first.clone(),
        (Some(_), None) => {
            return Err(AcdpError::SchemaViolation(SchemaFault::FirstVersionUnknown));
        },
    };
    Ok(AssignedIdentifiers { ctx_id, lineage_source })
}

/// The version gates nest: a registry that declares 0.5.0 or later retires the
/// interim spelling, and one that retires it also checks revocations. A
/// version that is not well formed turns both checks on and declares nothing.
pub proof fn law_version_gates(version: Seq<char>)
    ensures
        advertises_0_5_0(version) ==> retires_interim(version),
        retires_interim(version) ==> checks_revocations(version),
        !is_version(version) ==> checks_revocations(version) && retires_interim(version)
            && !advertises_0_5_0(version),
{
}

/// Nothing but a key revocation ever takes the place of a key revocation, at
/// any version of the registry, even where the predecessor is not in shape.
pub proof fn law_revocation_keeps_its_lineage(
    prev: Body,
    prev_revocation: Result<crate::key_revocation::KeyRevocationView, AcdpError<Seq<char>>>,
    req: PublishRequest,
    req_revocation: Result<crate::key_revocation::KeyRevocationView, AcdpError<Seq<char>>>,
    acdp_version: Seq<char>,
)
    requires
        prev.context_type.revokes_key(),
        supersession_outcome(prev, prev_revocation, req, req_revocation, acdp_version) is Ok,
    ensures
        req.context_type.revokes_key(),
{
}

/// Between two revocations in shape, the trust class alone decides: neither
/// who published them nor where their boundaries lie matters.
pub proof fn law_class_alone_decides_supersession(
    prev: Body,
    prev_revocation: crate::key_revocation::KeyRevocationView,
    req: PublishRequest,
    req_revocation: crate::key_revocation::KeyRevocationView,
    acdp_version: Seq<char>,
)
    requires
        prev.context_type.revokes_key(),
        req.context_type.revokes_key(),
    ensures
        supersession_outcome(prev, Ok(prev_revocation), req, Ok(req_revocation), acdp_version) is Ok
            <==> prev_revocation.trust_class == req_revocation.trust_class,
{
}

/// A key revocation that a checking registry accepted is in shape, and stays
/// so once it is stored: a context that keeps the five parts that count can
/// be read as the revocation that the request stated.
pub proof fn law_accepted_revocation_reads_back(
    caps: CapabilitiesDocument,
    own_authority: Option<Seq<char>>,
    req: PublishRequest,
    raw_body_bytes: usize,
    checks: PublishChecks,
    body: Body,
)
    requires
        publish_outcome(caps, own_authority, req, raw_body_bytes, checks) is Ok,
        req.context_type.revokes_key(),
        checks_revocations(caps.acdp_version@),
        body.context_type == req.context_type,
        body.visibility == req.visibility,
        body.metadata == req.metadata,
        body.agent_id@ == req.agent_id@,
        body.signature.key_id@ == req.signature.key_id@,
    ensures
        crate::key_revocation::body_revocation(body, checks.dids) is Ok,
        crate::key_revocation::body_revocation(body, checks.dids)
            == crate::key_revocation::request_revocation(req, checks.dids),
{
    crate::key_revocation::law_body_and_request_agree(body, req, checks.dids);
}

/// Whether a failure is the refusal to supersede a context of another
/// registry.
pub open spec fn refuses_cross_registry(e: AcdpError<Seq<char>>) -> bool {
    e matches AcdpError::SupersededTarget(fault) && fault
        is CrossRegistrySupersessionUnsupported
}

proof fn lemma_embedded_fault_is_no_refusal(refs: Seq<DataRef>, limit: u64)
    ensures
        first_embedded_fault(refs, limit) matches Some(e) ==> e !is SupersededTarget,
    decreases refs.len(),
{
    if refs.len() > 0 {
        lemma_embedded_fault_is_no_refusal(refs.drop_last(), limit);
    }
}

/// A validator for an authority differs from the plain one only by refusing
/// to supersede a context of another registry: it refuses whatever the plain
/// one refuses, and accepts whatever the plain one accepts but for such a
/// request, which it refuses for that very reason. The plain validator never
/// refuses a request for that reason.
pub proof fn law_authority_only_confines_supersession(
    caps: CapabilitiesDocument,
    own_authority: Seq<char>,
    req: PublishRequest,
    raw_body_bytes: usize,
    checks: PublishChecks,
)
    ensures
        ({
            let plain = publish_outcome(caps, None, req, raw_body_bytes, checks);
            let confined = publish_outcome(caps, Some(own_authority), req, raw_body_bytes, checks);
            let foreign = req.supersedes matches Some(target) && crate::types::authority_of(target@)
                != own_authority;
            &&& plain is Err ==> confined is Err
            &&& !foreign ==> confined == plain
            &&& foreign ==> confined == plain || (confined matches Err(e) && refuses_cross_registry(
                e,
            ))
            &&& foreign && plain is Ok ==> confined == Err::<Seq<char>, AcdpError<Seq<char>>>(
                AcdpError::SupersededTarget(
                    SupersessionFault::CrossRegistrySupersessionUnsupported {
                        target_authority: crate::types::authority_of(req.supersedes.unwrap()@),
                        own_authority,
                    },
                ),
            )
            &&& plain matches Err(e) ==> !refuses_cross_registry(e)
        }),
{
    lemma_embedded_fault_is_no_refusal(req.data_refs@, caps.limits.max_embedded_bytes);
}

/// Only the registry itself attests other identities' revocations, and what
/// it publishes under its own identity always names whose key it is about.
pub proof fn law_only_the_registry_attests(
    caps: CapabilitiesDocument,
    own_authority: Option<Seq<char>>,
    req: PublishRequest,
    raw_body_bytes: usize,
    checks: PublishChecks,
)
    requires
        publish_outcome(caps, own_authority, req, raw_body_bytes, checks) is Ok,
        req.context_type.revokes_key(),
        checks_revocations(caps.acdp_version@),
    ensures
        crate::key_revocation::request_revocation(req, checks.dids) matches Ok(r) && (r.trust_class
            == RevocationTrustClass::RegistryAttested ==> req.agent_id@ == caps.registry_did@),
        req.agent_id@ == caps.registry_did@ ==> declares_controller(req.metadata),
{
    let r = crate::key_revocation::request_revocation(req, checks.dids);
    assert(r is Ok);
}

/// An assigned identifier names the registry that assigned it, so the
/// registry accepts the context as a later target of its own.
pub proof fn law_assigned_identifier_names_its_registry(authority: Seq<char>, uuid: Seq<char>)
    requires
        !authority.contains('/'),
    ensures
        crate::types::authority_of(ctx_id_text(authority, uuid)) == authority,
{
    reveal_strlit("acdp://");
    reveal_strlit("/");
    let id = ctx_id_text(authority, uuid);
    let rest = id.skip("acdp://"@.len() as int);
    assert(id.take("acdp://"@.len() as int) =~= "acdp://"@);
    assert("acdp://"@.is_prefix_of(id));
    assert(rest =~= authority + "/"@ + uuid);
    crate::text::lemma_first_piece(rest, '/');
    rest.index_of_first_ensures('/');
    let n = authority.len() as int;
    assert(rest[n] == '/');
    assert(rest.contains('/'));
    let i = rest.index_of_first('/').unwrap();
    assert(i == n) by {
        if i < n {
            assert(authority[i] == '/');
        }
    }
    assert(rest.take(n) =~= authority);
}

/// Whether what is embedded in a data reference, if anything is, decodes, is
/// no larger than the limit and has its declared hash.
pub open spec fn embeds_soundly(dr: DataRef, limit: u64) -> bool {
    dr.embedded matches Some(check) ==> {
        &&& check.decoded is Ok
        &&& check.decoded->Ok_0 <= limit
        &&& check.hash is Ok
    }
}

proof fn lemma_no_embedded_fault(refs: Seq<DataRef>, limit: u64)
    ensures
        first_embedded_fault(refs, limit) is None <==> forall|k: int|
            0 <= k < refs.len() ==> embeds_soundly(#[trigger] refs[k], limit),
    decreases refs.len(),
{
    if refs.len() > 0 {
        let init = refs.drop_last();
        lemma_no_embedded_fault(init, limit);
        let last = refs.len() - 1;
        if forall|k: int| 0 <= k < refs.len() ==> embeds_soundly(#[trigger] refs[k], limit) {
            assert forall|k: int| 0 <= k < init.len() implies embeds_soundly(
                #[trigger] init[k],
                limit,
            ) by {
                assert(embeds_soundly(refs[k], limit));
            }
            assert(embeds_soundly(refs[last], limit));
        }
        if first_embedded_fault(refs, limit) is None {
            assert forall|k: int| 0 <= k < refs.len() implies embeds_soundly(
                #[trigger] refs[k],
                limit,
            ) by {
                if k < last {
                    assert(embeds_soundly(init[k], limit));
                }
            }
        }
    }
}

/// Whether a registry may publish a key revocation: not in the spelling from
/// before it was standard, where that is retired, and, where revocations are
/// checked, only in shape. The publisher may name another controller only if
/// it is the registry itself, which must name one.
pub open spec fn revokes_soundly(
    caps: CapabilitiesDocument,
    req: PublishRequest,
    dids: DidChecks,
) -> bool {
    let interim = req.context_type is Custom && req.context_type->Custom_0@
        == "acdp:key-revocation"@;
    let stated = crate::key_revocation::request_revocation(req, dids);
    &&& interim ==> version_reaches(caps.acdp_version@, 5) == Some(false)
    &&& (interim || req.context_type is KeyRevocation) && version_reaches(caps.acdp_version@, 3)
        != Some(false) ==> {
        &&& stated is Ok
        &&& req.agent_id@ != caps.registry_did@ ==> stated->Ok_0.revoked_key_controller
            == req.agent_id@
        &&& req.agent_id@ == caps.registry_did@ ==> declares_controller(req.metadata)
    }
}

/// A request is published exactly if it is in shape, its body is no larger
/// than the registry takes, everything that is embedded in any of its data
/// references decodes, is no larger than the registry takes and has its
/// declared hash, its own hash is the declared one, the registry takes its
/// algorithm and the method of its publisher, the key that signs it is the
/// publisher's, it supersedes no context of another registry, and what it
/// revokes, if it revokes a key, it revokes soundly. What comes of it is the
/// hash.
pub proof fn law_sound_requests_are_published(
    caps: CapabilitiesDocument,
    own_authority: Option<Seq<char>>,
    req: PublishRequest,
    raw_body_bytes: usize,
    checks: PublishChecks,
    hash: Seq<char>,
)
    ensures
        publish_outcome(caps, own_authority, req, raw_body_bytes, checks) == Ok::<
            Seq<char>,
            AcdpError<Seq<char>>,
        >(hash) <==> {
            &&& checks.schema is Ok
            &&& raw_body_bytes <= caps.limits.max_payload_bytes
            &&& forall|k: int|
                0 <= k < req.data_refs@.len() ==> embeds_soundly(
                    #[trigger] req.data_refs@[k],
                    caps.limits.max_embedded_bytes,
                )
            &&& checks.content_hash is Ok
            &&& checks.content_hash->Ok_0@ == hash
            &&& req.content_hash@ == hash
            &&& exists|k: int|
                0 <= k < caps.supported_signature_algorithms@.len() && (
                #[trigger] caps.supported_signature_algorithms@[k])@ == req.signature.algorithm@
            &&& exists|k: int|
                0 <= k < caps.supported_did_methods@.len() && (
                #[trigger] caps.supported_did_methods@[k])@ == did_method(req.agent_id@)
            &&& !req.agent_id@.contains('#')
            &&& (req.agent_id@ + seq!['#']).is_prefix_of(req.signature.key_id@)
            &&& own_authority is Some && req.supersedes is Some ==> crate::types::authority_of(
                req.supersedes->Some_0@,
            ) == own_authority->Some_0
            &&& revokes_soundly(caps, req, checks.dids)
        },
{
    lemma_no_embedded_fault(req.data_refs@, caps.limits.max_embedded_bytes);
    crate::types::law_lists_hold_their_texts(caps.supported_signature_algorithms@, req.signature.algorithm@);
    crate::types::law_lists_hold_their_texts(caps.supported_did_methods@, did_method(req.agent_id@));
    lemma_key_of(req.signature.key_id@, req.agent_id@);
    crate::types::law_two_spellings_revoke_a_key(req.context_type);
    lemma_revokes_soundly(caps, req, checks.dids);
}

proof fn lemma_key_of(key_id: Seq<char>, agent: Seq<char>)
    ensures
        (crate::text::halves(key_id, '#') matches Some((did, _)) && did == agent) <==> {
            &&& !agent.contains('#')
            &&& (agent + seq!['#']).is_prefix_of(key_id)
        },
{
    let head = agent + seq!['#'];
    if let Some((did, rest)) = crate::text::halves(key_id, '#') {
        crate::text::law_halves_make_the_text(key_id, '#', did, rest);
        if did == agent {
            assert(key_id.subrange(0, head.len() as int) =~= head);
        }
    }
    if !agent.contains('#') && head.is_prefix_of(key_id) {
        let fragment = key_id.skip(head.len() as int);
        assert(key_id =~= head + fragment);
        crate::text::law_halves_make_the_text(key_id, '#', agent, fragment);
    }
}

proof fn lemma_revokes_soundly(caps: CapabilitiesDocument, req: PublishRequest, dids: DidChecks)
    ensures
        revocation_fault(caps, req, dids) is None <==> revokes_soundly(caps, req, dids),
{
    crate::types::law_two_spellings_revoke_a_key(req.context_type);
    let stated = crate::key_revocation::request_revocation(req, dids);
    if stated is Ok {
        lemma_undeclared_controller(req, dids);
    }
}

proof fn lemma_undeclared_controller(req: PublishRequest, dids: DidChecks)
    requires
        crate::key_revocation::request_revocation(req, dids) is Ok,
    ensures
        !declares_controller(req.metadata) ==> crate::key_revocation::request_revocation(
            req,
            dids,
        )->Ok_0.revoked_key_controller == req.agent_id@,
{
}

/// A request with an unsound data reference is refused for the first one that
/// is, and for what is wrong with it first: that it does not decode, that it
/// is too large, or that it does not have its declared hash.
pub proof fn law_first_unsound_reference_is_named(
    caps: CapabilitiesDocument,
    own_authority: Option<Seq<char>>,
    req: PublishRequest,
    raw_body_bytes: usize,
    checks: PublishChecks,
    k: int,
)
    requires
        checks.schema is Ok,
        raw_body_bytes <= caps.limits.max_payload_bytes,
        0 <= k < req.data_refs@.len(),
        forall|j: int|
            0 <= j < k ==> embeds_soundly(
                #[trigger] req.data_refs@[j],
                caps.limits.max_embedded_bytes,
            ),
        !embeds_soundly(req.data_refs@[k], caps.limits.max_embedded_bytes),
    ensures
        ({
            let check = req.data_refs@[k].embedded->Some_0;
            let limit = caps.limits.max_embedded_bytes;
            publish_outcome(caps, own_authority, req, raw_body_bytes, checks) == Err::<
                Seq<char>,
                AcdpError<Seq<char>>,
            >(
                if check.decoded is Err {
                    check.decoded->Err_0@.failure()
                } else if check.decoded->Ok_0 > limit {
                    AcdpError::EmbeddedTooLarge { bytes: check.decoded->Ok_0 as u64, limit }
                } else {
                    check.hash->Err_0@.failure()
                },
            )
        }),
{
    let refs = req.data_refs@;
    let limit = caps.limits.max_embedded_bytes;
    let before = refs.take(k);
    let upto = refs.take(k + 1);
    lemma_no_embedded_fault(before, limit);
    assert forall|j: int| 0 <= j < before.len() implies embeds_soundly(
        #[trigger] before[j],
        limit,
    ) by {
        assert(embeds_soundly(refs[j], limit));
    }
    assert(upto.drop_last() =~= before);
    assert(upto.last() == refs[k]);
    assert(first_embedded_fault(upto, limit) is Some);
    lemma_first_fault_stays(refs, k + 1, limit);
}

/// A request is refused for its shape before anything else, then for its
/// size, and for its hash before its key is looked at.
pub proof fn law_refusals_come_in_order(
    caps: CapabilitiesDocument,
    own_authority: Option<Seq<char>>,
    req: PublishRequest,
    raw_body_bytes: usize,
    checks: PublishChecks,
)
    ensures
        ({
            let r = publish_outcome(caps, own_authority, req, raw_body_bytes, checks);
            let limit = caps.limits.max_payload_bytes;
            let embeds = forall|k: int|
                0 <= k < req.data_refs@.len() ==> embeds_soundly(
                    #[trigger] req.data_refs@[k],
                    caps.limits.max_embedded_bytes,
                );
            let fits = checks.schema is Ok && raw_body_bytes <= limit && embeds;
            &&& checks.schema is Err ==> r == Err::<Seq<char>, _>(checks.schema->Err_0@.failure())
            &&& checks.schema is Ok && raw_body_bytes > limit ==> r == Err::<Seq<char>, AcdpError<Seq<char>>>(
                AcdpError::SchemaViolation(
                    SchemaFault::PayloadOverLimit { bytes: raw_body_bytes as u64, limit },
                ),
            )
            &&& fits && checks.content_hash is Err ==> r == Err::<Seq<char>, _>(
                checks.content_hash->Err_0@.failure(),
            )
            &&& fits && checks.content_hash is Ok && checks.content_hash->Ok_0@
                != req.content_hash@ ==> r == Err::<Seq<char>, _>(
                AcdpError::HashMismatch {
                    stored: req.content_hash@,
                    recomputed: checks.content_hash->Ok_0@,
                },
            )
        }),
{
    lemma_no_embedded_fault(req.data_refs@, caps.limits.max_embedded_bytes);
}

/// The method of an identity is what stands before the second `:`, whatever
/// follows.
pub proof fn law_method_is_the_first_two_parts(scheme: Seq<char>, method: Seq<char>, rest: Seq<char>)
    requires
        !scheme.contains(':'),
        !method.contains(':'),
    ensures
        did_method(scheme + seq![':'] + method + seq![':'] + rest) == scheme + seq![':'] + method,
        did_method(scheme + seq![':'] + method) == scheme + seq![':'] + method,
        did_method(scheme) == scheme,
{
    reveal_strlit(":");
    assert(":"@ =~= seq![':']);
    let head = scheme + seq![':'] + method;
    crate::text::law_pieces_make_the_text(scheme, method, ':');
    crate::text::law_pieces_make_the_text(method, rest, ':');
    crate::text::law_pieces_make_the_text(head, rest, ':');
    let parts = crate::text::pieces(head, ':');
    assert(parts =~= seq![scheme, method]);
    let all = parts + crate::text::pieces(rest, ':');
    assert(all[0] == scheme && all[1] == method);
}

/// A version is three numbers with dots between them: no more and no fewer.
pub proof fn law_version_is_three_numbers(
    major: Seq<char>,
    minor: Seq<char>,
    patch: Seq<char>,
    more: Seq<char>,
)
    requires
        !major.contains('.'),
        !minor.contains('.'),
        !patch.contains('.'),
    ensures
        is_version(major + seq!['.'] + minor + seq!['.'] + patch) <==> crate::text::is_number(major)
            && crate::text::is_number(minor) && crate::text::is_number(patch),
        !is_version(major + seq!['.'] + minor + seq!['.'] + patch + seq!['.'] + more),
        !is_version(major + seq!['.'] + minor),
        !is_version(major),
{
    let two = major + seq!['.'] + minor;
    let three = two + seq!['.'] + patch;
    lemma_version_pieces(major, minor, patch);
    crate::text::law_pieces_make_the_text(three, more, '.');
    crate::text::law_pieces_make_the_text(major, more, '.');
    crate::text::lemma_pieces_nonempty(more, '.');
    let parts = crate::text::pieces(three, '.');
    assert(parts[0] == major && parts[1] == minor && parts[2] == patch);
}

proof fn lemma_version_pieces(major: Seq<char>, minor: Seq<char>, patch: Seq<char>)
    requires
        !major.contains('.'),
        !minor.contains('.'),
        !patch.contains('.'),
    ensures
        crate::text::pieces(major + seq!['.'] + minor + seq!['.'] + patch, '.') == seq![
            major,
            minor,
            patch,
        ],
        crate::text::pieces(major + seq!['.'] + minor, '.') == seq![major, minor],
        crate::text::pieces(major, '.') == seq![major],
{
    let two = major + seq!['.'] + minor;
    crate::text::law_pieces_make_the_text(major, minor, '.');
    crate::text::law_pieces_make_the_text(minor, patch, '.');
    crate::text::law_pieces_make_the_text(patch, patch, '.');
    crate::text::law_pieces_make_the_text(two, patch, '.');
    assert(crate::text::pieces(two, '.') =~= seq![major, minor]);
    assert(seq![major, minor] + seq![patch] =~= seq![major, minor, patch]);
}

/// From 0.3.0 on, whatever the patch, a registry checks the shape of key
/// revocations; from 0.5.0 on it takes the interim spelling no longer and
/// declares so; before, it does neither.
pub proof fn law_versions_count_as_numbers(major: u64, minor: u64, patch: Seq<char>)
    requires
        crate::text::is_number(patch),
    ensures
        ({
            let v = crate::text::decimal_digits(major as nat) + seq!['.']
                + crate::text::decimal_digits(minor as nat) + seq!['.'] + patch;
            &&& checks_revocations(v) <==> major > 0 || minor >= 3
            &&& retires_interim(v) <==> major > 0 || minor >= 5
            &&& advertises_0_5_0(v) <==> major > 0 || minor >= 5
        }),
{
    let a = crate::text::decimal_digits(major as nat);
    let b = crate::text::decimal_digits(minor as nat);
    crate::text::law_numbers_read_back(major as nat);
    crate::text::law_numbers_read_back(minor as nat);
    crate::text::lemma_digits_of_number(major as nat);
    crate::text::lemma_digits_of_number(minor as nat);
    crate::text::lemma_number_has_no_dot(a);
    crate::text::lemma_number_has_no_dot(b);
    crate::text::lemma_number_has_no_dot(patch);
    lemma_version_pieces(a, b, patch);
    let v = a + seq!['.'] + b + seq!['.'] + patch;
    let parts = crate::text::pieces(v, '.');
    assert(parts[0] == a && parts[1] == b && parts[2] == patch);
    assert(is_version(v));
}

/// What may take the place of another context: anything may take that of one
/// that revokes no key; of one that does, only another that does, and of the
/// same trust class, if the first is in shape at all.
pub proof fn law_what_may_supersede_a_revocation(
    prev: Body,
    prev_revocation: Result<crate::key_revocation::KeyRevocationView, AcdpError<Seq<char>>>,
    req: PublishRequest,
    req_revocation: Result<crate::key_revocation::KeyRevocationView, AcdpError<Seq<char>>>,
    acdp_version: Seq<char>,
)
    ensures
        ({
            let prev_revokes = prev.context_type is KeyRevocation || (prev.context_type is Custom
                && prev.context_type->Custom_0@ == "acdp:key-revocation"@);
            let req_revokes = req.context_type is KeyRevocation || (req.context_type is Custom
                && req.context_type->Custom_0@ == "acdp:key-revocation"@);
            let r = supersession_outcome(prev, prev_revocation, req, req_revocation, acdp_version);
            &&& r is Ok <==> {
                ||| !prev_revokes
                ||| req_revokes && prev_revocation is Err
                ||| req_revokes && prev_revocation is Ok && req_revocation is Ok
                    && prev_revocation->Ok_0.trust_class == req_revocation->Ok_0.trust_class
            }
            &&& prev_revokes && !req_revokes ==> r == Err::<(), AcdpError<Seq<char>>>(
                if advertises_0_5_0(acdp_version) {
                    AcdpError::SupersededTarget(
                        SupersessionFault::RevocationTypeMismatch {
                            ctx_id: prev.ctx_id@,
                            agent_id: req.agent_id@,
                            context_type: req.context_type.name(),
                        },
                    )
                } else {
                    AcdpError::SchemaViolation(
                        SchemaFault::SupersededByOtherType {
                            ctx_id: prev.ctx_id@,
                            agent_id: req.agent_id@,
                            context_type: req.context_type.name(),
                        },
                    )
                },
            )
            &&& prev_revokes && req_revokes && prev_revocation is Ok && req_revocation is Ok
                && prev_revocation->Ok_0.trust_class != req_revocation->Ok_0.trust_class ==> r
                == Err::<(), AcdpError<Seq<char>>>(
                AcdpError::SchemaViolation(
                    SchemaFault::ClassChanged {
                        ctx_id: prev.ctx_id@,
                        class: prev_revocation->Ok_0.trust_class,
                        agent_id: req.agent_id@,
                        incoming_class: req_revocation->Ok_0.trust_class,
                    },
                ),
            )
            &&& prev_revokes && req_revokes && prev_revocation is Ok && req_revocation is Err ==> r
                == Err::<(), AcdpError<Seq<char>>>(req_revocation->Err_0)
        }),
{
}

/// A request that fits but for its key is refused for the key, and for what
/// is wrong with it first: its algorithm, the method of the publisher, that
/// it names no key of an identity, or that the identity is another.
pub proof fn law_key_faults_are_named(
    caps: CapabilitiesDocument,
    own_authority: Option<Seq<char>>,
    req: PublishRequest,
    raw_body_bytes: usize,
    checks: PublishChecks,
    did: Seq<char>,
    fragment: Seq<char>,
)
    requires
        checks.schema is Ok,
        raw_body_bytes <= caps.limits.max_payload_bytes,
        forall|k: int|
            0 <= k < req.data_refs@.len() ==> embeds_soundly(
                #[trigger] req.data_refs@[k],
                caps.limits.max_embedded_bytes,
            ),
        checks.content_hash is Ok,
        checks.content_hash->Ok_0@ == req.content_hash@,
    ensures
        ({
            let r = publish_outcome(caps, own_authority, req, raw_body_bytes, checks);
            let key_id = req.signature.key_id@;
            let algorithm = crate::types::list_view(caps.supported_signature_algorithms@).contains(
                req.signature.algorithm@,
            );
            let method = crate::types::list_view(caps.supported_did_methods@).contains(
                did_method(req.agent_id@),
            );
            &&& !algorithm ==> r == Err::<Seq<char>, AcdpError<Seq<char>>>(
                AcdpError::SchemaViolation(
                    SchemaFault::UnsupportedAlgorithm(req.signature.algorithm@),
                ),
            )
            &&& algorithm && !method ==> r == Err::<Seq<char>, AcdpError<Seq<char>>>(
                AcdpError::KeyResolution(KeyFault::UnsupportedMethod(did_method(req.agent_id@))),
            )
            &&& algorithm && method && !key_id.contains('#') ==> r == Err::<
                Seq<char>,
                AcdpError<Seq<char>>,
            >(AcdpError::KeyResolution(KeyFault::NoFragment(key_id)))
            &&& algorithm && method && key_id == did + seq!['#'] + fragment && !did.contains('#')
                && did != req.agent_id@ ==> r == Err::<Seq<char>, AcdpError<Seq<char>>>(
                AcdpError::KeyNotAuthorized(
                    AuthorizationFault::ForeignKey { did, agent_id: req.agent_id@ },
                ),
            )
        }),
{
    lemma_no_embedded_fault(req.data_refs@, caps.limits.max_embedded_bytes);
    crate::text::law_halves_make_the_text(req.signature.key_id@, '#', did, fragment);
}

/// What a revocation is refused for by its controller: one other than the
/// publisher, where the publisher is not the registry; or none at all, where
/// it is.
pub proof fn law_controllers_fit_their_publishers(
    registry_did: Seq<char>,
    controller_present: bool,
    controller: Seq<char>,
    agent: Seq<char>,
)
    ensures
        controller_fault(registry_did, controller_present, controller, agent) is None <==> if agent
            == registry_did {
            controller_present
        } else {
            controller_present ==> controller == agent
        },
        agent == registry_did && !controller_present ==> controller_fault(
            registry_did,
            controller_present,
            controller,
            agent,
        ) == Some(
            AcdpError::SchemaViolation(SchemaFault::ControllerMissing { registry_did }),
        ),
        agent != registry_did && controller_present && controller != agent ==> controller_fault(
            registry_did,
            controller_present,
            controller,
            agent,
        ) == Some(
            AcdpError::SchemaViolation(
                SchemaFault::ForeignController { controller, agent_id: agent, registry_did },
            ),
        ),
{
}

/// Identifiers can be assigned exactly to a first version or where the first
/// version is known; the lineage goes by the first version, and the
/// identifier is `acdp://`, the authority, a `/` and the UUID.
pub proof fn law_lineages_go_by_their_first_version(
    supersedes: Option<CtxId>,
    first: Option<&CtxId>,
    authority: Seq<char>,
    uuid: Seq<char>,
)
    ensures
        can_assign(supersedes, first) <==> (supersedes is Some ==> first is Some),
        supersedes is None ==> lineage_source_of(supersedes, first, ctx_id_text(authority, uuid))
            == ctx_id_text(authority, uuid),
        supersedes is Some && first is Some ==> lineage_source_of(
            supersedes,
            first,
            ctx_id_text(authority, uuid),
        ) == first->Some_0@,
        ctx_id_text(authority, uuid) == "acdp://"@ + authority + seq!['/'] + uuid,
{
    reveal_strlit("/");
    assert("/"@ =~= seq!['/']);
}

/// A request whose key fits is refused for a target of another registry
/// before what it revokes is looked at; and for what it revokes by the
/// spelling first, then by what is wrong with its shape, and then by its
/// controller.
pub proof fn law_revocation_faults_come_last(
    caps: CapabilitiesDocument,
    own_authority: Option<Seq<char>>,
    req: PublishRequest,
    raw_body_bytes: usize,
    checks: PublishChecks,
)
    requires
        checks.schema is Ok,
        raw_body_bytes <= caps.limits.max_payload_bytes,
        forall|k: int|
            0 <= k < req.data_refs@.len() ==> embeds_soundly(
                #[trigger] req.data_refs@[k],
                caps.limits.max_embedded_bytes,
            ),
        checks.content_hash is Ok,
        checks.content_hash->Ok_0@ == req.content_hash@,
        crate::types::list_view(caps.supported_signature_algorithms@).contains(
            req.signature.algorithm@,
        ),
        crate::types::list_view(caps.supported_did_methods@).contains(did_method(req.agent_id@)),
        !req.agent_id@.contains('#'),
        (req.agent_id@ + seq!['#']).is_prefix_of(req.signature.key_id@),
    ensures
        ({
            let r = publish_outcome(caps, own_authority, req, raw_body_bytes, checks);
            let foreign = own_authority is Some && req.supersedes is Some
                && crate::types::authority_of(req.supersedes->Some_0@) != own_authority->Some_0;
            let interim = req.context_type is Custom && req.context_type->Custom_0@
                == "acdp:key-revocation"@;
            let retired = interim && version_reaches(caps.acdp_version@, 5) != Some(false);
            let checked = (interim || req.context_type is KeyRevocation) && version_reaches(
                caps.acdp_version@,
                3,
            ) != Some(false);
            let stated = crate::key_revocation::request_revocation(req, checks.dids);
            &&& foreign ==> r == Err::<Seq<char>, AcdpError<Seq<char>>>(
                AcdpError::SupersededTarget(
                    SupersessionFault::CrossRegistrySupersessionUnsupported {
                        target_authority: crate::types::authority_of(req.supersedes->Some_0@),
                        own_authority: own_authority->Some_0,
                    },
                ),
            )
            &&& !foreign && retired ==> r == Err::<Seq<char>, AcdpError<Seq<char>>>(
                AcdpError::SchemaViolation(SchemaFault::InterimFormRetired),
            )
            &&& !foreign && !retired && checked && stated is Err ==> r == Err::<
                Seq<char>,
                AcdpError<Seq<char>>,
            >(stated->Err_0)
            &&& !foreign && !retired && checked && stated is Ok ==> match controller_fault(
                caps.registry_did@,
                declares_controller(req.metadata),
                stated->Ok_0.revoked_key_controller,
                req.agent_id@,
            ) {
                Some(e) => r == Err::<Seq<char>, AcdpError<Seq<char>>>(e),
                None => r is Ok,
            }
        }),
{
    lemma_no_embedded_fault(req.data_refs@, caps.limits.max_embedded_bytes);
    lemma_key_of(req.signature.key_id@, req.agent_id@);
    crate::types::law_two_spellings_revoke_a_key(req.context_type);
}

/// A controller is declared exactly if the metadata is an object with the
/// member, whatever it holds.
pub proof fn law_which_metadata_declares_a_controller(metadata: Option<serde_json::Value>)
    ensures
        declares_controller(metadata) <==> metadata is Some && crate::json::json_is_object(
            metadata->Some_0,
        ) && crate::json::json_members(metadata->Some_0).contains_key("revoked_key_controller"@),
{
}

} // verus!
