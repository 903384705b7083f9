//! The documents that the library reads, reduced to what its rules depend on.

use vstd::prelude::*;
use vstd::string::*;
use crate::error::CheckFault;
use crate::text::{replace, same_text, split_once, starts_with};
use crate::time::Timestamp;

verus! {

/// The decentralized identifier of an agent or a registry.
#[derive(Debug, PartialEq, Eq)]
pub struct AgentDid(pub String);

/// The identifier of a context, `acdp://<authority>/<uuid>`.
#[derive(Debug, PartialEq, Eq)]
pub struct CtxId(pub String);

/// The identifier of a lineage of contexts.
#[derive(Debug, PartialEq, Eq)]
pub struct LineageId(pub String);

/// The hash of a context's content.
#[derive(Debug, PartialEq, Eq)]
pub struct ContentHash(pub String);

impl AgentDid {
    /// The identifier's characters.
    pub open spec fn view(&self) -> Seq<char> {
        self.0@
    }

    /// An identifier that holds `text`.
    pub fn new(text: &str) -> (did: AgentDid)
        ensures
            did@ == text@,
    {
        AgentDid(text.to_owned())
    }

    /// The identifier's text.
    pub fn as_str(&self) -> (text: &str)
        ensures
            text@ == self@,
    {
        self.0.as_str()
    }

    /// Whether both are the same identifier.
    pub fn same(&self, other: &AgentDid) -> (yes: bool)
        ensures
            yes == (self@ == other@),
    {
        self.0 == other.0
    }
}

impl Clone for AgentDid {
    fn clone(&self) -> (copy: Self)
        ensures
            copy == *self,
    {
        AgentDid(self.0.clone())
    }
}

/// The authority named by the identifier of a context: what stands between
/// `acdp://` and the next `/`. An identifier of another form names none.
pub open spec fn authority_of(ctx_id: Seq<char>) -> Seq<char> {
    if "acdp://"@.is_prefix_of(ctx_id) {
        crate::text::pieces(ctx_id.skip("acdp://"@.len() as int), '/')[0]
    } else {
        Seq::empty()
    }
}

impl CtxId {
    /// The identifier's characters.
    pub open spec fn view(&self) -> Seq<char> {
        self.0@
    }

    /// An identifier that holds `text`.
    pub fn new(text: &str) -> (id: CtxId)
        ensures
            id@ == text@,
    {
        CtxId(text.to_owned())
    }

    /// The identifier's text.
    pub fn as_str(&self) -> (text: &str)
        ensures
            text@ == self@,
    {
        self.0.as_str()
    }

    /// Whether both are the same identifier.
    pub fn same(&self, other: &CtxId) -> (yes: bool)
        ensures
            yes == (self@ == other@),
    {
        self.0 == other.0
    }

    /// The authority that the identifier names.
    pub fn authority(&self) -> (authority: &str)
        ensures
            authority@ == authority_of(self@),
    {
        let text: &str = self.0.as_str();
        let scheme: &str = "acdp://";
        if !starts_with(text, scheme) {
            let nothing: &str = text.substring_char(0, 0);
            assert(nothing@ =~= Seq::empty());
            return nothing;
        }
        let rest: &str = text.substring_char(scheme.unicode_len(), text.unicode_len());
        proof {
            assert(rest@ =~= text@.skip(scheme@.len() as int));
            crate::text::lemma_first_piece(rest@, '/');
        }
        match split_once(rest, '/') {
            Some((before, _)) => before,
            None => rest,
        }
    }
}

impl Clone for CtxId {
    fn clone(&self) -> (copy: Self)
        ensures
            copy == *self,
    {
        CtxId(self.0.clone())
    }
}

impl LineageId {
    /// The identifier's characters.
    pub open spec fn view(&self) -> Seq<char> {
        self.0@
    }

    /// An identifier that holds `text`.
    pub fn new(text: &str) -> (id: LineageId)
        ensures
            id@ == text@,
    {
        LineageId(text.to_owned())
    }

    /// The identifier's text.
    pub fn as_str(&self) -> (text: &str)
        ensures
            text@ == self@,
    {
        self.0.as_str()
    }
}

impl Clone for LineageId {
    fn clone(&self) -> (copy: Self)
        ensures
            copy == *self,
    {
        LineageId(self.0.clone())
    }
}

impl ContentHash {
    /// The hash's characters.
    pub open spec fn view(&self) -> Seq<char> {
        self.0@
    }
}

impl Clone for ContentHash {
    fn clone(&self) -> (copy: Self)
        ensures
            copy == *self,
    {
        ContentHash(self.0.clone())
    }
}

/// The `did:web` identity of an authority: a port's `:` is written `%3A`.
pub open spec fn did_web_of(authority: Seq<char>) -> Seq<char> {
    "did:web:"@ + crate::text::replaced(authority, ':', "%3A"@)
}

/// The `did:web` identity of an authority.
pub fn authority_to_did_web(authority: &str) -> (did: String)
    ensures
        did@ == did_web_of(authority@),
{
    let mut did: String = "did:web:".to_owned();
    let rest: String = replace(authority, ':', "%3A");
    did.append(rest.as_str());
    did
}

/// What a context is.
#[derive(Debug, PartialEq, Eq)]
pub enum ContextType {
    /// The statement that a key is compromised.
    KeyRevocation,
    /// Any other standard type, under its name.
    Standard(String),
    /// A type that is not standard, under its name.
    Custom(String),
}

/// The name of the standard key-revocation type.
pub open spec fn key_revocation_name() -> Seq<char> {
    "key-revocation"@
}

/// The spelling of the key-revocation type before it became standard.
pub open spec fn key_revocation_interim() -> Seq<char> {
    "acdp:key-revocation"@
}

impl ContextType {
    /// The name under which the type is written.
    pub open spec fn name(&self) -> Seq<char> {
        match self {
            ContextType::KeyRevocation => key_revocation_name(),
            ContextType::Standard(n) => n@,
            ContextType::Custom(n) => n@,
        }
    }

    /// Whether this is the interim spelling of the key-revocation type.
    pub open spec fn is_interim(&self) -> bool {
        self matches ContextType::Custom(n) && n@ == key_revocation_interim()
    }

    /// Whether this is the key-revocation type in either spelling.
    pub open spec fn revokes_key(&self) -> bool {
        self is KeyRevocation || self.is_interim()
    }

    /// The spelling of the key-revocation type before it became standard.
    pub fn interim_name() -> (name: &'static str)
        ensures
            name@ == key_revocation_interim(),
    {
        "acdp:key-revocation"
    }

    /// Whether this is the key-revocation type in either spelling.
    pub fn is_key_revocation(&self) -> (yes: bool)
        ensures
            yes == self.revokes_key(),
    {
        match self {
            ContextType::KeyRevocation => true,
            ContextType::Standard(_) => false,
            ContextType::Custom(n) => same_text(n.as_str(), "acdp:key-revocation"),
        }
    }

    /// The name under which the type is written.
    pub fn label(&self) -> (name: String)
        ensures
            name@ == self.name(),
    {
        match self {
            ContextType::KeyRevocation => "key-revocation".to_owned(),
            ContextType::Standard(n) => n.clone(),
            ContextType::Custom(n) => n.clone(),
        }
    }
}

/// Who may read a context.
#[derive(Clone, Copy, Debug, PartialEq, Eq, Structural)]
pub enum Visibility {
    Public,
    Restricted,
    Private,
}

/// Where a context stands in its life.
#[derive(Debug, PartialEq, Eq)]
pub enum Status {
    Active,
    Superseded,
    Retracted,
    /// A status that this library does not know, under its name.
    Other(String),
}

impl Clone for Status {
    fn clone(&self) -> (copy: Self)
        ensures
            copy == *self,
    {
        match self {
            Status::Active => Status::Active,
            Status::Superseded => Status::Superseded,
            Status::Retracted => Status::Retracted,
            Status::Other(name) => Status::Other(name.clone()),
        }
    }
}

/// A producer's signature over a context.
#[derive(Debug, PartialEq, Eq)]
pub struct Signature {
    pub algorithm: String,
    pub key_id: String,
}

/// What decoding an embedded data reference and hashing its bytes gave.
#[derive(Debug, PartialEq, Eq)]
pub struct EmbeddedCheck {
    /// The number of decoded bytes.
    pub decoded: Result<usize, CheckFault>,
    /// Whether the declared hash, where one is declared, is the bytes' hash.
    pub hash: Result<(), CheckFault>,
}

/// A reference to data, embedded or elsewhere.
#[derive(Debug, PartialEq, Eq)]
pub struct DataRef {
    pub location: Option<String>,
    pub content_hash: Option<ContentHash>,
    pub embedded: Option<EmbeddedCheck>,
}

/// A published context.
#[derive(Debug)]
pub struct Body {
    pub ctx_id: CtxId,
    pub lineage_id: LineageId,
    pub version: u64,
    pub agent_id: AgentDid,
    pub context_type: ContextType,
    pub visibility: Visibility,
    pub metadata: Option<serde_json::Value>,
    pub data_refs: Vec<DataRef>,
    pub derived_from: Vec<CtxId>,
    pub content_hash: ContentHash,
    pub signature: Signature,
}

/// What a registry says of a context that it serves.
#[derive(Debug)]
pub struct RegistryState {
    pub status: Status,
}

/// A context as a registry serves it.
#[derive(Debug)]
pub struct FullContext {
    pub body: Body,
    pub registry_state: RegistryState,
    /// The registry's receipt, as it was sent.
    pub registry_receipt: Option<serde_json::Value>,
    /// The receipt of the lineage's head, as it was sent.
    pub lineage_head_receipt: Option<serde_json::Value>,
}

/// A context that a producer asks a registry to publish.
#[derive(Debug)]
pub struct PublishRequest {
    pub agent_id: AgentDid,
    pub context_type: ContextType,
    pub visibility: Visibility,
    pub metadata: Option<serde_json::Value>,
    pub data_refs: Vec<DataRef>,
    pub supersedes: Option<CtxId>,
    pub content_hash: ContentHash,
    pub signature: Signature,
}

/// A registry's receipt for a publication, after verification.
#[derive(Debug, PartialEq, Eq)]
pub struct RegistryReceipt {
    /// When the registry took the publication in.
    pub created_at: Timestamp,
    /// The key that the registry saw authorized at that time.
    pub key_fingerprint: String,
}

/// A [`RegistryReceipt`] with its text as a character sequence.
pub struct RegistryReceiptView {
    pub created_at: Timestamp,
    pub key_fingerprint: Seq<char>,
}

impl RegistryReceipt {
    /// The receipt with its text as a character sequence.
    pub open spec fn view(&self) -> RegistryReceiptView {
        RegistryReceiptView {
            created_at: self.created_at,
            key_fingerprint: self.key_fingerprint@,
        }
    }
}

impl Clone for RegistryReceipt {
    fn clone(&self) -> (copy: Self)
        ensures
            copy == *self,
    {
        RegistryReceipt {
            created_at: self.created_at,
            key_fingerprint: self.key_fingerprint.clone(),
        }
    }
}

/// An optional receipt as a contract sees it.
pub open spec fn receipt_view(r: Option<RegistryReceipt>) -> Option<RegistryReceiptView> {
    match r {
        Some(r) => Some(r@),
        None => None,
    }
}

/// A registry's receipt for the head of a lineage, after verification.
#[derive(Debug, PartialEq, Eq)]
pub struct LineageHeadReceipt {
    /// When the registry attested the head.
    pub as_of: Timestamp,
}

/// The limits that a registry puts on publications.
#[derive(Clone, Copy, Debug, PartialEq, Eq, Structural)]
pub struct Limits {
    pub max_payload_bytes: u64,
    pub max_embedded_bytes: u64,
}

/// What a registry says of itself.
#[derive(Debug, PartialEq, Eq)]
pub struct CapabilitiesDocument {
    pub acdp_version: String,
    pub registry_did: String,
    pub supported_signature_algorithms: Vec<String>,
    pub supported_did_methods: Vec<String>,
    pub profiles: Vec<String>,
    pub limits: Limits,
}

/// The contents of a list of texts.
pub open spec fn list_view(v: Seq<String>) -> Seq<Seq<char>> {
    v.map_values(|t: String| t@)
}

/// Whether a list of texts holds `text`.
pub fn list_has(list: &Vec<String>, text: &str) -> (yes: bool)
    ensures
        yes == list_view(list@).contains(text@),
{
    let mut i: usize = 0;
    while i < list.len()
        invariant
            i <= list.len(),
            forall|k: int| 0 <= k < i ==> list@[k]@ != text@,
        decreases list.len() - i,
    {
        if same_text(list[i].as_str(), text) {
            assert(list_view(list@)[i as int] == text@);
            return true;
        }
        i = i + 1;
    }
    assert forall|k: int| 0 <= k < list_view(list@).len() implies list_view(list@)[k] != text@ by {
        assert(list@[k]@ != text@);
    }
    false
}

impl CapabilitiesDocument {
    /// Whether the registry resolves identities of this method.
    pub fn supports_did_method(&self, method: &str) -> (yes: bool)
        ensures
            yes == list_view(self.supported_did_methods@).contains(method@),
    {
        list_has(&self.supported_did_methods, method)
    }

    /// Whether the registry claims this profile.
    pub fn claims_profile(&self, profile: &str) -> (yes: bool)
        ensures
            yes == list_view(self.profiles@).contains(profile@),
    {
        list_has(&self.profiles, profile)
    }
}

/// The identifier `acdp://`, an authority and a path names that authority,
/// whatever the path; so does one without a path.
pub proof fn law_identifier_names_its_authority(authority: Seq<char>, rest: Seq<char>)
    requires
        !authority.contains('/'),
    ensures
        authority_of("acdp://"@ + authority + seq!['/'] + rest) == authority,
        authority_of("acdp://"@ + authority) == authority,
{
    let scheme = "acdp://"@;
    let n = scheme.len() as int;
    let long = scheme + authority + seq!['/'] + rest;
    let short = scheme + authority;
    assert(scheme.is_prefix_of(long)) by {
        assert(long.subrange(0, n) =~= scheme);
    }
    assert(scheme.is_prefix_of(short)) by {
        assert(short.subrange(0, n) =~= scheme);
    }
    assert(long.skip(n) =~= authority + seq!['/'] + rest);
    assert(short.skip(n) =~= authority);
    crate::text::law_pieces_make_the_text(authority, rest, '/');
    let first = crate::text::pieces(authority, '/');
    assert(first == seq![authority]);
    assert((first + crate::text::pieces(rest, '/'))[0] == authority);
}

/// An identifier of another form names no authority.
pub proof fn law_other_identifiers_name_no_authority(ctx_id: Seq<char>)
    requires
        !("acdp://"@.is_prefix_of(ctx_id)),
    ensures
        authority_of(ctx_id) == Seq::<char>::empty(),
{
}

/// The identity of an authority is `did:web:` and the authority, but for the
/// `:` before a port, which is written `%3A`.
pub proof fn law_identity_of_an_authority(host: Seq<char>, port: Seq<char>)
    requires
        !host.contains(':'),
        !port.contains(':'),
    ensures
        did_web_of(host) == "did:web:"@ + host,
        did_web_of(host + seq![':'] + port) == "did:web:"@ + host + "%3A"@ + port,
{
    let with = "%3A"@;
    crate::text::law_replacing_goes_by_character(host + seq![':'], port, ':', ':', with);
    crate::text::law_replacing_goes_by_character(host, seq![':'], ':', ':', with);
    crate::text::law_replacing_goes_by_character(port, port, ':', ':', with);
    assert("did:web:"@ + (host + with + port) =~= "did:web:"@ + host + with + port);
}

/// The key-revocation type has two spellings, the standard one and the one
/// from before it was standard, and nothing else revokes a key.
pub proof fn law_two_spellings_revoke_a_key(t: ContextType)
    ensures
        t.revokes_key() <==> t is KeyRevocation || (t is Custom && t->Custom_0@
            == "acdp:key-revocation"@),
        t.is_interim() <==> t is Custom && t->Custom_0@ == "acdp:key-revocation"@,
        t is KeyRevocation ==> t.name() == "key-revocation"@,
        t matches ContextType::Standard(n) ==> t.name() == n@,
        t matches ContextType::Custom(n) ==> t.name() == n@,
{
}

/// A list of texts holds a text exactly if one of its texts is that one.
pub proof fn law_lists_hold_their_texts(list: Seq<String>, text: Seq<char>)
    ensures
        list_view(list).len() == list.len(),
        list_view(list).contains(text) <==> exists|k: int|
            0 <= k < list.len() && (#[trigger] list[k])@ == text,
{
    let views = list_view(list);
    if views.contains(text) {
        let k = choose|k: int| 0 <= k < views.len() && views[k] == text;
        assert(list[k]@ == text);
    }
    if exists|k: int| 0 <= k < list.len() && (#[trigger] list[k])@ == text {
        let k = choose|k: int| 0 <= k < list.len() && (#[trigger] list[k])@ == text;
        assert(views[k] == text);
    }
}

} // verus!
