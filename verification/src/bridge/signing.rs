//! Signing on request: the responder and its approval gate, scoped grants,
//! prefix announcements, device delegations and revocations.

use crate::bridge::handlers::{NdnApprovalGate, NdnEnclaveBackend, NdnRecoverySigner};
use crate::bridge::identity_core::{
    copy_bytes, feature_off, identity_error, naming_error, no_identity, principal_error,
    IdentityCore,
};
use crate::bridge::types::{
    ErrorView, NdnActionClass, NdnDelegationScope, NdnError, NdnRevocation,
};
use crate::name::{text_component, Component, ComponentView, Name};
use crate::text;
use vstd::prelude::*;

verus! {

/// The longest a grant lasts.
pub const MAX_TTL_SECS: u64 = 86_400;

/// Lifetime of an announcement's Interest.
pub const ANNOUNCE_LIFETIME_MS: u64 = 10_000;

/// How long an announcement's answer is waited for: a little longer than its
/// Interest lives.
pub const ANNOUNCE_WAIT_MS: u64 = 11_000;

/// Length of an Ed25519 seed or public key.
pub const ED25519_LEN: usize = 32;

/// Whether a request may be signed without asking.
#[derive(Clone, Copy, Debug, PartialEq, Eq, Structural)]
pub enum Decision {
    AutoApprove,
    Prompt,
}

/// A request to sign `region`.
#[derive(Clone, Debug, PartialEq, Eq)]
pub struct WireSignRequest {
    pub req_id: u64,
    pub region: Vec<u8>,
}

/// The answer to a signing request.
#[derive(Clone, Debug, PartialEq, Eq)]
pub enum WireSignResponse {
    Approved { req_id: u64, signature: Vec<u8> },
    Denied { req_id: u64 },
}

/// What the user is asked: the name at the front of the region where it has
/// one, or else how many bytes it is.
pub open spec fn summary_text(region_name: Option<Seq<char>>, len: nat) -> Seq<char> {
    match region_name {
        Some(name) => "Authorize signing for "@ + name,
        None => "Authorize signing "@ + text::decimal(len) + " bytes"@,
    }
}

/// A one-line summary of what a request would sign. `region_name` is the name
/// decoded from the front of the region.
pub fn signing_summary(region_name: &Option<String>, region: &Vec<u8>) -> (summary: String)
    ensures
        summary@ == summary_text(text::text_view(*region_name), region@.len()),
        match *region_name {
            Some(name) => summary@ == "Authorize signing for "@ + name@,
            None => summary@ == "Authorize signing "@ + text::decimal(region@.len()) + " bytes"@,
        },
{
    match region_name {
        Some(name) => text::concat("Authorize signing for ", name.as_str()),
        None => {
            let len: usize = region.len();
            let mut summary: String = "Authorize signing ".to_owned();
            text::push_decimal(&mut summary, len as u64);
            text::concat(summary.as_str(), " bytes")
        },
    }
}

/// Whether a request is approved. A grant approves by itself; otherwise the
/// gate is asked, once, with the summary of the region.
pub fn approve<G: NdnApprovalGate>(
    decision: Decision,
    region_name: &Option<String>,
    region: &Vec<u8>,
    gate: &G,
) -> (approved: bool)
    ensures
        decision is AutoApprove ==> approved,
        decision is Prompt ==> exists|summary: String|
            #![trigger call_ensures(G::approve, (gate, summary), approved)]
            call_ensures(G::approve, (gate, summary), approved) && summary@ == summary_text(
                text::text_view(*region_name),
                region@.len(),
            ),
{
    match decision {
        Decision::AutoApprove => true,
        Decision::Prompt => {
            let summary: String = signing_summary(region_name, region);
            let ghost asked = summary;
            let approved: bool = gate.approve(summary);
            assert(call_ensures(G::approve, (gate, asked), approved));
            approved
        },
    }
}

/// A decoded request, or how its failure to decode is reported.
pub fn accept_request(decoded: Result<WireSignRequest, String>) -> (request: Result<
    WireSignRequest,
    NdnError,
>)
    ensures
        match decoded {
            Ok(decoded) => request == Ok::<WireSignRequest, NdnError>(decoded),
            Err(why) => request is Err && request->Err_0@ == identity_error(why@),
        },
{
    match decoded {
        Ok(decoded) => Ok(decoded),
        Err(why) => Err(NdnError::identity(why.as_str())),
    }
}

/// The signature that a recovery signer gives, or its refusal.
pub fn recovery_signature<R: NdnRecoverySigner>(callback: &R, region: Vec<u8>) -> (signature:
    Result<Vec<u8>, String>)
    ensures
        exists|answer: Vec<u8>|
            #![trigger call_ensures(R::sign, (callback, region), answer)]
            call_ensures(R::sign, (callback, region), answer) && match signature {
                Ok(bytes) => bytes == answer && answer@.len() > 0,
                Err(why) => answer@.len() == 0 && why@
                    == "recovery signer refused (empty signature)"@,
            },
{
    let answer: Vec<u8> = callback.sign(region);
    assert(call_ensures(R::sign, (callback, region), answer));
    if answer.len() == 0 {
        return Err("recovery signer refused (empty signature)".to_owned());
    }
    Ok(answer)
}

/// The signature that the enclave gives, or its refusal.
pub fn enclave_signature<E: NdnEnclaveBackend>(callback: &E, region: Vec<u8>) -> (signature: Result<
    Vec<u8>,
    String,
>)
    ensures
        exists|answer: Vec<u8>|
            #![trigger call_ensures(E::sign, (callback, region), answer)]
            call_ensures(E::sign, (callback, region), answer) && match signature {
                Ok(bytes) => bytes == answer && answer@.len() > 0,
                Err(why) => answer@.len() == 0 && why@ == "enclave refused or unavailable"@,
            },
{
    let answer: Vec<u8> = callback.sign(region);
    assert(call_ensures(E::sign, (callback, region), answer));
    if answer.len() == 0 {
        return Err("enclave refused or unavailable".to_owned());
    }
    Ok(answer)
}

/// The answer to a request with this id, given whether it was approved and what
/// the signer made of it (`None` where there is no signer).
pub open spec fn response(
    req_id: u64,
    approved: bool,
    signed: Option<Result<Vec<u8>, String>>,
) -> WireSignResponse {
    match signed {
        Some(Ok(signature)) if approved => WireSignResponse::Approved { req_id, signature },
        _ => WireSignResponse::Denied { req_id },
    }
}

/// What is signed as a management command, and what is served meanwhile.
pub struct AnnouncePlan {
    /// The command's name.
    pub command: Name,
    /// What the signature is located by.
    pub key_locator: Name,
    /// The certificate that a gateway can pull back.
    pub certificate: Vec<u8>,
    pub lifetime_ms: u64,
    pub wait_ms: u64,
}

/// What came of an announcement.
pub enum AnnounceReply {
    /// The command could not be signed.
    SignFailed(String),
    /// No answer came.
    NoResponse(String),
    /// The answer does not decode.
    BadResponse(String),
    /// The answer's status.
    Status(u64),
}

/// The command that registers a prefix at the next hop.
pub open spec fn register_command(parameters: Seq<u8>) -> Seq<ComponentView> {
    seq![
        text_component("localhop"@),
        text_component("nfd"@),
        text_component("rib"@),
        text_component("register"@),
        ComponentView::Generic(parameters),
    ]
}

/// A kind of management action that a grant can be limited to.
#[derive(Clone, Copy, Debug, PartialEq, Eq, Structural)]
pub enum ActionClass {
    Route,
    Face,
    Strategy,
    ContentStore,
    Other,
}

/// A grant to be entered into the signing policy.
#[derive(Clone, Copy, Debug, PartialEq, Eq, Structural)]
pub struct ScopedGrant {
    pub ttl_secs: u64,
    /// `None` covers every action that is not sensitive.
    pub action_filter: Option<ActionClass>,
}

/// The filter of an action class.
pub open spec fn filter_of(action: NdnActionClass) -> Option<ActionClass> {
    match action {
        NdnActionClass::Any => None,
        NdnActionClass::Route => Some(ActionClass::Route),
        NdnActionClass::Face => Some(ActionClass::Face),
        NdnActionClass::Strategy => Some(ActionClass::Strategy),
        NdnActionClass::ContentStore => Some(ActionClass::ContentStore),
        NdnActionClass::Other => Some(ActionClass::Other),
    }
}

/// The filter of an action class; any class means none.
pub fn action_filter(action: NdnActionClass) -> (filter: Option<ActionClass>)
    ensures
        filter == filter_of(action),
        action == NdnActionClass::Any <==> filter is None,
        action == NdnActionClass::Route <==> filter == Some(ActionClass::Route),
        action == NdnActionClass::Face <==> filter == Some(ActionClass::Face),
        action == NdnActionClass::Strategy <==> filter == Some(ActionClass::Strategy),
        action == NdnActionClass::ContentStore <==> filter == Some(ActionClass::ContentStore),
        action == NdnActionClass::Other <==> filter == Some(ActionClass::Other),
{
    match action {
        NdnActionClass::Any => None,
        NdnActionClass::Route => Some(ActionClass::Route),
        NdnActionClass::Face => Some(ActionClass::Face),
        NdnActionClass::Strategy => Some(ActionClass::Strategy),
        NdnActionClass::ContentStore => Some(ActionClass::ContentStore),
        NdnActionClass::Other => Some(ActionClass::Other),
    }
}

/// What a delegation grants.
#[derive(Clone, Debug, PartialEq, Eq)]
pub struct CapabilitySet {
    /// Patterns of names that may be signed, as text.
    pub sign: Vec<String>,
    pub unwrap_for: bool,
    pub enroll: bool,
    pub mgmt: bool,
}

/// A granted scope as the host sees it.
pub fn scope_to_ffi(scope: CapabilitySet) -> (seen: NdnDelegationScope)
    ensures
        seen.sign_patterns == scope.sign,
        seen.unwrap_for == scope.unwrap_for,
        seen.enroll == scope.enroll,
        seen.mgmt == scope.mgmt,
{
    NdnDelegationScope {
        sign_patterns: scope.sign,
        unwrap_for: scope.unwrap_for,
        enroll: scope.enroll,
        mgmt: scope.mgmt,
    }
}

/// Where the first refused pattern stands, if one was refused.
pub open spec fn first_refused(verdicts: Seq<Option<String>>) -> Option<nat>
    decreases verdicts.len(),
{
    if verdicts.len() == 0 {
        None
    } else {
        match first_refused(verdicts.drop_last()) {
            Some(at) => Some(at),
            None => if verdicts.last() is Some {
                Some((verdicts.len() - 1) as nat)
            } else {
                None
            },
        }
    }
}

/// How the first refused pattern of a scope is reported.
pub open spec fn pattern_error(patterns: Seq<String>, verdicts: Seq<Option<String>>) -> Option<
    ErrorView,
> {
    match first_refused(verdicts) {
        Some(at) => Some(
            identity_error(
                "invalid sign pattern '"@ + patterns[at as int]@ + "': "@
                    + verdicts[at as int]->0@,
            ),
        ),
        None => None,
    }
}

/// Checks the patterns of a scope. `verdicts` holds, pattern by pattern, why it
/// was refused.
pub fn check_patterns(patterns: &Vec<String>, verdicts: &Vec<Option<String>>) -> (checked: Result<
    bool,
    NdnError,
>)
    requires
        patterns@.len() == verdicts@.len(),
    ensures
        match pattern_error(patterns@, verdicts@) {
            Some(error) => checked is Err && checked->Err_0@ == error,
            None => checked == Ok::<bool, NdnError>(true),
        },
{
    let n: usize = verdicts.len();
    let mut i: usize = 0;
    while i < n
        invariant
            n == verdicts@.len(),
            patterns@.len() == n,
            i <= n,
            first_refused(verdicts@.take(i as int)) is None,
        decreases n - i,
    {
        proof {
            assert(verdicts@.take(i + 1).drop_last() =~= verdicts@.take(i as int));
            assert(verdicts@.take(i + 1).last() == verdicts@[i as int]);
        }
        match &verdicts[i] {
            Some(why) => {
                proof {
                    lemma_first_refused_stays(verdicts@, i + 1);
                }
                let head: String = text::concat3(
                    "invalid sign pattern '",
                    patterns[i].as_str(),
                    "': ",
                );
                let msg: String = text::concat(head.as_str(), why.as_str());
                return Err(NdnError::identity(msg.as_str()));
            },
            None => {},
        }
        i = i + 1;
    }
    assert(verdicts@.take(n as int) =~= verdicts@);
    Ok(true)
}

/// The first pattern that was refused decides, whatever comes behind it: its own
/// text and the reason are reported. A scope is fine exactly where none was.
pub proof fn law_first_refused_pattern_is_reported(
    patterns: Seq<String>,
    verdicts: Seq<Option<String>>,
    k: int,
)
    ensures
        0 <= k < verdicts.len() && verdicts[k] is Some && (forall|i: int|
            0 <= i < k ==> #[trigger] verdicts[i] is None) ==> pattern_error(patterns, verdicts)
            == Some(
            ErrorView::Identity {
                msg: "invalid sign pattern '"@ + patterns[k]@ + "': "@ + verdicts[k]->0@,
            },
        ),
        (forall|i: int| 0 <= i < verdicts.len() ==> #[trigger] verdicts[i] is None)
            <==> pattern_error(patterns, verdicts) is None,
{
    lemma_first_refused(verdicts);
    if 0 <= k < verdicts.len() && verdicts[k] is Some && (forall|i: int|
        0 <= i < k ==> #[trigger] verdicts[i] is None) {
        let at = first_refused(verdicts)->0 as int;
        assert(verdicts[k] is Some);
        assert(verdicts[at] is Some);
        if at < k {
            assert(verdicts[at] is None);
        }
    }
}

proof fn lemma_first_refused(verdicts: Seq<Option<String>>)
    ensures
        match first_refused(verdicts) {
            Some(at) => at < verdicts.len() && verdicts[at as int] is Some && forall|i: int|
                0 <= i < at ==> #[trigger] verdicts[i] is None,
            None => forall|i: int| 0 <= i < verdicts.len() ==> #[trigger] verdicts[i] is None,
        },
    decreases verdicts.len(),
{
    if verdicts.len() > 0 {
        let front = verdicts.drop_last();
        lemma_first_refused(front);
        assert forall|i: int| 0 <= i < front.len() implies #[trigger] verdicts[i] == front[i] by {}
        match first_refused(front) {
            Some(at) => {
                assert(verdicts[at as int] == front[at as int]);
            },
            None => {
                assert forall|i: int| 0 <= i < verdicts.len() - 1 implies #[trigger] verdicts[i] is None by {
                    assert(front[i] is None);
                }
            },
        }
    }
}

proof fn lemma_first_refused_stays(verdicts: Seq<Option<String>>, n: int)
    requires
        0 <= n <= verdicts.len(),
        first_refused(verdicts.take(n)) is Some,
    ensures
        first_refused(verdicts) == first_refused(verdicts.take(n)),
    decreases verdicts.len(),
{
    if n == verdicts.len() {
        assert(verdicts.take(n) =~= verdicts);
    } else {
        assert(verdicts.drop_last().take(n) =~= verdicts.take(n));
        lemma_first_refused_stays(verdicts.drop_last(), n);
    }
}

/// How an Ed25519 key or seed of the wrong length is reported.
pub open spec fn length_error(what: Seq<char>, len: nat) -> ErrorView {
    identity_error(what + " must be 32 bytes (Ed25519), got "@ + text::decimal(len))
}

fn check_length(what: &str, bytes: &Vec<u8>) -> (checked: Result<bool, NdnError>)
    ensures
        if bytes@.len() == ED25519_LEN {
            checked == Ok::<bool, NdnError>(true)
        } else {
            checked is Err && checked->Err_0@ == length_error(what@, bytes@.len())
        },
        checked is Ok <==> bytes@.len() == 32,
        checked matches Err(error) ==> error@ == (ErrorView::Identity {
            msg: what@ + " must be 32 bytes (Ed25519), got "@ + text::decimal(bytes@.len()),
        }),
{
    let len: usize = bytes.len();
    if len == ED25519_LEN {
        return Ok(true);
    }
    let mut msg: String = text::concat(what, " must be 32 bytes (Ed25519), got ");
    text::push_decimal(&mut msg, len as u64);
    Err(NdnError::identity(msg.as_str()))
}

/// Checks a recovery seed.
pub fn check_recovery_seed(seed: &Vec<u8>) -> (checked: Result<bool, NdnError>)
    ensures
        if seed@.len() == ED25519_LEN {
            checked == Ok::<bool, NdnError>(true)
        } else {
            checked is Err && checked->Err_0@ == length_error("recovery seed"@, seed@.len())
        },
        checked is Ok <==> seed@.len() == 32,
{
    check_length("recovery seed", seed)
}

/// What came of checking a delegation.
pub enum DelegationCheck {
    Malformed(String),
    Unverified(String),
    Granted(CapabilitySet),
}

/// What came of checking a revocation.
pub enum RevocationCheck {
    Malformed(String),
    Unverified(String),
    Valid(NdnRevocation),
}

/// What has to hold before a delegated signature is made, in this order.
pub struct DelegatedRequest {
    /// Why the delegation does not decode.
    pub malformed: Option<String>,
    /// Whether a name stands at the front of the region.
    pub named: bool,
    /// Why the delegation does not verify.
    pub unverified: Option<String>,
    /// What the signer made of the region under the delegation.
    pub signed: Result<Vec<u8>, String>,
}

impl<S, C> IdentityCore<S, C> {
    /// Answers a signing request. Approved without a signer, it is an error;
    /// refused, or failed by the signer, it is denied.
    pub fn respond_to_sign_request(
        &self,
        req_id: u64,
        approved: bool,
        signed: Result<Vec<u8>, String>,
    ) -> (answer: Result<WireSignResponse, NdnError>)
        ensures
            if !self@.enabled {
                answer is Err && answer->Err_0@ == feature_off()
            } else if approved && self@.identity is None {
                answer is Err && answer->Err_0@ == no_identity()
            } else {
                answer == Ok::<WireSignResponse, NdnError>(response(req_id, approved, Some(signed)))
            },
    {
        if !self.is_enabled() {
            return Err(NdnError::identity("identity feature not enabled in this build"));
        }
        if !approved {
            return Ok(WireSignResponse::Denied { req_id });
        }
        if !self.has_identity() {
            return Err(NdnError::identity("no identity loaded"));
        }
        match signed {
            Ok(signature) => Ok(WireSignResponse::Approved { req_id, signature }),
            Err(_) => Ok(WireSignResponse::Denied { req_id }),
        }
    }

    /// Answers a served signing request: what cannot be signed is denied.
    pub fn served_response(
        &self,
        req_id: u64,
        approved: bool,
        signed: Result<Vec<u8>, String>,
    ) -> (answer: WireSignResponse)
        ensures
            answer == response(
                req_id,
                approved,
                if self@.identity is Some {
                    Some(signed)
                } else {
                    None
                },
            ),
    {
        if approved && self.has_identity() {
            match signed {
                Ok(signature) => WireSignResponse::Approved { req_id, signature },
                Err(_) => WireSignResponse::Denied { req_id },
            }
        } else {
            WireSignResponse::Denied { req_id }
        }
    }

    /// What announcing a prefix takes. `parameters` is the encoded parameters
    /// that hold it, where it is a name.
    pub fn announce_plan(&self, prefix: &str, parameters: Option<Vec<u8>>) -> (plan: Result<
        AnnouncePlan,
        NdnError,
    >)
        ensures
            match (parameters, self@.identity) {
                (None, _) => plan is Err && plan->Err_0@ == (ErrorView::InvalidName {
                    name: prefix@,
                }),
                (Some(_), None) => plan is Err && plan->Err_0@ == no_identity(),
                (Some(parameters), Some(signer)) => {
                    &&& plan is Ok
                    &&& plan->Ok_0.command@ == register_command(parameters@)
                    &&& plan->Ok_0.command@ == seq![
                        ComponentView::Generic(vstd::utf8::encode_utf8("localhop"@)),
                        ComponentView::Generic(vstd::utf8::encode_utf8("nfd"@)),
                        ComponentView::Generic(vstd::utf8::encode_utf8("rib"@)),
                        ComponentView::Generic(vstd::utf8::encode_utf8("register"@)),
                        ComponentView::Generic(parameters@),
                    ]
                    &&& plan->Ok_0.key_locator@ == match signer.cert_name {
                        Some(name) => name,
                        None => signer.key_name,
                    }
                    &&& plan->Ok_0.certificate@ == match self@.cert_wire {
                        Some(wire) => wire,
                        None => Seq::empty(),
                    }
                    &&& plan->Ok_0.lifetime_ms == ANNOUNCE_LIFETIME_MS
                    &&& plan->Ok_0.wait_ms == ANNOUNCE_WAIT_MS
                    &&& plan->Ok_0.lifetime_ms == 10_000
                    &&& plan->Ok_0.wait_ms == plan->Ok_0.lifetime_ms + 1000
                },
            },
    {
        match parameters {
            None => Err(NdnError::invalid_name(prefix)),
            Some(parameters) => match self.current_signer() {
                None => Err(NdnError::identity("no identity loaded")),
                Some(signer) => {
                    let command: Name = Name::root().append_str("localhop").append_str(
                        "nfd",
                    ).append_str("rib").append_str("register").append_component(
                        Component::Generic(parameters),
                    );
                    assert(command@ =~= register_command(parameters@));
                    let key_locator: Name = match &signer.cert_name {
                        Some(name) => name.duplicate(),
                        None => signer.key_name.duplicate(),
                    };
                    let certificate: Vec<u8> = match self.certificate() {
                        Some(wire) => copy_bytes(wire),
                        None => Vec::new(),
                    };
                    Ok(
                        AnnouncePlan {
                            command,
                            key_locator,
                            certificate,
                            lifetime_ms: ANNOUNCE_LIFETIME_MS,
                            wait_ms: ANNOUNCE_WAIT_MS,
                        },
                    )
                },
            },
        }
    }

    /// A grant for an action class. Its time is at least a second and at most a
    /// day.
    pub fn grant_signing_scope(&self, action: NdnActionClass, ttl_secs: u64) -> (grant: Result<
        ScopedGrant,
        NdnError,
    >)
        ensures
            if !self@.enabled {
                grant is Err && grant->Err_0@ == feature_off()
            } else {
                &&& grant is Ok
                &&& grant->Ok_0.action_filter == filter_of(action)
                &&& 1 <= grant->Ok_0.ttl_secs <= 24 * 3600
                &&& 1 <= ttl_secs <= 24 * 3600 ==> grant->Ok_0.ttl_secs == ttl_secs
                &&& ttl_secs > 24 * 3600 ==> grant->Ok_0.ttl_secs == 24 * 3600
                &&& grant->Ok_0.ttl_secs == (if ttl_secs < 1 {
                    1
                } else if ttl_secs > MAX_TTL_SECS {
                    MAX_TTL_SECS
                } else {
                    ttl_secs
                })
            },
    {
        if !self.is_enabled() {
            return Err(NdnError::identity("identity feature not enabled in this build"));
        }
        let ttl: u64 = if ttl_secs < 1 {
            1
        } else if ttl_secs > MAX_TTL_SECS {
            MAX_TTL_SECS
        } else {
            ttl_secs
        };
        Ok(ScopedGrant { ttl_secs: ttl, action_filter: action_filter(action) })
    }

    /// How many grants are reported as active, where the policy holds `active`.
    pub fn active_signing_scopes(&self, active: u64) -> (n: u32)
        ensures
            n == (if self@.enabled {
                active % 0x1_0000_0000
            } else {
                0
            }),
    {
        if self.is_enabled() {
            (active % 0x1_0000_0000) as u32
        } else {
            0
        }
    }

    /// Issues a delegation to a device. `identity_parses` and `issued` are what
    /// came of making the principal and of issuing under it.
    pub fn add_device(
        &self,
        device: &str,
        device_parses: bool,
        scope: &NdnDelegationScope,
        verdicts: &Vec<Option<String>>,
        identity_parses: bool,
        issued: Result<Vec<u8>, String>,
    ) -> (delegation: Result<Vec<u8>, NdnError>)
        requires
            scope.sign_patterns@.len() == verdicts@.len(),
        ensures
            match naming_error(self@.enabled, device@, device_parses) {
                Some(error) => delegation is Err && delegation->Err_0@ == error,
                None => match pattern_error(scope.sign_patterns@, verdicts@) {
                    Some(error) => delegation is Err && delegation->Err_0@ == error,
                    None => match principal_error(self@.identity, identity_parses) {
                        Some(error) => delegation is Err && delegation->Err_0@ == error,
                        None => match issued {
                            Ok(wire) => delegation == Ok::<Vec<u8>, NdnError>(wire),
                            Err(why) => delegation is Err && delegation->Err_0@
                                == identity_error(why@),
                        },
                    },
                },
            },
    {
        if !self.is_enabled() {
            return Err(NdnError::identity("identity feature not enabled in this build"));
        }
        if !device_parses {
            return Err(NdnError::invalid_name(device));
        }
        match check_patterns(&scope.sign_patterns, verdicts) {
            Err(error) => Err(error),
            Ok(_) => self.loaded_identity(identity_parses, issued),
        }
    }

    /// The scope of a delegation that was checked against the principal's key.
    pub fn verify_delegation(&self, check: DelegationCheck) -> (scope: Result<
        NdnDelegationScope,
        NdnError,
    >)
        ensures
            if !self@.enabled {
                scope is Err && scope->Err_0@ == feature_off()
            } else {
                match check {
                    DelegationCheck::Malformed(why) => scope is Err && scope->Err_0@
                        == identity_error("malformed delegation: "@ + why@),
                    DelegationCheck::Unverified(why) => scope is Err && scope->Err_0@
                        == identity_error("delegation did not verify: "@ + why@),
                    DelegationCheck::Granted(granted) => {
                        &&& scope is Ok
                        &&& scope->Ok_0.sign_patterns == granted.sign
                        &&& scope->Ok_0.unwrap_for == granted.unwrap_for
                        &&& scope->Ok_0.enroll == granted.enroll
                        &&& scope->Ok_0.mgmt == granted.mgmt
                    },
                }
            },
    {
        if !self.is_enabled() {
            return Err(NdnError::identity("identity feature not enabled in this build"));
        }
        match check {
            DelegationCheck::Malformed(why) => {
                let msg: String = text::concat("malformed delegation: ", why.as_str());
                Err(NdnError::identity(msg.as_str()))
            },
            DelegationCheck::Unverified(why) => {
                let msg: String = text::concat("delegation did not verify: ", why.as_str());
                Err(NdnError::identity(msg.as_str()))
            },
            DelegationCheck::Granted(granted) => Ok(scope_to_ffi(granted)),
        }
    }

    /// Signs under a delegation with the device's own key. The first condition
    /// that fails decides the error.
    pub fn sign_delegated(&self, request: DelegatedRequest) -> (signature: Result<
        Vec<u8>,
        NdnError,
    >)
        ensures
            match delegated_error(self@.enabled, self@.identity is Some, request) {
                Some(error) => signature is Err && signature->Err_0@ == error,
                None => signature == Ok::<Vec<u8>, NdnError>(request.signed->Ok_0),
            },
            signature is Ok <==> self@.enabled && self@.identity is Some && request.malformed is None
                && request.named && request.unverified is None && request.signed is Ok,
            signature is Err && self@.enabled && self@.identity is Some ==> signature->Err_0@ == (
            ErrorView::Identity {
                msg: match (request.malformed, request.named, request.unverified) {
                    (Some(why), _, _) => "malformed delegation: "@ + why@,
                    (None, false, _) => "region has no leading Name to scope-check"@,
                    (None, true, Some(why)) => "delegation did not verify: "@ + why@,
                    (None, true, None) => request.signed->Err_0@,
                },
            }),
    {
        if !self.is_enabled() {
            return Err(NdnError::identity("identity feature not enabled in this build"));
        }
        if !self.has_identity() {
            return Err(NdnError::identity("no device identity loaded"));
        }
        match request.malformed {
            Some(why) => {
                let msg: String = text::concat("malformed delegation: ", why.as_str());
                return Err(NdnError::identity(msg.as_str()));
            },
            None => {},
        }
        if !request.named {
            return Err(NdnError::identity("region has no leading Name to scope-check"));
        }
        match request.unverified {
            Some(why) => {
                let msg: String = text::concat("delegation did not verify: ", why.as_str());
                return Err(NdnError::identity(msg.as_str()));
            },
            None => {},
        }
        match request.signed {
            Ok(bytes) => Ok(bytes),
            Err(why) => Err(NdnError::identity(why.as_str())),
        }
    }

    /// The region that is signed for a payload under `name`: the name's
    /// encoding, where it is one, and then the payload.
    pub fn delegated_region(&self, name: &str, encoded: Option<Vec<u8>>, payload: &Vec<u8>) -> (
    region: Result<Vec<u8>, NdnError>)
        ensures
            match naming_error(self@.enabled, name@, encoded is Some) {
                Some(error) => region is Err && region->Err_0@ == error,
                None => region is Ok && region->Ok_0@ == encoded->0@ + payload@,
            },
    {
        if !self.is_enabled() {
            return Err(NdnError::identity("identity feature not enabled in this build"));
        }
        match encoded {
            None => Err(NdnError::invalid_name(name)),
            Some(encoded) => {
                let ghost head = encoded@;
                let mut region: Vec<u8> = encoded;
                region.extend_from_slice(payload.as_slice());
                assert(region@ =~= head + payload@);
                Ok(region)
            },
        }
    }

    /// Commits the loaded identity to a recovery key. `identity_parses` and
    /// `bundle` are what came of making the principal and its bundle.
    pub fn make_recoverable(
        &self,
        recovery_pubkey: &Vec<u8>,
        identity_parses: bool,
        bundle: Result<Vec<u8>, String>,
    ) -> (exported: Result<Vec<u8>, NdnError>)
        ensures
            if !self@.enabled {
                exported is Err && exported->Err_0@ == feature_off()
            } else if recovery_pubkey@.len() != ED25519_LEN {
                exported is Err && exported->Err_0@ == length_error(
                    "recovery key"@,
                    recovery_pubkey@.len(),
                )
            } else {
                match principal_error(self@.identity, identity_parses) {
                    Some(error) => exported is Err && exported->Err_0@ == error,
                    None => match bundle {
                        Ok(bytes) => exported == Ok::<Vec<u8>, NdnError>(bytes),
                        Err(why) => exported is Err && exported->Err_0@ == identity_error(why@),
                    },
                }
            },
    {
        if !self.is_enabled() {
            return Err(NdnError::identity("identity feature not enabled in this build"));
        }
        match check_length("recovery key", recovery_pubkey) {
            Err(error) => Err(error),
            Ok(_) => self.loaded_identity(identity_parses, bundle),
        }
    }

    /// Revokes the loaded identity. `clock` is why the time cannot be told,
    /// `record` what came of signing the revocation.
    pub fn revoke_identity(
        &self,
        identity_parses: bool,
        wrapped: Result<bool, String>,
        clock: Option<String>,
        record: Result<Vec<u8>, String>,
    ) -> (revocation: Result<Vec<u8>, NdnError>)
        ensures
            if !self@.enabled {
                revocation is Err && revocation->Err_0@ == feature_off()
            } else {
                match (
                    principal_error(self@.identity, identity_parses),
                    wrapped,
                    clock,
                    record,
                ) {
                    (Some(error), _, _, _) => revocation is Err && revocation->Err_0@ == error,
                    (None, Err(why), _, _) => revocation is Err && revocation->Err_0@
                        == identity_error(why@),
                    (None, Ok(_), Some(why), _) => revocation is Err && revocation->Err_0@
                        == identity_error(why@),
                    (None, Ok(_), None, Err(why)) => revocation is Err && revocation->Err_0@
                        == identity_error(why@),
                    (None, Ok(_), None, Ok(wire)) => revocation == Ok::<Vec<u8>, NdnError>(wire),
                }
            },
    {
        if !self.is_enabled() {
            return Err(NdnError::identity("identity feature not enabled in this build"));
        }
        match self.loaded_identity(identity_parses, wrapped) {
            Err(error) => Err(error),
            Ok(_) => match clock {
                Some(why) => Err(NdnError::identity(why.as_str())),
                None => match record {
                    Ok(wire) => Ok(wire),
                    Err(why) => Err(NdnError::identity(why.as_str())),
                },
            },
        }
    }

    /// A revocation that was checked against the signer's key.
    pub fn verify_revocation(&self, check: RevocationCheck) -> (revocation: Result<
        NdnRevocation,
        NdnError,
    >)
        ensures
            if !self@.enabled {
                revocation is Err && revocation->Err_0@ == feature_off()
            } else {
                match check {
                    RevocationCheck::Malformed(why) => revocation is Err && revocation->Err_0@
                        == identity_error("malformed revocation: "@ + why@),
                    RevocationCheck::Unverified(why) => revocation is Err && revocation->Err_0@
                        == identity_error("revocation did not verify: "@ + why@),
                    RevocationCheck::Valid(record) => revocation == Ok::<NdnRevocation, NdnError>(
                        record,
                    ),
                }
            },
    {
        if !self.is_enabled() {
            return Err(NdnError::identity("identity feature not enabled in this build"));
        }
        match check {
            RevocationCheck::Malformed(why) => {
                let msg: String = text::concat("malformed revocation: ", why.as_str());
                Err(NdnError::identity(msg.as_str()))
            },
            RevocationCheck::Unverified(why) => {
                let msg: String = text::concat("revocation did not verify: ", why.as_str());
                Err(NdnError::identity(msg.as_str()))
            },
            RevocationCheck::Valid(record) => Ok(record),
        }
    }
}

/// The first thing that is wrong with a delegated signature.
pub open spec fn delegated_error(
    enabled: bool,
    loaded: bool,
    request: DelegatedRequest,
) -> Option<ErrorView> {
    if !enabled {
        Some(feature_off())
    } else if !loaded {
        Some(identity_error("no device identity loaded"@))
    } else if request.malformed is Some {
        Some(identity_error("malformed delegation: "@ + request.malformed->0@))
    } else if !request.named {
        Some(identity_error("region has no leading Name to scope-check"@))
    } else if request.unverified is Some {
        Some(identity_error("delegation did not verify: "@ + request.unverified->0@))
    } else if request.signed is Err {
        Some(identity_error(request.signed->Err_0@))
    } else {
        None
    }
}

/// Whether an announcement was accepted.
pub fn announce_prefix(reply: AnnounceReply) -> (accepted: Result<bool, NdnError>)
    ensures
        match reply {
            AnnounceReply::SignFailed(why) => accepted is Err && accepted->Err_0@
                == identity_error(why@),
            AnnounceReply::NoResponse(why) => accepted is Err && accepted->Err_0@ == (
            ErrorView::Engine { msg: "announce: no ControlResponse: "@ + why@ }),
            AnnounceReply::BadResponse(why) => accepted is Err && accepted->Err_0@ == (
            ErrorView::Engine { msg: "announce: bad ControlResponse: "@ + why@ }),
            AnnounceReply::Status(code) => accepted == Ok::<bool, NdnError>(200 <= code < 300),
        },
{
    match reply {
        AnnounceReply::SignFailed(why) => Err(NdnError::identity(why.as_str())),
        AnnounceReply::NoResponse(why) => {
            let msg: String = text::concat("announce: no ControlResponse: ", why.as_str());
            Err(NdnError::engine(msg.as_str()))
        },
        AnnounceReply::BadResponse(why) => {
            let msg: String = text::concat("announce: bad ControlResponse: ", why.as_str());
            Err(NdnError::engine(msg.as_str()))
        },
        AnnounceReply::Status(code) => Ok(200 <= code && code < 300),
    }
}

/// A request that was not approved is denied, and one without a signer too: no
/// signature leaves the node either way.
pub proof fn law_no_signature_without_approval(
    req_id: u64,
    approved: bool,
    signed: Option<Result<Vec<u8>, String>>,
)
    ensures
        response(req_id, approved, signed) is Approved <==> approved && signed is Some
            && signed->0 is Ok,
        !approved ==> response(req_id, approved, signed) == (WireSignResponse::Denied { req_id }),
        match signed {
            Some(Ok(signature)) => approved ==> response(req_id, approved, signed) == (
            WireSignResponse::Approved { req_id, signature }),
            _ => response(req_id, approved, signed) == (WireSignResponse::Denied { req_id }),
        },
{
}

} // verus!
