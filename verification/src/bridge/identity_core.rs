//! The signing identity and the trust state of a node: which key signs, which
//! certificate stands for it, and which anchors are trusted. The signer and the
//! decoded certificates come from the security layer and are carried along as
//! they are.

use crate::bridge::types::{
    ErrorView, NdnContext, NdnEnrollConfig, NdnEnrolledIdentity, NdnError,
};
use crate::mobile::enroll::valid_until;
use crate::name::{text_component, ComponentView, Name};
use crate::text;
use vstd::prelude::*;

verus! {

/// Ten years: the validity of a certificate that a node signs for itself.
pub const VALIDITY_SECS: u64 = 315_360_000;

/// Segment size of a published object whose caller names none.
pub const DEFAULT_CHUNK: u64 = 8192;

/// What the loaded signer is known by.
pub struct LoadedSigner<S> {
    pub signer: S,
    pub key_name: Name,
    /// The key name as a URI.
    pub key_text: String,
    pub cert_name: Option<Name>,
    pub public_key: Option<Vec<u8>>,
}

pub ghost struct SignerView<S> {
    pub signer: S,
    pub key_name: Seq<ComponentView>,
    pub key_text: Seq<char>,
    pub cert_name: Option<Seq<ComponentView>>,
    pub public_key: Option<Seq<u8>>,
}

pub open spec fn name_view(name: Option<Name>) -> Option<Seq<ComponentView>> {
    match name {
        Some(name) => Some(name@),
        None => None,
    }
}

impl<S> View for LoadedSigner<S> {
    type V = SignerView<S>;

    open spec fn view(&self) -> SignerView<S> {
        SignerView {
            signer: self.signer,
            key_name: self.key_name@,
            key_text: self.key_text@,
            cert_name: name_view(self.cert_name),
            public_key: text::bytes_view(self.public_key),
        }
    }
}

/// A signer is known by all that it was loaded with.
pub proof fn law_signer_is_known_by_its_names<S>(s: LoadedSigner<S>)
    ensures
        s@.signer == s.signer,
        s@.key_name == s.key_name@,
        s@.key_text == s.key_text@,
        s.cert_name matches Some(name) ==> s@.cert_name == Some(name@),
        s.cert_name is None ==> s@.cert_name is None,
        s.public_key matches Some(key) ==> s@.public_key == Some(key@),
        s.public_key is None ==> s@.public_key is None,
{
}

/// An identity that was just enrolled or generated.
pub struct NewIdentity<S> {
    pub signer: LoadedSigner<S>,
    pub key_name: String,
    pub cert_name: String,
    pub certificate: Option<Vec<u8>>,
}

/// Why a certificate cannot be pinned.
pub enum AnchorFailure {
    NotData(String),
    NotCertificate(String),
}

pub open spec fn identity_error(msg: Seq<char>) -> ErrorView {
    ErrorView::Identity { msg }
}

pub open spec fn no_identity() -> ErrorView {
    identity_error("no identity loaded"@)
}

pub open spec fn feature_off() -> ErrorView {
    identity_error("identity feature not enabled in this build"@)
}

/// Whether `key` has the key marker at `i`.
pub open spec fn marked_at(key: Seq<char>, i: int) -> bool {
    0 <= i && i + 5 <= key.len() && key.subrange(i, i + 5) == seq!['/', 'K', 'E', 'Y', '/']
}

/// The first key marker of `key` at or behind `from`.
pub open spec fn marker_from(key: Seq<char>, from: nat) -> Option<nat>
    decreases key.len() - from,
{
    if from >= key.len() {
        None
    } else if marked_at(key, from as int) {
        Some(from)
    } else {
        marker_from(key, from + 1)
    }
}

/// The identity that a key name belongs to: what stands before its first
/// marker.
pub open spec fn identity_of(key: Seq<char>) -> Option<Seq<char>> {
    match marker_from(key, 0) {
        Some(at) => Some(key.take(at as int)),
        None => None,
    }
}

/// The identity is cut off at the first marker, wherever it stands.
pub proof fn law_identity_ends_at_the_first_marker(key: Seq<char>, i: int)
    requires
        marked_at(key, i),
        forall|j: int| j < i ==> !marked_at(key, j),
    ensures
        identity_of(key) == Some(key.take(i)),
{
    lemma_marker_from(key, 0, i);
}

proof fn lemma_marker_from(key: Seq<char>, from: nat, i: int)
    requires
        from <= i,
        marked_at(key, i),
        forall|j: int| j < i ==> !marked_at(key, j),
    ensures
        marker_from(key, from) == Some(i as nat),
    decreases i - from,
{
    if from < i {
        assert(!marked_at(key, from as int));
        lemma_marker_from(key, from + 1, i);
    }
}

/// A name without a marker belongs to no identity.
pub proof fn law_unmarked_key_has_no_identity(key: Seq<char>)
    requires
        forall|j: int| !marked_at(key, j),
    ensures
        identity_of(key) is None,
{
    lemma_no_marker_from(key, 0);
}

proof fn lemma_no_marker_from(key: Seq<char>, from: nat)
    requires
        forall|j: int| !marked_at(key, j),
    ensures
        marker_from(key, from) is None,
    decreases key.len() - from,
{
    if from < key.len() {
        assert(!marked_at(key, from as int));
        lemma_no_marker_from(key, from + 1);
    }
}

/// A key named `<identity>/KEY/<key id>` belongs to `<identity>`, whatever its id,
/// as long as the identity itself does not hold a marker.
pub proof fn law_key_belongs_to_its_identity(identity: Seq<char>, key_id: Seq<char>)
    requires
        forall|j: int|
            0 <= j < identity.len() ==> #[trigger] (identity + "/KEY/"@ + key_id).subrange(j, j + 5)
                != "/KEY/"@,
    ensures
        identity_of(identity + "/KEY/"@ + key_id) == Some(identity),
{
    let key = identity + "/KEY/"@ + key_id;
    let n = identity.len() as int;
    reveal_strlit("/KEY/");
    assert("/KEY/"@ =~= seq!['/', 'K', 'E', 'Y', '/']);
    assert(key.subrange(n, n + 5) =~= seq!['/', 'K', 'E', 'Y', '/']);
    assert forall|j: int| j < n implies !marked_at(key, j) by {
        if 0 <= j {
            assert(key.subrange(j, j + 5) != "/KEY/"@);
        }
    }
    law_identity_ends_at_the_first_marker(key, n);
    assert(key.take(n) =~= identity);
}

/// The identity text of a key name, if it has a key marker.
pub fn identity_of_key(key: &str) -> (identity: Option<String>)
    ensures
        text::text_view(identity) == identity_of(key@),
{
    let chars: Vec<char> = text::to_chars(key);
    let len: usize = chars.len();
    let mut i: usize = 0;
    while i < len
        invariant
            chars@ == key@,
            len == chars@.len(),
            i <= len,
            marker_from(key@, 0) == marker_from(key@, i as nat),
        decreases len - i,
    {
        if len - i >= 5 {
            let here: bool = chars[i] == '/' && chars[i + 1] == 'K' && chars[i + 2] == 'E'
                && chars[i + 3] == 'Y' && chars[i + 4] == '/';
            proof {
                let part = key@.subrange(i as int, i + 5);
                if here {
                    assert(part =~= seq!['/', 'K', 'E', 'Y', '/']);
                } else if part == seq!['/', 'K', 'E', 'Y', '/'] {
                    assert(part[0] == '/' && part[1] == 'K' && part[2] == 'E' && part[3] == 'Y'
                        && part[4] == '/');
                    assert(part[0] == key@[i as int]);
                }
            }
            if here {
                let identity: String = text::from_chars(&chars, 0, i);
                assert(identity@ =~= key@.take(i as int));
                return Some(identity);
            }
        }
        i = i + 1;
    }
    None
}

/// The trust state of a node.
pub ghost struct CoreView<S, C> {
    pub enabled: bool,
    pub identity: Option<SignerView<S>>,
    /// Whether the loaded key is held elsewhere, by a remote signer.
    pub keyless: bool,
    pub cert_wire: Option<Seq<u8>>,
    pub anchors: Seq<C>,
}

/// Signing identity, its certificate, and pinned anchors. `S` is the security
/// layer's signer, `C` its certificate.
pub struct IdentityCore<S, C> {
    enabled: bool,
    identity: Option<LoadedSigner<S>>,
    keyless: bool,
    cert_wire: Option<Vec<u8>>,
    pinned_anchors: Vec<C>,
}

impl<S, C> View for IdentityCore<S, C> {
    type V = CoreView<S, C>;

    closed spec fn view(&self) -> CoreView<S, C> {
        CoreView {
            enabled: self.enabled,
            identity: match self.identity {
                Some(signer) => Some(signer@),
                None => None,
            },
            keyless: self.keyless,
            cert_wire: text::bytes_view(self.cert_wire),
            anchors: self.pinned_anchors@,
        }
    }
}

/// Nothing loaded, nothing trusted.
pub open spec fn fresh_core<S, C>(enabled: bool) -> CoreView<S, C> {
    CoreView {
        enabled,
        identity: None,
        keyless: false,
        cert_wire: None,
        anchors: Seq::empty(),
    }
}

/// `core` with this signer loaded, whose key is held here, and the certificate
/// that came with it. A certificate of an earlier key is never kept.
pub open spec fn with_identity<S, C>(
    core: CoreView<S, C>,
    signer: SignerView<S>,
    cert_wire: Option<Seq<u8>>,
) -> CoreView<S, C> {
    CoreView { identity: Some(signer), keyless: false, cert_wire, ..core }
}

/// `core` with a signer loaded whose key is held elsewhere, and the certificate
/// of that key.
pub open spec fn with_remote_signer<S, C>(
    core: CoreView<S, C>,
    signer: SignerView<S>,
    cert_wire: Seq<u8>,
) -> CoreView<S, C> {
    CoreView { identity: Some(signer), keyless: true, cert_wire: Some(cert_wire), ..core }
}

/// `core` with one more pinned anchor.
pub open spec fn with_anchor<S, C>(core: CoreView<S, C>, cert: C) -> CoreView<S, C> {
    CoreView { anchors: core.anchors.push(cert), ..core }
}

/// What a sequence of references refers to.
pub open spec fn behind<C>(refs: Seq<&C>) -> Seq<C> {
    Seq::new(refs.len(), |i: int| *refs[i])
}

/// The roots of a validator: the node's own certificate, where it has one and it
/// decodes (`own`), and then every pinned anchor in order.
pub open spec fn trust_roots<S, C>(core: CoreView<S, C>, own: Option<C>) -> Seq<C> {
    match own {
        Some(cert) if core.cert_wire is Some => seq![cert] + core.anchors,
        _ => core.anchors,
    }
}

/// A pinned anchor is a root of every validator from then on, beside all that
/// were roots before.
pub proof fn law_pinned_anchor_is_trusted<S, C>(core: CoreView<S, C>, cert: C, own: Option<C>)
    ensures
        trust_roots(with_anchor(core, cert), own) == trust_roots(core, own).push(cert),
        trust_roots(with_anchor(core, cert), own).contains(cert),
{
    let roots = trust_roots(with_anchor(core, cert), own);
    assert(roots =~= trust_roots(core, own).push(cert));
    assert(roots[roots.len() - 1] == cert);
}

/// Loading a key replaces the one before it and its certificate, and nothing else;
/// a remote signer's key is not held here; and pinning an anchor adds just that
/// anchor. A node starts with none of it.
pub proof fn law_loading_replaces_the_key<S, C>(
    core: CoreView<S, C>,
    signer: SignerView<S>,
    held: Option<Seq<u8>>,
    wire: Seq<u8>,
    cert: C,
    enabled: bool,
)
    ensures
        ({
            let loaded = with_identity(core, signer, held);
            &&& loaded.identity == Some(signer)
            &&& !loaded.keyless
            &&& loaded.cert_wire == held
            &&& loaded.anchors == core.anchors
            &&& loaded.enabled == core.enabled
        }),
        ({
            let remote = with_remote_signer(core, signer, wire);
            &&& remote.identity == Some(signer)
            &&& remote.keyless
            &&& remote.cert_wire == Some(wire)
            &&& remote.anchors == core.anchors
            &&& remote.enabled == core.enabled
        }),
        ({
            let pinned = with_anchor(core, cert);
            &&& pinned.anchors == core.anchors.push(cert)
            &&& pinned.identity == core.identity
            &&& pinned.keyless == core.keyless
            &&& pinned.cert_wire == core.cert_wire
            &&& pinned.enabled == core.enabled
        }),
        ({
            let fresh = fresh_core::<S, C>(enabled);
            &&& fresh.enabled == enabled
            &&& fresh.identity is None
            &&& !fresh.keyless
            &&& fresh.cert_wire is None
            &&& fresh.anchors.len() == 0
        }),
{
}

/// A validator trusts the pinned anchors in order and, in front of them, the
/// node's own certificate where it holds one that decodes. It trusts nothing
/// else.
pub proof fn law_roots_are_own_and_pinned<S, C>(core: CoreView<S, C>, cert: C)
    ensures
        trust_roots(core, None) == core.anchors,
        core.cert_wire is None ==> trust_roots(core, Some(cert)) == core.anchors,
        core.cert_wire is Some ==> {
            let roots = trust_roots(core, Some(cert));
            &&& roots.len() == core.anchors.len() + 1
            &&& roots[0] == cert
            &&& roots.skip(1) == core.anchors
        },
{
    if core.cert_wire is Some {
        assert(trust_roots(core, Some(cert)).skip(1) =~= core.anchors);
    }
}

/// The first thing that is wrong with an enrolment request.
pub open spec fn config_error(
    enabled: bool,
    config: NdnEnrollConfig,
    ca_parses: bool,
    identity_parses: bool,
) -> Option<ErrorView> {
    if !enabled {
        Some(feature_off())
    } else if !ca_parses {
        Some(ErrorView::InvalidName { name: config.ca_prefix@ })
    } else if !identity_parses {
        Some(ErrorView::InvalidName { name: config.identity@ })
    } else {
        None
    }
}

/// The first thing that is wrong with an enclave key.
pub open spec fn enclave_error(available: bool, public_key: Seq<u8>) -> Option<ErrorView> {
    if !available {
        Some(identity_error("enclave key not available (biometry / keystore)"@))
    } else if public_key.len() == 0 {
        Some(identity_error("enclave returned no public key"@))
    } else {
        None
    }
}

/// The name of a fresh enclave key.
pub open spec fn enclave_key_name(identity: Seq<ComponentView>, ts_ms: u64) -> Seq<ComponentView> {
    identity.push(text_component("KEY"@)).push(ComponentView::Version(ts_ms))
}

/// The name of a certificate that a key signs for itself.
pub open spec fn self_cert_name(key: Seq<ComponentView>) -> Seq<ComponentView> {
    key.push(text_component("self"@)).push(ComponentView::Version(0))
}

/// A certificate to be signed by the key it is about.
pub struct SelfCert {
    pub cert_name: Name,
    pub public_key: Vec<u8>,
    pub not_before_ns: u64,
    pub not_after_ns: u64,
}

/// A [`SelfCert`] over mathematical values.
pub ghost struct SelfCertView {
    pub cert_name: Seq<ComponentView>,
    pub public_key: Seq<u8>,
    pub not_before_ns: u64,
    pub not_after_ns: u64,
}

impl View for SelfCert {
    type V = SelfCertView;

    open spec fn view(&self) -> SelfCertView {
        SelfCertView {
            cert_name: self.cert_name@,
            public_key: self.public_key@,
            not_before_ns: self.not_before_ns,
            not_after_ns: self.not_after_ns,
        }
    }
}

/// A certificate to be signed by a fresh enclave key.
pub struct EnclavePlan {
    pub key_name: Name,
    pub cert: SelfCert,
}

/// Where the operator's certificate comes from.
pub enum CertSource {
    /// The certificate of the remote signer.
    Stored(Vec<u8>),
    /// One to be signed now by the loaded key.
    Fresh(SelfCert),
}

/// A [`CertSource`] over mathematical values.
pub ghost enum CertSourceView {
    Stored(Seq<u8>),
    Fresh(SelfCertView),
}

/// Where the operator's certificate comes from at `now_ns`: a key that is held
/// here signs one for itself, whatever certificate came with it, and a remote
/// signer's is handed on.
pub open spec fn operator_cert<S, C>(core: CoreView<S, C>, now_ns: u64) -> Result<
    CertSourceView,
    ErrorView,
> {
    match core.cert_wire {
        Some(wire) if core.keyless => Ok(CertSourceView::Stored(wire)),
        _ => match public_key_of(core.identity) {
            Err(error) => Err(error),
            Ok(_) => Ok(CertSourceView::Fresh(own_cert(core.identity->0, now_ns))),
        },
    }
}

/// The name that a signer's own certificate goes by: its certificate name, or
/// else the one that its key gives.
pub open spec fn own_cert_name<S>(signer: SignerView<S>) -> Seq<ComponentView> {
    match signer.cert_name {
        Some(name) => name,
        None => self_cert_name(signer.key_name),
    }
}

/// Anything that changes the trust state of a node: a key is loaded, with the
/// certificate that comes with it if one does; a remote signer is taken, with
/// its certificate; or an anchor is pinned.
pub ghost enum CoreInput<S, C> {
    Load { signer: SignerView<S>, cert_wire: Option<Seq<u8>> },
    Remote { signer: SignerView<S>, wire: Seq<u8> },
    Pin(C),
}

/// The trust state after `inputs`, from the start.
pub open spec fn core_after<S, C>(enabled: bool, inputs: Seq<CoreInput<S, C>>) -> CoreView<S, C>
    decreases inputs.len(),
{
    if inputs.len() == 0 {
        fresh_core(enabled)
    } else {
        let before = core_after(enabled, inputs.drop_last());
        match inputs.last() {
            CoreInput::Load { signer, cert_wire } => with_identity(before, signer, cert_wire),
            CoreInput::Remote { signer, wire } => with_remote_signer(before, signer, wire),
            CoreInput::Pin(cert) => with_anchor(before, cert),
        }
    }
}

/// Whether the certificate that is held, if there is one, belongs to the loaded
/// key, where `belongs` tells which certificates belong to which keys.
pub open spec fn holds_own_cert<S, C>(
    core: CoreView<S, C>,
    belongs: spec_fn(SignerView<S>, Seq<u8>) -> bool,
) -> bool {
    core.cert_wire matches Some(wire) ==> core.identity is Some && belongs(core.identity->0, wire)
}

/// Whether a certificate that `input` brings belongs to the key it comes with.
pub open spec fn brings_own_cert<S, C>(
    input: CoreInput<S, C>,
    belongs: spec_fn(SignerView<S>, Seq<u8>) -> bool,
) -> bool {
    match input {
        CoreInput::Load { signer, cert_wire: Some(wire) } => belongs(signer, wire),
        CoreInput::Remote { signer, wire } => belongs(signer, wire),
        _ => true,
    }
}

/// The certificate that is held is never another key's: as long as every key is
/// loaded with a certificate of its own or with none, the one that is held
/// belongs to the key that is loaded now, whatever was loaded before.
pub proof fn law_held_cert_belongs_to_loaded_key<S, C>(
    enabled: bool,
    inputs: Seq<CoreInput<S, C>>,
    belongs: spec_fn(SignerView<S>, Seq<u8>) -> bool,
)
    requires
        forall|i: int|
            0 <= i < inputs.len() ==> brings_own_cert(#[trigger] inputs[i], belongs),
    ensures
        holds_own_cert(core_after(enabled, inputs), belongs),
    decreases inputs.len(),
{
    if inputs.len() > 0 {
        let before = inputs.drop_last();
        assert forall|i: int| 0 <= i < before.len() implies brings_own_cert(
            #[trigger] before[i],
            belongs,
        ) by {
            assert(before[i] == inputs[i]);
        }
        law_held_cert_belongs_to_loaded_key(enabled, before, belongs);
        assert(inputs.last() == inputs[inputs.len() - 1]);
    }
}

/// The certificate that the loaded key signs for itself at `now_ns`.
pub open spec fn own_cert<S>(signer: SignerView<S>, now_ns: u64) -> SelfCertView {
    SelfCertView {
        cert_name: own_cert_name(signer),
        public_key: signer.public_key->0,
        not_before_ns: now_ns,
        not_after_ns: ten_years_after(now_ns),
    }
}

/// The operator's certificate is one for the loaded key. Where that key is held
/// here and has an exportable public key, it is signed by the key itself, under
/// its own certificate name; a remote signer's is the one it came with.
pub proof fn law_operator_cert_is_the_loaded_keys<S, C>(
    core: CoreView<S, C>,
    belongs: spec_fn(SignerView<S>, Seq<u8>) -> bool,
    now_ns: u64,
)
    requires
        holds_own_cert(core, belongs),
    ensures
        !core.keyless && core.identity is Some && core.identity->0.public_key is Some
            ==> operator_cert(core, now_ns) == Ok::<CertSourceView, ErrorView>(
            CertSourceView::Fresh(own_cert(core.identity->0, now_ns)),
        ),
        match operator_cert(core, now_ns) {
            Ok(CertSourceView::Stored(wire)) => core.keyless && core.identity is Some && belongs(
                core.identity->0,
                wire,
            ),
            Ok(CertSourceView::Fresh(cert)) => core.identity is Some
                && core.identity->0.public_key is Some && cert == own_cert(
                core.identity->0,
                now_ns,
            ),
            Err(_) => core.identity is None || core.identity->0.public_key is None,
        },
{
}

/// A remote signer's certificate is handed on as it is. Otherwise there is a
/// certificate exactly where a key is loaded whose public half can be had.
pub proof fn law_remote_cert_is_handed_on<S, C>(
    core: CoreView<S, C>,
    signer: SignerView<S>,
    wire: Seq<u8>,
    now_ns: u64,
)
    ensures
        operator_cert(with_remote_signer(core, signer, wire), now_ns) == Ok::<
            CertSourceView,
            ErrorView,
        >(CertSourceView::Stored(wire)),
        core.keyless && core.cert_wire is Some ==> operator_cert(core, now_ns) == Ok::<
            CertSourceView,
            ErrorView,
        >(CertSourceView::Stored(core.cert_wire->0)),
        !(core.keyless && core.cert_wire is Some) ==> {
            &&& !(operator_cert(core, now_ns) matches Ok(CertSourceView::Stored(_)))
            &&& core.identity is None ==> operator_cert(core, now_ns) == Err::<
                CertSourceView,
                ErrorView,
            >(ErrorView::Identity { msg: "no identity loaded"@ })
            &&& core.identity is Some && core.identity->0.public_key is None ==> operator_cert(
                core,
                now_ns,
            ) == Err::<CertSourceView, ErrorView>(
                ErrorView::Identity { msg: "loaded identity has no exportable public key"@ },
            )
        },
{
}

/// However a key was loaded that is held here, and whatever was loaded before,
/// it signs its own certificate.
pub proof fn law_loaded_key_signs_its_own_cert<S, C>(
    core: CoreView<S, C>,
    signer: SignerView<S>,
    cert_wire: Option<Seq<u8>>,
    now_ns: u64,
)
    requires
        signer.public_key is Some,
    ensures
        operator_cert(with_identity(core, signer, cert_wire), now_ns) == Ok::<
            CertSourceView,
            ErrorView,
        >(CertSourceView::Fresh(own_cert(signer, now_ns))),
{
}

/// A certificate that a key signs for itself is named after the key, carries its
/// public key, and holds from now on for ten years of 365 days, or as long as time
/// is counted.
pub proof fn law_own_cert_holds_for_ten_years<S>(
    signer: SignerView<S>,
    identity: Seq<ComponentView>,
    ts_ms: u64,
    now_ns: u64,
)
    ensures
        enclave_key_name(identity, ts_ms) == identity + seq![
            ComponentView::Generic(vstd::utf8::encode_utf8("KEY"@)),
            ComponentView::Version(ts_ms),
        ],
        self_cert_name(signer.key_name) == signer.key_name + seq![
            ComponentView::Generic(vstd::utf8::encode_utf8("self"@)),
            ComponentView::Version(0),
        ],
        own_cert(signer, now_ns).cert_name == match signer.cert_name {
            Some(name) => name,
            None => signer.key_name + seq![
                ComponentView::Generic(vstd::utf8::encode_utf8("self"@)),
                ComponentView::Version(0),
            ],
        },
        signer.public_key matches Some(key) ==> own_cert(signer, now_ns).public_key == key,
        own_cert(signer, now_ns).not_before_ns == now_ns,
        own_cert(signer, now_ns).not_after_ns == ten_years_after(now_ns),
        now_ns + 10 * 365 * 24 * 3600 * 1_000_000_000 <= u64::MAX ==> ten_years_after(now_ns)
            == now_ns + 10 * 365 * 24 * 3600 * 1_000_000_000,
        now_ns + 10 * 365 * 24 * 3600 * 1_000_000_000 > u64::MAX ==> ten_years_after(now_ns)
            == u64::MAX,
{
    assert(enclave_key_name(identity, ts_ms) =~= identity + seq![
        ComponentView::Generic(vstd::utf8::encode_utf8("KEY"@)),
        ComponentView::Version(ts_ms),
    ]);
    assert(self_cert_name(signer.key_name) =~= signer.key_name + seq![
        ComponentView::Generic(vstd::utf8::encode_utf8("self"@)),
        ComponentView::Version(0),
    ]);
}

/// A certificate is what a key signs for itself exactly where it has the key's
/// name with `self` behind it, the key's public half, and ten years from now.
pub proof fn law_self_cert_is_the_keys(
    cert: SelfCert,
    key: Seq<ComponentView>,
    public_key: Seq<u8>,
    now_ns: u64,
)
    ensures
        is_self_cert(cert, key, public_key, now_ns) <==> {
            &&& cert.cert_name@ == key + seq![
                ComponentView::Generic(vstd::utf8::encode_utf8("self"@)),
                ComponentView::Version(0),
            ]
            &&& cert.public_key@ == public_key
            &&& cert.not_before_ns == now_ns
            &&& cert.not_after_ns == ten_years_after(now_ns)
        },
{
    assert(self_cert_name(key) =~= key + seq![
        ComponentView::Generic(vstd::utf8::encode_utf8("self"@)),
        ComponentView::Version(0),
    ]);
}

/// A new identity is reported with its own names, its certificate where it has
/// one, and its bag.
pub proof fn law_new_identity_is_reported<S>(
    result: NdnEnrolledIdentity,
    new: NewIdentity<S>,
    safebag: Seq<u8>,
)
    ensures
        reports(result, new, safebag) <==> {
            &&& result.key_name == new.key_name
            &&& result.cert_name == new.cert_name
            &&& result.safebag@ == safebag
            &&& match (result.certificate, new.certificate) {
                (Some(shown), Some(held)) => shown@ == held@,
                (None, None) => true,
                _ => false,
            }
        },
{
}

/// What goes wrong first is what is told, in the order in which it is looked at.
pub proof fn law_first_fault_is_told<S>(
    enabled: bool,
    config: NdnEnrollConfig,
    ca_parses: bool,
    identity_parses: bool,
    name: Seq<char>,
    public_key: Seq<u8>,
    identity: Option<SignerView<S>>,
)
    ensures
        config_error(enabled, config, ca_parses, identity_parses) is None <==> enabled && ca_parses
            && identity_parses,
        !enabled ==> config_error(enabled, config, ca_parses, identity_parses) == Some(
            ErrorView::Identity { msg: "identity feature not enabled in this build"@ },
        ),
        enabled && !ca_parses ==> config_error(enabled, config, ca_parses, identity_parses) == Some(
            ErrorView::InvalidName { name: config.ca_prefix@ },
        ),
        enabled && ca_parses && !identity_parses ==> config_error(
            enabled,
            config,
            ca_parses,
            identity_parses,
        ) == Some(ErrorView::InvalidName { name: config.identity@ }),
        naming_error(enabled, name, identity_parses) is None <==> enabled && identity_parses,
        naming_error(true, name, false) == Some(ErrorView::InvalidName { name }),
        naming_error(false, name, identity_parses) == Some(
            ErrorView::Identity { msg: "identity feature not enabled in this build"@ },
        ),
        enclave_error(false, public_key) == Some(
            ErrorView::Identity { msg: "enclave key not available (biometry / keystore)"@ },
        ),
        enclave_error(true, public_key) == if public_key.len() == 0 {
            Some(ErrorView::Identity { msg: "enclave returned no public key"@ })
        } else {
            None
        },
        identity is None ==> principal_error(identity, identity_parses) == Some(
            ErrorView::Identity { msg: "no identity loaded"@ },
        ) && public_key_of(identity) == Err::<Seq<u8>, ErrorView>(
            ErrorView::Identity { msg: "no identity loaded"@ },
        ),
        identity matches Some(signer) ==> {
            &&& principal_error(identity, identity_parses) is None <==> identity_of(
                signer.key_text,
            ) is Some && identity_parses
            &&& !identity_parses ==> principal_error(identity, identity_parses) == Some(
                ErrorView::Identity {
                    msg: "key name "@ + signer.key_text + " has no /KEY/ component"@,
                },
            )
            &&& match signer.public_key {
                Some(key) => public_key_of(identity) == Ok::<Seq<u8>, ErrorView>(key),
                None => public_key_of(identity) == Err::<Seq<u8>, ErrorView>(
                    ErrorView::Identity { msg: "loaded identity has no exportable public key"@ },
                ),
            }
        },
{
}

/// A bag is loaded exactly where it decodes, the key's name is one, and the key
/// can be unlocked; the first of these that fails is told.
pub proof fn law_bag_faults_are_told<S>(
    bag: Result<Vec<u8>, String>,
    key_name: Seq<char>,
    key_parses: bool,
    loaded: Result<LoadedSigner<S>, String>,
)
    ensures
        load_error(true, bag, key_name, key_parses, loaded) is None <==> bag is Ok && key_parses
            && loaded is Ok,
        bag matches Err(why) ==> load_error(true, bag, key_name, key_parses, loaded) == Some(
            ErrorView::Identity { msg: why@ },
        ),
        bag is Ok && !key_parses ==> load_error(true, bag, key_name, key_parses, loaded) == Some(
            ErrorView::Identity { msg: "invalid key name: "@ + key_name },
        ),
        bag is Ok && key_parses && loaded is Err ==> load_error(
            true,
            bag,
            key_name,
            key_parses,
            loaded,
        ) == Some(ErrorView::Identity { msg: loaded->Err_0@ }),
        load_error(false, bag, key_name, key_parses, loaded) == Some(
            ErrorView::Identity { msg: "identity feature not enabled in this build"@ },
        ),
{
}

/// Whether `result` reports the identity `new` with this bag.
pub open spec fn reports<S>(
    result: NdnEnrolledIdentity,
    new: NewIdentity<S>,
    safebag: Seq<u8>,
) -> bool {
    &&& result.key_name == new.key_name
    &&& result.cert_name == new.cert_name
    &&& text::bytes_view(result.certificate) == text::bytes_view(new.certificate)
    &&& result.safebag@ == safebag
}

/// A copy of a byte string.
pub fn copy_bytes(bytes: &Vec<u8>) -> (copy: Vec<u8>)
    ensures
        copy@ == bytes@,
{
    let copy: Vec<u8> = bytes.clone();
    assert(copy@ =~= bytes@);
    copy
}

fn copy_certificate(certificate: &Option<Vec<u8>>) -> (copy: Option<Vec<u8>>)
    ensures
        text::bytes_view(copy) == text::bytes_view(*certificate),
{
    match certificate {
        Some(bytes) => Some(copy_bytes(bytes)),
        None => None,
    }
}

/// Checks a key in the enclave before it is used.
pub fn check_enclave(available: bool, public_key: &Vec<u8>) -> (checked: Result<bool, NdnError>)
    ensures
        match enclave_error(available, public_key@) {
            Some(error) => checked is Err && checked->Err_0@ == error,
            None => checked == Ok::<bool, NdnError>(true),
        },
{
    if !available {
        return Err(NdnError::identity("enclave key not available (biometry / keystore)"));
    }
    if public_key.len() == 0 {
        return Err(NdnError::identity("enclave returned no public key"));
    }
    Ok(true)
}

/// Segment size of a published object.
pub fn object_chunk(chunk_size: u64) -> (chunk: u64)
    ensures
        chunk == (if chunk_size == 0 {
            DEFAULT_CHUNK
        } else {
            chunk_size
        }),
        chunk > 0,
        chunk_size == 0 ==> chunk == 8192,
{
    if chunk_size == 0 {
        DEFAULT_CHUNK
    } else {
        chunk_size
    }
}

/// The answer to joining a trust context, given what decoding it came to.
pub fn join_context(decoded: Result<NdnContext, String>) -> (joined: Result<NdnContext, NdnError>)
    ensures
        match decoded {
            Ok(context) => joined == Ok::<NdnContext, NdnError>(context),
            Err(why) => joined is Err && joined->Err_0@ == (ErrorView::Engine {
                msg: "malformed trust context: "@ + why@,
            }),
        },
{
    match decoded {
        Ok(context) => Ok(context),
        Err(why) => {
            let msg: String = text::concat("malformed trust context: ", why.as_str());
            Err(NdnError::engine(msg.as_str()))
        },
    }
}

/// The answer to leaving a trust context: whether it was held. `None` means
/// that `namespace` is not a name.
pub fn forget_context(namespace: &str, held: Option<bool>) -> (forgotten: Result<bool, NdnError>)
    ensures
        match held {
            Some(held) => forgotten == Ok::<bool, NdnError>(held),
            None => forgotten is Err && forgotten->Err_0@ == (ErrorView::InvalidName {
                name: namespace@,
            }),
        },
{
    match held {
        Some(held) => Ok(held),
        None => Err(NdnError::invalid_name(namespace)),
    }
}

impl<S, C> IdentityCore<S, C> {
    /// Nothing loaded, nothing trusted. `enabled` tells whether identities are
    /// built in.
    pub fn new(enabled: bool) -> (core: IdentityCore<S, C>)
        ensures
            core@ == fresh_core::<S, C>(enabled),
    {
        IdentityCore {
            enabled,
            identity: None,
            keyless: false,
            cert_wire: None,
            pinned_anchors: Vec::new(),
        }
    }

    /// Pins a certificate as a trust anchor for verified fetches.
    pub fn pin_trust_anchor(&mut self, decoded: Result<C, AnchorFailure>) -> (pinned: Result<
        bool,
        NdnError,
    >)
        ensures
            match decoded {
                Ok(cert) => pinned == Ok::<bool, NdnError>(true) && final(self)@ == with_anchor(
                    old(self)@,
                    cert,
                ),
                Err(AnchorFailure::NotData(why)) => pinned is Err && pinned->Err_0@ == (
                ErrorView::Engine { msg: "trust anchor not a Data: "@ + why@ }) && final(self)@
                    == old(self)@,
                Err(AnchorFailure::NotCertificate(why)) => pinned is Err && pinned->Err_0@ == (
                ErrorView::Engine { msg: "trust anchor not a certificate: "@ + why@ })
                    && final(self)@ == old(self)@,
            },
    {
        match decoded {
            Ok(cert) => {
                self.pinned_anchors.push(cert);
                Ok(true)
            },
            Err(AnchorFailure::NotData(why)) => {
                let msg: String = text::concat("trust anchor not a Data: ", why.as_str());
                Err(NdnError::engine(msg.as_str()))
            },
            Err(AnchorFailure::NotCertificate(why)) => {
                let msg: String = text::concat("trust anchor not a certificate: ", why.as_str());
                Err(NdnError::engine(msg.as_str()))
            },
        }
    }

    /// The roots of a validator. `own` is the node's own certificate, where it
    /// decodes.
    pub fn build_validator<'a>(&'a self, own: Option<&'a C>) -> (roots: Vec<&'a C>)
        ensures
            behind(roots@) == trust_roots(
                self@,
                match own {
                    Some(cert) => Some(*cert),
                    None => None,
                },
            ),
            forall|i: int|
                0 <= i < self@.anchors.len() ==> *roots@[roots@.len() - self@.anchors.len() + i]
                    == #[trigger] self@.anchors[i],
            roots@.len() == self@.anchors.len() + if own is Some && self@.cert_wire is Some {
                1int
            } else {
                0int
            },
            own is Some && self@.cert_wire is Some ==> *roots@[0] == *own->0,
    {
        let mut roots: Vec<&'a C> = Vec::new();
        if self.cert_wire.is_some() {
            match own {
                Some(cert) => roots.push(cert),
                None => {},
            }
        }
        let ghost first = behind(roots@);
        let n: usize = self.pinned_anchors.len();
        let mut i: usize = 0;
        while i < n
            invariant
                n == self.pinned_anchors@.len(),
                i <= n,
                behind(roots@) == first + self.pinned_anchors@.take(i as int),
            decreases n - i,
        {
            let ghost before = behind(roots@);
            roots.push(&self.pinned_anchors[i]);
            assert(behind(roots@) =~= before.push(self.pinned_anchors@[i as int]));
            i = i + 1;
            assert(behind(roots@) =~= first + self.pinned_anchors@.take(i as int));
        }
        assert(first + self.pinned_anchors@.take(n as int) =~= trust_roots(
            self@,
            match own {
                Some(cert) => Some(*cert),
                None => None,
            },
        ));
        proof {
            let all = behind(roots@);
            let skipped = first.len() as int;
            assert forall|i: int| 0 <= i < self@.anchors.len() implies *roots@[roots@.len()
                - self@.anchors.len() + i] == #[trigger] self@.anchors[i] by {
                assert(all[skipped + i] == self@.anchors[i]);
                assert(all[skipped + i] == *roots@[skipped + i]);
            }
            if skipped > 0 {
                assert(all[0] == *roots@[0]);
                assert(all[0] == first[0]);
            }
        }
        roots
    }

    /// The loaded signer.
    pub fn current_signer(&self) -> (signer: Option<&LoadedSigner<S>>)
        ensures
            match signer {
                Some(signer) => self@.identity == Some(signer@),
                None => self@.identity is None,
            },
    {
        self.identity.as_ref()
    }

    /// Whether identities are built in.
    pub fn is_enabled(&self) -> (enabled: bool)
        ensures
            enabled == self@.enabled,
    {
        self.enabled
    }

    /// The certificate that came with the loaded key.
    pub fn certificate(&self) -> (wire: Option<&Vec<u8>>)
        ensures
            match wire {
                Some(bytes) => self@.cert_wire == Some(bytes@),
                None => self@.cert_wire is None,
            },
    {
        self.cert_wire.as_ref()
    }

    /// Whether a signer is loaded.
    pub fn has_identity(&self) -> (has: bool)
        ensures
            has == self@.identity is Some,
    {
        self.identity.is_some()
    }

    /// Loads a signer that comes without a certificate.
    pub fn set_identity(&mut self, signer: LoadedSigner<S>)
        ensures
            final(self)@ == with_identity(old(self)@, signer@, None),
    {
        self.load(signer, None);
    }

    /// Loads a signer whose key is held here, and the certificate that came
    /// with it.
    fn load(&mut self, signer: LoadedSigner<S>, certificate: Option<Vec<u8>>)
        ensures
            final(self)@ == with_identity(old(self)@, signer@, text::bytes_view(certificate)),
    {
        self.identity = Some(signer);
        self.keyless = false;
        self.cert_wire = certificate;
    }

    /// Makes the node keyless: every signature goes to the signer served at
    /// `prefix`. `made` is what came of setting it up from `cert_wire`.
    pub fn use_remote_signer(
        &mut self,
        prefix: &str,
        prefix_parses: bool,
        cert_wire: Vec<u8>,
        made: Result<LoadedSigner<S>, String>,
    ) -> (used: Result<bool, NdnError>)
        ensures
            if !prefix_parses {
                used is Err && used->Err_0@ == (ErrorView::InvalidName { name: prefix@ })
                    && final(self)@ == old(self)@
            } else {
                match made {
                    Err(why) => used is Err && used->Err_0@ == (ErrorView::Engine {
                        msg: "remote signer setup: "@ + why@,
                    }) && final(self)@ == old(self)@,
                    Ok(signer) => used == Ok::<bool, NdnError>(true) && final(self)@
                        == with_remote_signer(old(self)@, signer@, cert_wire@),
                }
            },
    {
        if !prefix_parses {
            return Err(NdnError::invalid_name(prefix));
        }
        match made {
            Err(why) => {
                let msg: String = text::concat("remote signer setup: ", why.as_str());
                Err(NdnError::engine(msg.as_str()))
            },
            Ok(signer) => {
                self.identity = Some(signer);
                self.keyless = true;
                self.cert_wire = Some(cert_wire);
                Ok(true)
            },
        }
    }

    /// The identity text that the loaded key belongs to.
    pub fn identity_text(&self) -> (identity: Option<String>)
        ensures
            text::text_view(identity) == match self@.identity {
                Some(signer) => identity_of(signer.key_text),
                None => None,
            },
    {
        match &self.identity {
            Some(signer) => identity_of_key(signer.key_text.as_str()),
            None => None,
        }
    }

    /// The loaded signer as a principal. `parses` tells whether the text of
    /// [`IdentityCore::identity_text`] is a name, and `wrapped` what came of
    /// making the principal under it.
    pub fn loaded_identity<P>(&self, parses: bool, wrapped: Result<P, String>) -> (principal:
        Result<P, NdnError>)
        ensures
            match principal_error(self@.identity, parses) {
                Some(error) => principal is Err && principal->Err_0@ == error,
                None => match wrapped {
                    Ok(p) => principal == Ok::<P, NdnError>(p),
                    Err(why) => principal is Err && principal->Err_0@ == identity_error(why@),
                },
            },
    {
        match &self.identity {
            None => Err(NdnError::identity("no identity loaded")),
            Some(signer) => {
                let identity: Option<String> = identity_of_key(signer.key_text.as_str());
                if identity.is_none() || !parses {
                    let msg: String = text::concat3(
                        "key name ",
                        signer.key_text.as_str(),
                        " has no /KEY/ component",
                    );
                    return Err(NdnError::identity(msg.as_str()));
                }
                match wrapped {
                    Ok(p) => Ok(p),
                    Err(why) => Err(NdnError::identity(why.as_str())),
                }
            },
        }
    }

    /// A text of the loaded principal (its DID or its name), where identities
    /// are built in.
    pub fn principal_text(&self, parses: bool, wrapped: Result<String, String>) -> (answer: Result<
        String,
        NdnError,
    >)
        ensures
            if !self@.enabled {
                answer is Err && answer->Err_0@ == feature_off()
            } else {
                match principal_error(self@.identity, parses) {
                    Some(error) => answer is Err && answer->Err_0@ == error,
                    None => match wrapped {
                        Ok(answered) => answer == Ok::<String, NdnError>(answered),
                        Err(why) => answer is Err && answer->Err_0@ == identity_error(why@),
                    },
                }
            },
    {
        if !self.enabled {
            return Err(NdnError::identity("identity feature not enabled in this build"));
        }
        self.loaded_identity(parses, wrapped)
    }

    /// What a board is put up with: the identity's prefix and the operator's
    /// certificate. `principal` and `certificate` are what those two came to.
    pub fn start_offer_board(
        &self,
        principal: Result<String, NdnError>,
        certificate: Result<Vec<u8>, NdnError>,
    ) -> (ready: Result<(String, Vec<u8>), NdnError>)
        ensures
            match (self@.identity, principal, certificate) {
                (None, _, _) => ready is Err && ready->Err_0@ == identity_error(
                    "no identity loaded — load one before sharing"@,
                ),
                (Some(_), Err(error), _) => ready is Err && ready->Err_0 == error,
                (Some(_), Ok(_), Err(error)) => ready is Err && ready->Err_0 == error,
                (Some(_), Ok(prefix), Ok(cert)) => ready is Ok && (ready->Ok_0).0 == prefix && (
                ready->Ok_0).1 == cert,
            },
    {
        if self.identity.is_none() {
            return Err(NdnError::identity("no identity loaded — load one before sharing"));
        }
        match principal {
            Err(error) => Err(error),
            Ok(prefix) => match certificate {
                Err(error) => Err(error),
                Ok(cert) => Ok((prefix, cert)),
            },
        }
    }

    /// Loads a persisted identity. `bag` is the certificate of the decoded bag,
    /// `loaded` the signer unlocked from it, `identity_parses` and `did` what
    /// came of making the principal. The signer and the certificate are kept
    /// even where the principal cannot be made.
    pub fn load_identity(
        &mut self,
        bag: Result<Vec<u8>, String>,
        key_name: &str,
        key_parses: bool,
        loaded: Result<LoadedSigner<S>, String>,
        identity_parses: bool,
        did: Result<String, String>,
    ) -> (result: Result<String, NdnError>)
        ensures
            match load_error(old(self)@.enabled, bag, key_name@, key_parses, loaded) {
                Some(error) => result is Err && result->Err_0@ == error && final(self)@
                    == old(self)@,
                None => {
                    let signer = loaded->Ok_0@;
                    &&& final(self)@ == with_identity(old(self)@, signer, Some(bag->Ok_0@))
                    &&& match principal_error(Some(signer), identity_parses) {
                        Some(error) => result is Err && result->Err_0@ == error,
                        None => match did {
                            Ok(did) => result == Ok::<String, NdnError>(did),
                            Err(why) => result is Err && result->Err_0@ == identity_error(why@),
                        },
                    }
                },
            },
    {
        if !self.enabled {
            return Err(NdnError::identity("identity feature not enabled in this build"));
        }
        match bag {
            Err(why) => Err(NdnError::identity(why.as_str())),
            Ok(certificate) => {
                if !key_parses {
                    let msg: String = text::concat("invalid key name: ", key_name);
                    return Err(NdnError::identity(msg.as_str()));
                }
                match loaded {
                    Err(why) => Err(NdnError::identity(why.as_str())),
                    Ok(signer) => {
                        self.load(signer, Some(certificate));
                        self.loaded_identity(identity_parses, did)
                    },
                }
            },
        }
    }

    /// Signs with the loaded key; `signed` is what the signer made of it.
    pub fn sign(&self, signed: Result<Vec<u8>, String>) -> (signature: Result<Vec<u8>, NdnError>)
        ensures
            match (self@.identity, signed) {
                (None, _) => signature is Err && signature->Err_0@ == no_identity(),
                (Some(_), Ok(bytes)) => signature == Ok::<Vec<u8>, NdnError>(bytes),
                (Some(_), Err(why)) => signature is Err && signature->Err_0@ == identity_error(
                    why@,
                ),
            },
    {
        if self.identity.is_none() {
            return Err(NdnError::identity("no identity loaded"));
        }
        match signed {
            Ok(bytes) => Ok(bytes),
            Err(why) => Err(NdnError::identity(why.as_str())),
        }
    }

    fn adopt(&mut self, new: NewIdentity<S>, safebag: Vec<u8>) -> (result: NdnEnrolledIdentity)
        ensures
            reports(result, new, safebag@),
            final(self)@ == with_identity(
                old(self)@,
                new.signer@,
                text::bytes_view(new.certificate),
            ),
    {
        let certificate: Option<Vec<u8>> = copy_certificate(&new.certificate);
        self.load(new.signer, new.certificate);
        NdnEnrolledIdentity {
            key_name: new.key_name,
            cert_name: new.cert_name,
            certificate,
            safebag,
        }
    }

    fn check_config(&self, config: &NdnEnrollConfig, ca_parses: bool, identity_parses: bool) -> (
    checked: Result<bool, NdnError>)
        ensures
            match config_error(self@.enabled, *config, ca_parses, identity_parses) {
                Some(error) => checked is Err && checked->Err_0@ == error,
                None => checked is Ok,
            },
    {
        if !self.enabled {
            return Err(NdnError::identity("identity feature not enabled in this build"));
        }
        if !ca_parses {
            return Err(NdnError::invalid_name(config.ca_prefix.as_str()));
        }
        if !identity_parses {
            return Err(NdnError::invalid_name(config.identity.as_str()));
        }
        Ok(true)
    }

    /// Enrols through the embedded engine, with a PIN. `running` tells whether
    /// the engine runs, `enrolled` what the exchange came to, with the sealed
    /// bag of its key.
    pub fn enroll(
        &mut self,
        config: &NdnEnrollConfig,
        ca_parses: bool,
        identity_parses: bool,
        running: bool,
        enrolled: Result<(NewIdentity<S>, Result<Vec<u8>, String>), String>,
    ) -> (result: Result<NdnEnrolledIdentity, NdnError>)
        ensures
            match config_error(old(self)@.enabled, *config, ca_parses, identity_parses) {
                Some(error) => result is Err && result->Err_0@ == error && final(self)@
                    == old(self)@,
                None => if !running {
                    result is Err && result->Err_0@ == (ErrorView::Engine {
                        msg: "engine is shut down"@,
                    }) && final(self)@ == old(self)@
                } else {
                    match enrolled {
                        Err(why) => result is Err && result->Err_0@ == identity_error(why@)
                            && final(self)@ == old(self)@,
                        Ok((_, Err(why))) => result is Err && result->Err_0@ == identity_error(
                            why@,
                        ) && final(self)@ == old(self)@,
                        Ok((new, Ok(bag))) => result is Ok && reports(result->Ok_0, new, bag@)
                            && final(self)@ == with_identity(
                            old(self)@,
                            new.signer@,
                            text::bytes_view(new.certificate),
                        ),
                    }
                },
            },
    {
        match self.check_config(config, ca_parses, identity_parses) {
            Err(error) => Err(error),
            Ok(_) => {
                if !running {
                    return Err(NdnError::engine("engine is shut down"));
                }
                match enrolled {
                    Err(why) => Err(NdnError::identity(why.as_str())),
                    Ok((new, bag)) => match bag {
                        Err(why) => Err(NdnError::identity(why.as_str())),
                        Ok(bag) => Ok(self.adopt(new, bag)),
                    },
                }
            },
        }
    }

    /// Enrols over the node's connection with a one-time token. `enrolled` is
    /// what the exchange came to, with the sealed bag of its key.
    pub fn enroll_with_token(
        &mut self,
        config: &NdnEnrollConfig,
        ca_parses: bool,
        identity_parses: bool,
        enrolled: Result<(NewIdentity<S>, Result<Vec<u8>, String>), String>,
    ) -> (result: Result<NdnEnrolledIdentity, NdnError>)
        ensures
            match config_error(old(self)@.enabled, *config, ca_parses, identity_parses) {
                Some(error) => result is Err && result->Err_0@ == error && final(self)@
                    == old(self)@,
                None => match enrolled {
                    Err(why) => result is Err && result->Err_0@ == identity_error(why@)
                        && final(self)@ == old(self)@,
                    Ok((_, Err(why))) => result is Err && result->Err_0@ == identity_error(why@)
                        && final(self)@ == old(self)@,
                    Ok((new, Ok(bag))) => result is Ok && reports(result->Ok_0, new, bag@)
                        && final(self)@ == with_identity(
                        old(self)@,
                        new.signer@,
                        text::bytes_view(new.certificate),
                    ),
                },
            },
    {
        match self.check_config(config, ca_parses, identity_parses) {
            Err(error) => Err(error),
            Ok(_) => match enrolled {
                Err(why) => Err(NdnError::identity(why.as_str())),
                Ok((new, bag)) => match bag {
                    Err(why) => Err(NdnError::identity(why.as_str())),
                    Ok(bag) => Ok(self.adopt(new, bag)),
                },
            },
        }
    }

    /// Enrols a key that stays in the enclave: there is no bag to keep.
    pub fn enroll_with_token_enclave(
        &mut self,
        config: &NdnEnrollConfig,
        ca_parses: bool,
        identity_parses: bool,
        available: bool,
        enrolled: Result<NewIdentity<S>, String>,
    ) -> (result: Result<NdnEnrolledIdentity, NdnError>)
        ensures
            match config_error(old(self)@.enabled, *config, ca_parses, identity_parses) {
                Some(error) => result is Err && result->Err_0@ == error && final(self)@
                    == old(self)@,
                None => if !available {
                    result is Err && result->Err_0@ == identity_error(
                        "enclave key not available (biometry / keystore)"@,
                    ) && final(self)@ == old(self)@
                } else {
                    match enrolled {
                        Err(why) => result is Err && result->Err_0@ == identity_error(why@)
                            && final(self)@ == old(self)@,
                        Ok(new) => result is Ok && reports(result->Ok_0, new, Seq::empty())
                            && final(self)@ == with_identity(
                            old(self)@,
                            new.signer@,
                            text::bytes_view(new.certificate),
                        ),
                    }
                },
            },
    {
        match self.check_config(config, ca_parses, identity_parses) {
            Err(error) => Err(error),
            Ok(_) => {
                if !available {
                    return Err(
                        NdnError::identity("enclave key not available (biometry / keystore)"),
                    );
                }
                match enrolled {
                    Err(why) => Err(NdnError::identity(why.as_str())),
                    Ok(new) => {
                        let none: Vec<u8> = Vec::new();
                        assert(none@ =~= Seq::<u8>::empty());
                        Ok(self.adopt(new, none))
                    },
                }
            },
        }
    }

    /// Generates a self-signed identity under `name`. `generated` is what came
    /// of it, with the sealed bag of its key.
    pub fn generate_identity(
        &mut self,
        name: &str,
        name_parses: bool,
        generated: Result<(NewIdentity<S>, Result<Vec<u8>, String>), String>,
    ) -> (result: Result<NdnEnrolledIdentity, NdnError>)
        ensures
            match naming_error(old(self)@.enabled, name@, name_parses) {
                Some(error) => result is Err && result->Err_0@ == error && final(self)@
                    == old(self)@,
                None => match generated {
                    Err(why) => result is Err && result->Err_0@ == identity_error(why@)
                        && final(self)@ == old(self)@,
                    Ok((_, Err(why))) => result is Err && result->Err_0@ == identity_error(why@)
                        && final(self)@ == old(self)@,
                    Ok((new, Ok(bag))) => result is Ok && reports(result->Ok_0, new, bag@)
                        && final(self)@ == with_identity(
                        old(self)@,
                        new.signer@,
                        text::bytes_view(new.certificate),
                    ),
                },
            },
    {
        if !self.enabled {
            return Err(NdnError::identity("identity feature not enabled in this build"));
        }
        if !name_parses {
            return Err(NdnError::invalid_name(name));
        }
        match generated {
            Err(why) => Err(NdnError::identity(why.as_str())),
            Ok((new, bag)) => match bag {
                Err(why) => Err(NdnError::identity(why.as_str())),
                Ok(bag) => Ok(self.adopt(new, bag)),
            },
        }
    }

    /// What an enclave key is to certify itself as, at `ts_ms` and `now_ns`.
    /// `parsed` is `name` as a name, if it is one.
    pub fn plan_enclave_identity(
        &self,
        name: &str,
        parsed: Option<Name>,
        available: bool,
        public_key: Vec<u8>,
        ts_ms: u64,
        now_ns: u64,
    ) -> (plan: Result<EnclavePlan, NdnError>)
        ensures
            match naming_error(self@.enabled, name@, parsed is Some) {
                Some(error) => plan is Err && plan->Err_0@ == error,
                None => match enclave_error(available, public_key@) {
                    Some(error) => plan is Err && plan->Err_0@ == error,
                    None => {
                        let key = enclave_key_name(parsed->0@, ts_ms);
                        &&& plan is Ok
                        &&& plan->Ok_0.key_name@ == key
                        &&& is_self_cert(plan->Ok_0.cert, key, public_key@, now_ns)
                    },
                },
            },
    {
        if !self.enabled {
            return Err(NdnError::identity("identity feature not enabled in this build"));
        }
        match parsed {
            None => Err(NdnError::invalid_name(name)),
            Some(identity) => {
                match check_enclave(available, &public_key) {
                    Err(error) => Err(error),
                    Ok(_) => {
                        let key_name: Name = identity.append_str("KEY").append_version(ts_ms);
                        let cert_name: Name = key_name.duplicate().append_str(
                            "self",
                        ).append_version(0);
                        let not_after_ns: u64 = valid_until(now_ns, VALIDITY_SECS);
                        let cert = SelfCert {
                            cert_name,
                            public_key,
                            not_before_ns: now_ns,
                            not_after_ns,
                        };
                        Ok(EnclavePlan { key_name, cert })
                    },
                }
            },
        }
    }

    /// Takes over an enclave key whose certificate was signed (`certified`). The
    /// certificate is reported and not kept: the key can sign it again under the
    /// same name.
    pub fn generate_identity_enclave(
        &mut self,
        signer: LoadedSigner<S>,
        key_text: String,
        cert_text: String,
        certified: Result<Vec<u8>, String>,
    ) -> (result: Result<NdnEnrolledIdentity, NdnError>)
        ensures
            match certified {
                Err(why) => result is Err && result->Err_0@ == identity_error(
                    "enclave self-cert failed: "@ + why@,
                ) && final(self)@ == old(self)@,
                Ok(wire) => {
                    &&& result is Ok
                    &&& result->Ok_0.key_name == key_text
                    &&& result->Ok_0.cert_name == cert_text
                    &&& result->Ok_0.certificate == Some(wire)
                    &&& result->Ok_0.safebag@ == Seq::<u8>::empty()
                    &&& final(self)@ == with_identity(old(self)@, signer@, None)
                },
            },
    {
        match certified {
            Err(why) => {
                let msg: String = text::concat("enclave self-cert failed: ", why.as_str());
                Err(NdnError::identity(msg.as_str()))
            },
            Ok(wire) => {
                self.set_identity(signer);
                Ok(
                    NdnEnrolledIdentity {
                        key_name: key_text,
                        cert_name: cert_text,
                        certificate: Some(wire),
                        safebag: Vec::new(),
                    },
                )
            },
        }
    }

    /// Loads a key that is in the enclave already. No certificate comes with it.
    pub fn load_identity_enclave(
        &mut self,
        key_name: &str,
        key_parses: bool,
        cert_name: &str,
        cert_parses: bool,
        available: bool,
        public_key: &Vec<u8>,
        signer: LoadedSigner<S>,
    ) -> (loaded: Result<bool, NdnError>)
        ensures
            match naming_error(old(self)@.enabled, key_name@, key_parses) {
                Some(error) => loaded is Err && loaded->Err_0@ == error && final(self)@
                    == old(self)@,
                None => if !cert_parses {
                    loaded is Err && loaded->Err_0@ == (ErrorView::InvalidName {
                        name: cert_name@,
                    }) && final(self)@ == old(self)@
                } else {
                    match enclave_error(available, public_key@) {
                        Some(error) => loaded is Err && loaded->Err_0@ == error && final(self)@
                            == old(self)@,
                        None => loaded == Ok::<bool, NdnError>(true) && final(self)@
                            == with_identity(old(self)@, signer@, None),
                    }
                },
            },
    {
        if !self.enabled {
            return Err(NdnError::identity("identity feature not enabled in this build"));
        }
        if !key_parses {
            return Err(NdnError::invalid_name(key_name));
        }
        if !cert_parses {
            return Err(NdnError::invalid_name(cert_name));
        }
        match check_enclave(available, public_key) {
            Err(error) => Err(error),
            Ok(_) => {
                self.set_identity(signer);
                Ok(true)
            },
        }
    }

    /// The public key of the loaded signer.
    pub fn principal_public_key(&self) -> (key: Result<Vec<u8>, NdnError>)
        ensures
            match public_key_of(self@.identity) {
                Ok(bytes) => key is Ok && key->Ok_0@ == bytes,
                Err(error) => key is Err && key->Err_0@ == error,
            },
    {
        match &self.identity {
            None => Err(NdnError::identity("no identity loaded")),
            Some(signer) => match &signer.public_key {
                Some(bytes) => Ok(copy_bytes(bytes)),
                None => Err(NdnError::identity("loaded identity has no exportable public key")),
            },
        }
    }

    /// Where the operator's certificate comes from at `now_ns`: one to be signed
    /// now by the loaded key under its own certificate name, or the remote
    /// signer's where the key is held elsewhere.
    pub fn principal_cert(&self, now_ns: u64) -> (source: Result<CertSource, NdnError>)
        ensures
            match operator_cert(self@, now_ns) {
                Ok(CertSourceView::Stored(wire)) => {
                    &&& source matches Ok(CertSource::Stored(stored))
                    &&& stored@ == wire
                },
                Ok(CertSourceView::Fresh(cert)) => {
                    &&& source matches Ok(CertSource::Fresh(planned))
                    &&& planned@ == cert
                },
                Err(error) => source is Err && source->Err_0@ == error,
            },
    {
        match &self.cert_wire {
            Some(wire) if self.keyless => Ok(CertSource::Stored(copy_bytes(wire))),
            _ => match self.principal_public_key() {
                Err(error) => Err(error),
                Ok(public_key) => match &self.identity {
                    None => Err(NdnError::identity("no identity loaded")),
                    Some(signer) => {
                        let cert_name: Name = match &signer.cert_name {
                            Some(name) => name.duplicate(),
                            None => signer.key_name.duplicate().append_str("self").append_version(
                                0,
                            ),
                        };
                        let not_after_ns: u64 = valid_until(now_ns, VALIDITY_SECS);
                        Ok(
                            CertSource::Fresh(
                                SelfCert {
                                    cert_name,
                                    public_key,
                                    not_before_ns: now_ns,
                                    not_after_ns,
                                },
                            ),
                        )
                    },
                },
            },
        }
    }
}

/// The answer to asking for the operator's certificate, once a fresh one was
/// signed.
pub fn principal_cert_wire(encoded: Result<Vec<u8>, String>) -> (wire: Result<Vec<u8>, NdnError>)
    ensures
        match encoded {
            Ok(bytes) => wire == Ok::<Vec<u8>, NdnError>(bytes),
            Err(why) => wire is Err && wire->Err_0@ == identity_error(
                "encode operator cert: "@ + why@,
            ),
        },
{
    match encoded {
        Ok(bytes) => Ok(bytes),
        Err(why) => {
            let msg: String = text::concat("encode operator cert: ", why.as_str());
            Err(NdnError::identity(msg.as_str()))
        },
    }
}

/// The end of a validity period of ten years, as far as time is counted.
pub open spec fn ten_years_after(now_ns: u64) -> u64 {
    if now_ns + 315_360_000_000_000_000 > u64::MAX {
        u64::MAX
    } else {
        (now_ns + 315_360_000_000_000_000) as u64
    }
}

/// Whether `cert` is what `key` signs for itself at `now_ns`.
pub open spec fn is_self_cert(
    cert: SelfCert,
    key: Seq<ComponentView>,
    public_key: Seq<u8>,
    now_ns: u64,
) -> bool {
    &&& cert.cert_name@ == self_cert_name(key)
    &&& cert.public_key@ == public_key
    &&& cert.not_before_ns == now_ns
    &&& cert.not_after_ns == ten_years_after(now_ns)
}

/// The first thing that is wrong with a name to generate or load under.
pub open spec fn naming_error(enabled: bool, name: Seq<char>, parses: bool) -> Option<ErrorView> {
    if !enabled {
        Some(feature_off())
    } else if !parses {
        Some(ErrorView::InvalidName { name })
    } else {
        None
    }
}

/// Why no principal can be made of a signer.
pub open spec fn principal_error<S>(identity: Option<SignerView<S>>, parses: bool) -> Option<
    ErrorView,
> {
    match identity {
        None => Some(no_identity()),
        Some(signer) => if identity_of(signer.key_text) is None || !parses {
            Some(
                identity_error("key name "@ + signer.key_text + " has no /KEY/ component"@),
            )
        } else {
            None
        },
    }
}

/// The first thing that is wrong with a bag to load.
pub open spec fn load_error<S>(
    enabled: bool,
    bag: Result<Vec<u8>, String>,
    key_name: Seq<char>,
    key_parses: bool,
    loaded: Result<LoadedSigner<S>, String>,
) -> Option<ErrorView> {
    if !enabled {
        Some(feature_off())
    } else if bag is Err {
        Some(identity_error(bag->Err_0@))
    } else if !key_parses {
        Some(identity_error("invalid key name: "@ + key_name))
    } else if loaded is Err {
        Some(identity_error(loaded->Err_0@))
    } else {
        None
    }
}

/// The public key of a loaded signer.
pub open spec fn public_key_of<S>(identity: Option<SignerView<S>>) -> Result<Seq<u8>, ErrorView> {
    match identity {
        None => Err(no_identity()),
        Some(signer) => match signer.public_key {
            Some(bytes) => Ok(bytes),
            None => Err(identity_error("loaded identity has no exportable public key"@)),
        },
    }
}

} // verus!
