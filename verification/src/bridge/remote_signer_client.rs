//! Signing without a key: each request goes to a signer served elsewhere, and
//! what is signed carries that signer's certificate name.

use crate::bridge::signing::{WireSignRequest, WireSignResponse};
use crate::name::{same_bytes, Component, ComponentView, Name};
use crate::text;
use vstd::prelude::*;

verus! {

/// How long a signature is waited for.
pub const SIGN_TIMEOUT_MS: u64 = 8_000;

/// How long the reply is waited for: a little longer than the request lives.
pub const SIGN_WAIT_MS: u64 = 9_000;

/// Whether a component is the key marker, of whatever type it is. (A segment or
/// version number takes up one, two, four or eight bytes, never three.)
pub open spec fn is_key_marker(component: ComponentView) -> bool {
    match component {
        ComponentView::Generic(value) => value == seq![0x4bu8, 0x45u8, 0x59u8],
        ComponentView::Typed { value, .. } => value == seq![0x4bu8, 0x45u8, 0x59u8],
        _ => false,
    }
}

/// Where the first key marker of a name is, at or behind `from`.
pub open spec fn key_marker_from(name: Seq<ComponentView>, from: nat) -> Option<nat>
    decreases name.len() - from,
{
    if from >= name.len() {
        None
    } else if is_key_marker(name[from as int]) {
        Some(from)
    } else {
        key_marker_from(name, from + 1)
    }
}

/// The key that a certificate is for: everything up to the component behind the
/// first key marker, or the whole name where there is none.
pub open spec fn key_of_cert(cert: Seq<ComponentView>) -> Seq<ComponentView> {
    match key_marker_from(cert, 0) {
        Some(at) => if at + 2 <= cert.len() {
            cert.take(at as int + 2)
        } else {
            cert
        },
        None => cert,
    }
}

fn marks_key(component: &Component) -> (marks: bool)
    ensures
        marks == is_key_marker(component@),
        marks <==> match component@ {
            ComponentView::Generic(value) => value == seq![0x4bu8, 0x45u8, 0x59u8],
            ComponentView::Typed { typ: _, value } => value == seq![0x4bu8, 0x45u8, 0x59u8],
            _ => false,
        },
{
    let marker: [u8; 3] = [0x4b, 0x45, 0x59];
    assert(marker@ =~= seq![0x4bu8, 0x45u8, 0x59u8]);
    match component {
        Component::Generic(value) => same_bytes(value.as_slice(), &marker),
        Component::Typed { value, .. } => same_bytes(value.as_slice(), &marker),
        _ => false,
    }
}

/// The name of the key that a certificate is for.
pub fn key_name_from_cert(cert_name: &Name) -> (key: Name)
    ensures
        key@ == key_of_cert(cert_name@),
{
    let len: usize = cert_name.len();
    let mut i: usize = 0;
    while i < len
        invariant
            len == cert_name@.len(),
            i <= len,
            key_marker_from(cert_name@, 0) == key_marker_from(cert_name@, i as nat),
        decreases len - i,
    {
        if marks_key(&cert_name.components[i]) {
            if len - i >= 2 {
                return cert_name.prefix(i + 2);
            }
            return cert_name.duplicate();
        }
        i = i + 1;
    }
    cert_name.duplicate()
}

proof fn lemma_marker_found(name: Seq<ComponentView>, from: nat, at: nat)
    requires
        from <= at < name.len(),
        is_key_marker(name[at as int]),
        forall|i: int| 0 <= i < at ==> !is_key_marker(#[trigger] name[i]),
    ensures
        key_marker_from(name, from) == Some(at),
    decreases at - from,
{
    if from < at {
        assert(!is_key_marker(name[from as int]));
        lemma_marker_found(name, from + 1, at);
    }
}

/// A certificate named `<identity>/KEY/<key id>/<issuer>/<version>` is for the
/// key `<identity>/KEY/<key id>`, as long as the identity holds no marker.
pub proof fn law_key_is_named_by_its_certificate(
    identity: Seq<ComponentView>,
    marker: ComponentView,
    key_id: ComponentView,
    tail: Seq<ComponentView>,
)
    requires
        forall|i: int| 0 <= i < identity.len() ==> !is_key_marker(#[trigger] identity[i]),
        is_key_marker(marker),
    ensures
        key_of_cert(identity.push(marker).push(key_id) + tail) == identity.push(marker).push(
            key_id,
        ),
{
    let cert = identity.push(marker).push(key_id) + tail;
    assert forall|i: int| 0 <= i < identity.len() implies !is_key_marker(#[trigger] cert[i]) by {
        assert(cert[i] == identity[i]);
    }
    lemma_marker_found(cert, 0, identity.len());
    assert(cert.take(identity.len() as int + 2) =~= identity.push(marker).push(key_id));
}

proof fn lemma_no_marker(name: Seq<ComponentView>, from: nat)
    requires
        forall|i: int| 0 <= i < name.len() ==> !is_key_marker(#[trigger] name[i]),
    ensures
        key_marker_from(name, from) is None,
    decreases name.len() - from,
{
    if from < name.len() {
        lemma_no_marker(name, from + 1);
    }
}

/// A name that holds no key marker, or none with anything behind it, is taken for
/// the key's own; a key's name is never longer than that of its certificate, and
/// is where the certificate's name starts.
pub proof fn law_name_without_key_id_is_the_key(cert: Seq<ComponentView>, marker: ComponentView)
    ensures
        (forall|i: int| 0 <= i < cert.len() ==> !is_key_marker(#[trigger] cert[i])) ==> key_of_cert(
            cert,
        ) == cert,
        (forall|i: int| 0 <= i < cert.len() ==> !is_key_marker(#[trigger] cert[i]))
            && is_key_marker(marker) ==> key_of_cert(cert.push(marker)) == cert.push(marker),
        key_of_cert(cert).len() <= cert.len(),
        key_of_cert(cert) == cert.take(key_of_cert(cert).len() as int),
{
    if forall|i: int| 0 <= i < cert.len() ==> !is_key_marker(#[trigger] cert[i]) {
        lemma_no_marker(cert, 0);
        if is_key_marker(marker) {
            let whole = cert.push(marker);
            assert forall|i: int| 0 <= i < cert.len() implies !is_key_marker(
                #[trigger] whole[i],
            ) by {
                assert(whole[i] == cert[i]);
            }
            lemma_marker_found(whole, 0, cert.len());
        }
    }
    assert(key_of_cert(cert) =~= cert.take(key_of_cert(cert).len() as int));
}

/// What a certificate tells of the signer it is for.
pub struct RemoteCert {
    pub cert_name: Name,
    pub public_key: Vec<u8>,
}

/// Why a certificate cannot be used.
pub enum CertFailure {
    NotData(String),
    NotCertificate(String),
}

/// A signer that holds no key.
pub struct RemoteSignerClient {
    prefix: Name,
    key_name: Name,
    cert_name: Name,
    public_key: Vec<u8>,
    next_id: u64,
}

/// What a keyless signer knows.
pub ghost struct RemoteView {
    pub prefix: Seq<ComponentView>,
    pub key_name: Seq<ComponentView>,
    pub cert_name: Seq<ComponentView>,
    pub public_key: Seq<u8>,
    pub next_id: u64,
}

impl View for RemoteSignerClient {
    type V = RemoteView;

    closed spec fn view(&self) -> RemoteView {
        RemoteView {
            prefix: self.prefix@,
            key_name: self.key_name@,
            cert_name: self.cert_name@,
            public_key: self.public_key@,
            next_id: self.next_id,
        }
    }
}

/// A reply as it comes off the link.
pub enum LinkReply {
    /// A bare packet.
    Bare(Vec<u8>),
    /// A link packet, and its fragment if it has one.
    Link(Option<Vec<u8>>),
    /// A link packet that does not decode.
    Broken(String),
}

/// The packet inside a reply.
pub fn reply_packet(reply: LinkReply) -> (packet: Result<Vec<u8>, String>)
    ensures
        match reply {
            LinkReply::Bare(bytes) => packet == Ok::<Vec<u8>, String>(bytes),
            LinkReply::Link(Some(bytes)) => packet == Ok::<Vec<u8>, String>(bytes),
            LinkReply::Link(None) => packet is Err && packet->Err_0@
                == "lp packet had no fragment"@,
            LinkReply::Broken(why) => packet is Err && packet->Err_0@ == "lp decode: "@ + why@,
        },
{
    match reply {
        LinkReply::Bare(bytes) => Ok(bytes),
        LinkReply::Link(Some(bytes)) => Ok(bytes),
        LinkReply::Link(None) => Err("lp packet had no fragment".to_owned()),
        LinkReply::Broken(why) => Err(text::concat("lp decode: ", why.as_str())),
    }
}

/// What came of a signing request, in the order in which it can fail.
pub enum SignReply {
    /// The request itself does not decode again.
    OwnInterest(String),
    /// Nothing came back.
    NoReply(String),
    /// What came back is no Data packet, or is broken on the link.
    Undecodable(String),
    /// A Data packet.
    Data {
        name: Name,
        /// Its content, decoded as the answer to a signing request.
        answer: Result<WireSignResponse, String>,
    },
}

/// Why a Data packet is none.
pub fn data_failure(why: &str) -> (msg: String)
    ensures
        msg@ == "data decode: "@ + why@,
{
    text::concat("data decode: ", why)
}

/// What a reply to the request named `expected` comes to.
pub open spec fn signature_of(expected: Seq<ComponentView>, reply: SignReply) -> Result<
    Seq<u8>,
    Seq<char>,
> {
    match reply {
        SignReply::OwnInterest(why) => Err("remote signer: own interest: "@ + why@),
        SignReply::NoReply(why) => Err("remote signer: no reply: "@ + why@),
        SignReply::Undecodable(why) => Err("remote signer: undecodable Data: "@ + why@),
        SignReply::Data { name, answer } => if name@ != expected {
            Err("remote signer: correlation mismatch"@)
        } else {
            match answer {
                Ok(WireSignResponse::Approved { signature, .. }) => Ok(signature@),
                Ok(WireSignResponse::Denied { .. }) => Err("remote signer denied the request"@),
                Err(why) => Err("remote signer: undecodable reply: "@ + why@),
            }
        },
    }
}

impl RemoteSignerClient {
    /// A signer served at `prefix`, from what its certificate decodes to.
    pub fn from_cert(prefix: Name, cert: Result<RemoteCert, CertFailure>) -> (client: Result<
        RemoteSignerClient,
        String,
    >)
        ensures
            match cert {
                Ok(cert) => client is Ok && client->Ok_0@ == (RemoteView {
                    prefix: prefix@,
                    key_name: key_of_cert(cert.cert_name@),
                    cert_name: cert.cert_name@,
                    public_key: cert.public_key@,
                    next_id: 1,
                }),
                Err(CertFailure::NotData(why)) => client is Err && client->Err_0@
                    == "remote signer cert decode: "@ + why@,
                Err(CertFailure::NotCertificate(why)) => client is Err && client->Err_0@ == why@,
            },
    {
        match cert {
            Ok(cert) => Ok(
                RemoteSignerClient {
                    prefix,
                    key_name: key_name_from_cert(&cert.cert_name),
                    cert_name: cert.cert_name,
                    public_key: cert.public_key,
                    next_id: 1,
                },
            ),
            Err(CertFailure::NotData(why)) => Err(
                text::concat("remote signer cert decode: ", why.as_str()),
            ),
            Err(CertFailure::NotCertificate(why)) => Err(why),
        }
    }

    /// Where the signer is served.
    pub fn prefix(&self) -> (name: &Name)
        ensures
            name@ == self@.prefix,
    {
        &self.prefix
    }

    /// The name of the signer's key.
    pub fn key_name(&self) -> (name: &Name)
        ensures
            name@ == self@.key_name,
    {
        &self.key_name
    }

    /// The name of the signer's certificate.
    pub fn cert_name(&self) -> (name: &Name)
        ensures
            name@ == self@.cert_name,
    {
        &self.cert_name
    }

    /// The signer's public key.
    pub fn public_key(&self) -> (key: &Vec<u8>)
        ensures
            key@ == self@.public_key,
    {
        &self.public_key
    }

    /// The next request: requests are counted up from one, so that each is
    /// asked under a name of its own.
    pub fn next_request(&mut self, region: Vec<u8>) -> (request: WireSignRequest)
        ensures
            request.req_id == old(self)@.next_id,
            request.region == region,
            final(self)@ == (RemoteView {
                next_id: if old(self)@.next_id == u64::MAX {
                    0
                } else {
                    (old(self)@.next_id + 1) as u64
                },
                ..old(self)@
            }),
    {
        let req_id: u64 = self.next_id;
        self.next_id = if req_id == u64::MAX {
            0
        } else {
            req_id + 1
        };
        WireSignRequest { req_id, region }
    }

    /// The signature that a reply to the request named `expected` carries. A
    /// reply under another name is none, whatever it holds.
    pub fn sign(&self, expected: &Name, reply: SignReply) -> (signature: Result<Vec<u8>, String>)
        ensures
            match signature_of(expected@, reply) {
                Ok(bytes) => signature is Ok && signature->Ok_0@ == bytes,
                Err(why) => signature is Err && signature->Err_0@ == why,
            },
            match reply {
                SignReply::Data { name, answer: Ok(WireSignResponse::Approved { signature: s, .. }) }
                    if name@ == expected@ => signature is Ok && signature->Ok_0@ == s@,
                SignReply::Data { name, answer: Ok(WireSignResponse::Denied { .. }) } if name@
                    == expected@ => signature is Err && signature->Err_0@
                    == "remote signer denied the request"@,
                SignReply::Data { name, answer: Err(why) } if name@ == expected@ => signature is Err
                    && signature->Err_0@ == "remote signer: undecodable reply: "@ + why@,
                SignReply::Data { .. } => signature is Err && signature->Err_0@
                    == "remote signer: correlation mismatch"@,
                SignReply::OwnInterest(why) => signature is Err && signature->Err_0@
                    == "remote signer: own interest: "@ + why@,
                SignReply::NoReply(why) => signature is Err && signature->Err_0@
                    == "remote signer: no reply: "@ + why@,
                SignReply::Undecodable(why) => signature is Err && signature->Err_0@
                    == "remote signer: undecodable Data: "@ + why@,
            },
    {
        match reply {
            SignReply::OwnInterest(why) => Err(
                text::concat("remote signer: own interest: ", why.as_str()),
            ),
            SignReply::NoReply(why) => Err(text::concat("remote signer: no reply: ", why.as_str())),
            SignReply::Undecodable(why) => Err(
                text::concat("remote signer: undecodable Data: ", why.as_str()),
            ),
            SignReply::Data { name, answer } => {
                if !name.same(expected) {
                    return Err("remote signer: correlation mismatch".to_owned());
                }
                match answer {
                    Ok(WireSignResponse::Approved { signature, .. }) => Ok(signature),
                    Ok(WireSignResponse::Denied { .. }) => Err(
                        "remote signer denied the request".to_owned(),
                    ),
                    Err(why) => Err(
                        text::concat("remote signer: undecodable reply: ", why.as_str()),
                    ),
                }
            },
        }
    }
}

/// A signature is only ever taken from a reply that names the request: one
/// request never receives the signature of another.
pub proof fn law_replies_are_correlated(expected: Seq<ComponentView>, reply: SignReply)
    ensures
        signature_of(expected, reply) is Ok ==> (reply matches SignReply::Data { name, .. }
            && name@ == expected),
{
}

} // verus!
