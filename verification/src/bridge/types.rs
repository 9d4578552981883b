//! The values that cross the language boundary, and the error they come with.

use crate::text;
use vstd::prelude::*;

verus! {

/// A Data packet as the host sees it.
#[derive(Clone, Debug, PartialEq, Eq)]
pub struct NdnData {
    pub name: String,
    pub content: Vec<u8>,
}

impl NdnData {
    /// A packet without content is shown with empty content.
    pub fn from_packet(name: String, content: Option<Vec<u8>>) -> (data: NdnData)
        ensures
            data.name == name,
            data.content@ == match content {
                Some(bytes) => bytes@,
                None => Seq::<u8>::empty(),
            },
    {
        let content: Vec<u8> = match content {
            Some(bytes) => bytes,
            None => Vec::new(),
        };
        NdnData { name, content }
    }
}

/// One publication from a sync group; `payload` is `None` when the subscriber
/// does not fetch automatically.
#[derive(Clone, Debug, PartialEq, Eq)]
pub struct NdnSample {
    pub name: String,
    pub publisher: String,
    pub seq: u64,
    pub payload: Option<Vec<u8>>,
}

/// What to enrol through NDNCERT.
#[derive(Clone, Debug, PartialEq, Eq)]
pub struct NdnEnrollConfig {
    /// CA prefix; Interests go to `<ca_prefix>/CA/{NEW,CHALLENGE}`.
    pub ca_prefix: String,
    /// Identity to certify.
    pub identity: String,
    /// Requested certificate validity in seconds.
    pub validity_secs: u64,
    /// Password that encrypts the bag handed back for safekeeping.
    pub persist_password: Vec<u8>,
}

/// The result of a successful enrolment.
#[derive(Clone, Debug, PartialEq, Eq)]
pub struct NdnEnrolledIdentity {
    pub key_name: String,
    pub cert_name: String,
    /// Issued certificate wire, if the CA's repository served it.
    pub certificate: Option<Vec<u8>>,
    /// Password-encrypted bag to persist.
    pub safebag: Vec<u8>,
}

/// A class of management action for a scoped-signing grant. `Any` covers every
/// class that is not sensitive; trust, custody and policy commands always ask
/// and cannot be granted.
#[derive(Clone, Copy, Debug, PartialEq, Eq, Structural)]
pub enum NdnActionClass {
    /// Any action that is not sensitive.
    Any,
    /// Route register and unregister.
    Route,
    /// Face create, destroy and update.
    Face,
    /// Strategy set and unset.
    Strategy,
    /// Content-store configuration and erasure.
    ContentStore,
    /// Application Data signing and unknown commands.
    Other,
}

/// The result of a restore on a fresh device.
#[derive(Clone, Debug, PartialEq, Eq)]
pub struct NdnRecoveredIdentity {
    pub key_name: String,
    pub cert_name: String,
    /// Password-encrypted bag of the new operational key.
    pub safebag: Vec<u8>,
    /// The recovery bundle with this recovery appended.
    pub bundle: Vec<u8>,
}

/// One adopted trust context.
#[derive(Clone, Debug, PartialEq, Eq)]
pub struct NdnContext {
    pub namespace: String,
    pub version: u64,
    pub anchor_count: u64,
    pub enforces_hierarchy: bool,
}

/// A verified revocation: a signed statement that `revoked` is dead.
#[derive(Clone, Debug, PartialEq, Eq)]
pub struct NdnRevocation {
    pub revoked: String,
    pub reason: String,
    pub revoked_at_ms: u64,
    pub self_revocation: bool,
}

/// The scope that a device delegation grants.
#[derive(Clone, Debug, PartialEq, Eq)]
pub struct NdnDelegationScope {
    pub sign_patterns: Vec<String>,
    pub unwrap_for: bool,
    pub enroll: bool,
    pub mgmt: bool,
}

/// A parsed onboarding or pairing envelope.
#[derive(Clone, Debug, PartialEq, Eq)]
pub enum NdnTrustEnvelope {
    /// Adopt a trust context.
    Anchor { version: u64, context_content: Vec<u8> },
    /// Enrolment invitation against `ca_prefix`.
    Invite {
        ca_prefix: String,
        identity_namespace: String,
        token: String,
        ttl_secs: Option<u64>,
    },
    /// A signed delegation to import.
    Delegation { signed_delegation: Vec<u8>, principal_pubkey: Vec<u8> },
    /// A recovery bundle.
    Recovery { bundle: Vec<u8> },
    /// A password-encrypted bag.
    Bag { key_name: String, safebag: Vec<u8> },
    /// A short-lived scoped capability; `is_grant` tells an issued grant from a
    /// request.
    Capability {
        is_grant: bool,
        namespace: String,
        scope_patterns: Vec<String>,
        ttl_secs: u64,
        nonce: Vec<u8>,
        grant: Option<Vec<u8>>,
    },
}

/// How much of incoming Data is validated.
#[derive(Clone, Copy, Debug, PartialEq, Eq, Structural)]
pub enum NdnSecurityProfile {
    /// Full chain validation with certificate fetching.
    Default,
    /// Verify the signature only.
    AcceptSigned,
    /// Accept all Data unchecked.
    Disabled,
}

/// A face to bring up on the node. A node is configured with a set of faces; it
/// forwards over whatever it has.
#[derive(Clone, Debug, PartialEq, Eq)]
pub enum NdnFaceSpec {
    /// Local UDP multicast over the site-local IPv4 `iface`.
    Multicast { iface: String },
    /// A unicast TCP uplink to `"<ip>:<port>"`, with a default route toward it.
    Uplink { address: String },
    /// A serial link: device `port` at `baud`.
    Serial { port: String, baud: u32 },
}

/// What a node is built from.
#[derive(Clone, Debug, PartialEq, Eq)]
pub struct NdnEngineConfig {
    pub cs_capacity_mb: u32,
    pub security_profile: NdnSecurityProfile,
    /// The node's face set; empty means isolated.
    pub faces: Vec<NdnFaceSpec>,
    /// Name for beacon discovery; needs a multicast face.
    pub node_name: Option<String>,
    pub pipeline_threads: u32,
    /// Directory of the on-disk content store, where one is built in.
    pub persistent_cs_path: Option<String>,
}

/// What goes wrong, as the host sees it.
#[derive(Clone, Debug, PartialEq, Eq)]
pub enum NdnError {
    Timeout { name: String },
    Nacked { name: String, reason: String },
    Engine { msg: String },
    InvalidName { name: String },
    InvalidAddress { addr: String },
    Identity { msg: String },
}

/// An [`NdnError`] with its strings as character sequences.
pub ghost enum ErrorView {
    Timeout { name: Seq<char> },
    Nacked { name: Seq<char>, reason: Seq<char> },
    Engine { msg: Seq<char> },
    InvalidName { name: Seq<char> },
    InvalidAddress { addr: Seq<char> },
    Identity { msg: Seq<char> },
}

impl View for NdnError {
    type V = ErrorView;

    open spec fn view(&self) -> ErrorView {
        match self {
            NdnError::Timeout { name } => ErrorView::Timeout { name: name@ },
            NdnError::Nacked { name, reason } => ErrorView::Nacked { name: name@, reason: reason@ },
            NdnError::Engine { msg } => ErrorView::Engine { msg: msg@ },
            NdnError::InvalidName { name } => ErrorView::InvalidName { name: name@ },
            NdnError::InvalidAddress { addr } => ErrorView::InvalidAddress { addr: addr@ },
            NdnError::Identity { msg } => ErrorView::Identity { msg: msg@ },
        }
    }
}

/// What a consumer operation of the application layer fails with. A Nack may
/// come without a reason.
#[derive(Clone, Debug, PartialEq, Eq)]
pub enum AppError {
    Timeout,
    Nacked { reason: Option<String> },
    Connection(String),
    Closed,
    Protocol(String),
    Unverified(String),
}

/// How a failure on `name` is reported to the host.
pub open spec fn app_error_view(e: AppError, name: Seq<char>) -> ErrorView {
    match e {
        AppError::Timeout => ErrorView::Timeout { name },
        AppError::Nacked { reason } => ErrorView::Nacked {
            name,
            reason: match reason {
                Some(reason) => reason@,
                None => "Unspecified"@,
            },
        },
        AppError::Connection(msg) => ErrorView::Engine { msg: msg@ },
        AppError::Closed => ErrorView::Engine { msg: "connection closed"@ },
        AppError::Protocol(msg) => ErrorView::Engine { msg: msg@ },
        AppError::Unverified(why) => ErrorView::Engine { msg: "verification failed: "@ + why@ },
    }
}

/// The message shown for an error.
pub open spec fn error_text(e: ErrorView) -> Seq<char> {
    match e {
        ErrorView::Timeout { name } => "timeout waiting for data: "@ + name,
        ErrorView::Nacked { name, reason } => "interest nacked ("@ + reason + "): "@ + name,
        ErrorView::Engine { msg } => "engine error: "@ + msg,
        ErrorView::InvalidName { name } => "invalid NDN name: "@ + name,
        ErrorView::InvalidAddress { addr } => "invalid address: "@ + addr,
        ErrorView::Identity { msg } => "identity error: "@ + msg,
    }
}

impl NdnError {
    /// Reports a failure of a consumer operation on `name`.
    pub fn from_app(e: AppError, name: &str) -> (error: NdnError)
        ensures
            error@ == app_error_view(e, name@),
            match e {
                AppError::Timeout => error@ == (ErrorView::Timeout { name: name@ }),
                AppError::Nacked { reason: Some(reason) } => error@ == (ErrorView::Nacked {
                    name: name@,
                    reason: reason@,
                }),
                AppError::Nacked { reason: None } => error@ == (ErrorView::Nacked {
                    name: name@,
                    reason: "Unspecified"@,
                }),
                AppError::Connection(msg) => error@ == (ErrorView::Engine { msg: msg@ }),
                AppError::Closed => error@ == (ErrorView::Engine { msg: "connection closed"@ }),
                AppError::Protocol(msg) => error@ == (ErrorView::Engine { msg: msg@ }),
                AppError::Unverified(why) => error@ == (ErrorView::Engine {
                    msg: "verification failed: "@ + why@,
                }),
            },
    {
        match e {
            AppError::Timeout => NdnError::Timeout { name: name.to_owned() },
            AppError::Nacked { reason } => {
                let reason: String = match reason {
                    Some(reason) => reason,
                    None => "Unspecified".to_owned(),
                };
                NdnError::Nacked { name: name.to_owned(), reason }
            },
            AppError::Connection(msg) => NdnError::Engine { msg },
            AppError::Closed => NdnError::Engine { msg: "connection closed".to_owned() },
            AppError::Protocol(msg) => NdnError::Engine { msg },
            AppError::Unverified(why) => NdnError::Engine {
                msg: text::concat("verification failed: ", why.as_str()),
            },
        }
    }

    pub fn engine(msg: &str) -> (error: NdnError)
        ensures
            error@ == (ErrorView::Engine { msg: msg@ }),
    {
        NdnError::Engine { msg: msg.to_owned() }
    }

    pub fn identity(msg: &str) -> (error: NdnError)
        ensures
            error@ == (ErrorView::Identity { msg: msg@ }),
    {
        NdnError::Identity { msg: msg.to_owned() }
    }

    pub fn invalid_name(name: &str) -> (error: NdnError)
        ensures
            error@ == (ErrorView::InvalidName { name: name@ }),
    {
        NdnError::InvalidName { name: name.to_owned() }
    }

    pub fn invalid_addr(addr: &str) -> (error: NdnError)
        ensures
            error@ == (ErrorView::InvalidAddress { addr: addr@ }),
    {
        NdnError::InvalidAddress { addr: addr.to_owned() }
    }

    /// The message shown for this error.
    pub fn message(&self) -> (msg: String)
        ensures
            msg@ == error_text(self@),
            match self@ {
                ErrorView::Timeout { name } => msg@ == "timeout waiting for data: "@ + name,
                ErrorView::Nacked { name, reason } => msg@ == "interest nacked ("@ + reason + "): "@
                    + name,
                ErrorView::Engine { msg: why } => msg@ == "engine error: "@ + why,
                ErrorView::InvalidName { name } => msg@ == "invalid NDN name: "@ + name,
                ErrorView::InvalidAddress { addr } => msg@ == "invalid address: "@ + addr,
                ErrorView::Identity { msg: why } => msg@ == "identity error: "@ + why,
            },
    {
        match self {
            NdnError::Timeout { name } => text::concat("timeout waiting for data: ", name.as_str()),
            NdnError::Nacked { name, reason } => {
                let head: String = text::concat("interest nacked (", reason.as_str());
                text::concat3(head.as_str(), "): ", name.as_str())
            },
            NdnError::Engine { msg } => text::concat("engine error: ", msg.as_str()),
            NdnError::InvalidName { name } => text::concat("invalid NDN name: ", name.as_str()),
            NdnError::InvalidAddress { addr } => text::concat("invalid address: ", addr.as_str()),
            NdnError::Identity { msg } => text::concat("identity error: ", msg.as_str()),
        }
    }
}

} // verus!
