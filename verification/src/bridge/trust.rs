//! Onboarding and pairing envelopes: what a scanned link carries, and what the
//! host is shown of it.

use crate::bridge::types::{ErrorView, NdnError, NdnTrustEnvelope};
use vstd::prelude::*;

verus! {

/// Which way a capability goes.
#[derive(Clone, Copy, Debug, PartialEq, Eq, Structural)]
pub enum CapDirection {
    /// A peer asks for it.
    Request,
    /// The operator grants it.
    Grant,
}

/// A short-lived scoped capability.
#[derive(Clone, Debug, PartialEq, Eq)]
pub struct Capability {
    pub direction: CapDirection,
    pub namespace: String,
    pub scope_patterns: Vec<String>,
    pub ttl_secs: u64,
    pub nonce: Vec<u8>,
    pub grant: Option<Vec<u8>>,
}

/// An envelope as it travels.
#[derive(Clone, Debug, PartialEq, Eq)]
pub enum TrustEnvelope {
    Anchor { version: u64, context_content: Vec<u8> },
    Invite {
        ca_prefix: String,
        identity_namespace: String,
        token: String,
        ttl_secs: Option<u64>,
    },
    Delegation { signed_delegation: Vec<u8>, principal_pubkey: Vec<u8> },
    Recovery { bundle: Vec<u8> },
    Bag { key_name: String, safebag: Vec<u8> },
    Capability(Capability),
}

/// What the host is shown of an envelope.
pub open spec fn shown(e: TrustEnvelope) -> NdnTrustEnvelope {
    match e {
        TrustEnvelope::Anchor { version, context_content } => NdnTrustEnvelope::Anchor {
            version,
            context_content,
        },
        TrustEnvelope::Invite { ca_prefix, identity_namespace, token, ttl_secs } =>
            NdnTrustEnvelope::Invite { ca_prefix, identity_namespace, token, ttl_secs },
        TrustEnvelope::Delegation { signed_delegation, principal_pubkey } =>
            NdnTrustEnvelope::Delegation { signed_delegation, principal_pubkey },
        TrustEnvelope::Recovery { bundle } => NdnTrustEnvelope::Recovery { bundle },
        TrustEnvelope::Bag { key_name, safebag } => NdnTrustEnvelope::Bag { key_name, safebag },
        TrustEnvelope::Capability(c) => NdnTrustEnvelope::Capability {
            is_grant: c.direction is Grant,
            namespace: c.namespace,
            scope_patterns: c.scope_patterns,
            ttl_secs: c.ttl_secs,
            nonce: c.nonce,
            grant: c.grant,
        },
    }
}

/// What the host is shown of an envelope.
pub fn convert(e: TrustEnvelope) -> (envelope: NdnTrustEnvelope)
    ensures
        envelope == shown(e),
        match e {
            TrustEnvelope::Anchor { version, context_content } => envelope == (
            NdnTrustEnvelope::Anchor { version, context_content }),
            TrustEnvelope::Invite { ca_prefix, identity_namespace, token, ttl_secs } => envelope
                == (NdnTrustEnvelope::Invite { ca_prefix, identity_namespace, token, ttl_secs }),
            TrustEnvelope::Delegation { signed_delegation, principal_pubkey } => envelope == (
            NdnTrustEnvelope::Delegation { signed_delegation, principal_pubkey }),
            TrustEnvelope::Recovery { bundle } => envelope == (NdnTrustEnvelope::Recovery {
                bundle,
            }),
            TrustEnvelope::Bag { key_name, safebag } => envelope == (NdnTrustEnvelope::Bag {
                key_name,
                safebag,
            }),
            TrustEnvelope::Capability(c) => envelope matches NdnTrustEnvelope::Capability {
                is_grant,
                namespace,
                scope_patterns,
                ttl_secs,
                nonce,
                grant,
            } && is_grant == (c.direction == CapDirection::Grant) && namespace == c.namespace
                && scope_patterns == c.scope_patterns && ttl_secs == c.ttl_secs && nonce == c.nonce
                && grant == c.grant,
        },
{
    match e {
        TrustEnvelope::Anchor { version, context_content } => NdnTrustEnvelope::Anchor {
            version,
            context_content,
        },
        TrustEnvelope::Invite { ca_prefix, identity_namespace, token, ttl_secs } =>
            NdnTrustEnvelope::Invite { ca_prefix, identity_namespace, token, ttl_secs },
        TrustEnvelope::Delegation { signed_delegation, principal_pubkey } =>
            NdnTrustEnvelope::Delegation { signed_delegation, principal_pubkey },
        TrustEnvelope::Recovery { bundle } => NdnTrustEnvelope::Recovery { bundle },
        TrustEnvelope::Bag { key_name, safebag } => NdnTrustEnvelope::Bag { key_name, safebag },
        TrustEnvelope::Capability(c) => {
            let is_grant: bool = match c.direction {
                CapDirection::Grant => true,
                CapDirection::Request => false,
            };
            NdnTrustEnvelope::Capability {
                is_grant,
                namespace: c.namespace,
                scope_patterns: c.scope_patterns,
                ttl_secs: c.ttl_secs,
                nonce: c.nonce,
                grant: c.grant,
            }
        },
    }
}

/// Nothing is lost on the way to the host: envelopes that are shown alike are
/// the same.
pub proof fn law_envelopes_are_told_apart(a: TrustEnvelope, b: TrustEnvelope)
    requires
        shown(a) == shown(b),
    ensures
        a == b,
{
    match (a, b) {
        (TrustEnvelope::Capability(x), TrustEnvelope::Capability(y)) => {
            assert(x.direction == y.direction);
        },
        _ => {},
    }
}

/// Reads and writes envelopes.
pub struct NdnTrust;

impl NdnTrust {
    /// A scanned or pasted link as an envelope, given what decoding it came to.
    pub fn parse(decoded: Result<TrustEnvelope, String>) -> (envelope: Result<
        NdnTrustEnvelope,
        NdnError,
    >)
        ensures
            match decoded {
                Ok(e) => envelope == Ok::<NdnTrustEnvelope, NdnError>(shown(e)),
                Err(why) => envelope is Err && envelope->Err_0@ == (ErrorView::Engine {
                    msg: why@,
                }),
            },
    {
        match decoded {
            Ok(e) => Ok(convert(e)),
            Err(why) => Err(NdnError::engine(why.as_str())),
        }
    }

    /// What a sponsor shows to a device: a signed delegation, and the key that
    /// verifies it.
    pub fn build_delegation(signed_delegation: Vec<u8>, principal_pubkey: Vec<u8>) -> (e:
        TrustEnvelope)
        ensures
            shown(e) == (NdnTrustEnvelope::Delegation { signed_delegation, principal_pubkey }),
            e == (TrustEnvelope::Delegation { signed_delegation, principal_pubkey }),
    {
        TrustEnvelope::Delegation { signed_delegation, principal_pubkey }
    }

    /// The public backup of an identity. The recovery seed is never part of it.
    pub fn build_recovery(bundle: Vec<u8>) -> (e: TrustEnvelope)
        ensures
            shown(e) == (NdnTrustEnvelope::Recovery { bundle }),
            e == (TrustEnvelope::Recovery { bundle }),
    {
        TrustEnvelope::Recovery { bundle }
    }

    /// A pairing request, or the grant that answers it.
    pub fn build_capability(
        is_grant: bool,
        namespace: String,
        scope_patterns: Vec<String>,
        ttl_secs: u64,
        nonce: Vec<u8>,
        grant: Option<Vec<u8>>,
    ) -> (e: TrustEnvelope)
        ensures
            shown(e) == (NdnTrustEnvelope::Capability {
                is_grant,
                namespace,
                scope_patterns,
                ttl_secs,
                nonce,
                grant,
            }),
            e matches TrustEnvelope::Capability(c) && {
                &&& c.direction == if is_grant {
                    CapDirection::Grant
                } else {
                    CapDirection::Request
                }
                &&& c.namespace == namespace
                &&& c.scope_patterns == scope_patterns
                &&& c.ttl_secs == ttl_secs
                &&& c.nonce == nonce
                &&& c.grant == grant
            },
    {
        let direction = if is_grant {
            CapDirection::Grant
        } else {
            CapDirection::Request
        };
        TrustEnvelope::Capability(
            Capability { direction, namespace, scope_patterns, ttl_secs, nonce, grant },
        )
    }
}

} // verus!
