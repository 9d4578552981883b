//! The operator's console: what the management plane reports, as the host
//! renders it.

use crate::bridge::types::{ErrorView, NdnError};
use crate::text;
use vstd::prelude::*;

verus! {

/// Forwarder summary counters, as reported.
#[derive(Clone, Debug, PartialEq, Eq)]
pub struct ForwarderStatus {
    pub n_faces: u64,
    pub n_fib: u64,
    pub n_pit: u64,
    pub n_cs: u64,
    pub nfd_version: String,
}

/// Forwarder summary counters, as rendered.
#[derive(Clone, Debug, PartialEq, Eq)]
pub struct NdnForwarderStatus {
    pub n_faces: u64,
    pub n_fib: u64,
    pub n_pit: u64,
    pub n_cs: u64,
    pub nfd_version: String,
}

/// One face with its lifetime counters, as reported.
#[derive(Clone, Debug, PartialEq, Eq)]
pub struct FaceInfo {
    pub face_id: u64,
    pub remote_uri: Option<String>,
    pub local_uri: Option<String>,
    pub persistency: String,
    pub kind: Option<String>,
    pub face_scope: u64,
    pub link_type: u64,
    pub mtu: Option<u64>,
    pub n_in_interests: u64,
    pub n_out_interests: u64,
    pub n_in_data: u64,
    pub n_out_data: u64,
    pub n_in_bytes: u64,
    pub n_out_bytes: u64,
    pub n_in_nacks: u64,
    pub n_out_nacks: u64,
    pub flags: u64,
}

/// One face with its lifetime counters, as rendered.
#[derive(Clone, Debug, PartialEq, Eq)]
pub struct NdnFaceInfo {
    pub face_id: u64,
    pub remote_uri: Option<String>,
    pub local_uri: Option<String>,
    pub persistency: String,
    pub kind: Option<String>,
    pub face_scope: u64,
    pub link_type: u64,
    pub mtu: Option<u64>,
    pub n_in_interests: u64,
    pub n_out_interests: u64,
    pub n_in_data: u64,
    pub n_out_data: u64,
    pub n_in_bytes: u64,
    pub n_out_bytes: u64,
    pub n_in_nacks: u64,
    pub n_out_nacks: u64,
    /// Bit 0 local fields, bit 1 reliability, bit 2 congestion marking.
    pub flags: u64,
}

/// A next hop, as reported.
#[derive(Clone, Copy, Debug, PartialEq, Eq, Structural)]
pub struct NextHop {
    pub face_id: u64,
    pub cost: u32,
}

/// A next hop, as rendered.
#[derive(Clone, Copy, Debug, PartialEq, Eq, Structural)]
pub struct NdnNextHop {
    pub face_id: u64,
    pub cost: u32,
}

/// One route, as reported.
#[derive(Clone, Debug, PartialEq, Eq)]
pub struct FibEntry {
    pub prefix: String,
    pub nexthops: Vec<NextHop>,
}

/// One route, as rendered.
#[derive(Clone, Debug, PartialEq, Eq)]
pub struct NdnFibEntry {
    pub prefix: String,
    pub nexthops: Vec<NdnNextHop>,
}

/// Content-store counters, as reported.
#[derive(Clone, Debug, PartialEq, Eq)]
pub struct CsInfo {
    pub capacity_bytes: u64,
    pub n_entries: u64,
    pub used_bytes: u64,
    pub hits: u64,
    pub misses: u64,
    pub variant: String,
}

/// Content-store counters, as rendered.
#[derive(Clone, Debug, PartialEq, Eq)]
pub struct NdnCsInfo {
    pub capacity_bytes: u64,
    pub n_entries: u64,
    pub used_bytes: u64,
    pub hits: u64,
    pub misses: u64,
    pub variant: String,
}

/// A strategy choice, as reported.
#[derive(Clone, Debug, PartialEq, Eq)]
pub struct StrategyEntry {
    pub prefix: String,
    pub strategy: String,
}

/// A strategy choice, as rendered.
#[derive(Clone, Debug, PartialEq, Eq)]
pub struct NdnStrategyEntry {
    pub prefix: String,
    pub strategy: String,
}

/// The answer to a management command, as received.
#[derive(Clone, Debug, PartialEq, Eq)]
pub struct MgmtResponse {
    pub status_code: u64,
    pub status_text: String,
    pub body: Vec<u8>,
}

/// The answer to a management command, as rendered. 200 is success, 400, 404 and
/// 409 are the client's errors, 500 is the server's.
#[derive(Clone, Debug, PartialEq, Eq)]
pub struct NdnMgmtResponse {
    pub status_code: u64,
    pub status_text: String,
    pub body: Vec<u8>,
}

/// A device that waits for approval, as reported.
#[derive(Clone, Debug, PartialEq, Eq)]
pub struct PendingApproval {
    pub request_id: String,
    pub cert_name: String,
    pub description: String,
}

/// A device that waits for approval, as rendered.
#[derive(Clone, Debug, PartialEq, Eq)]
pub struct NdnPendingApproval {
    pub request_id: String,
    pub cert_name: String,
    pub description: String,
}

/// A local key, as reported; `days_to_expiry` is told by the report.
#[derive(Clone, Debug, PartialEq, Eq)]
pub struct SecurityKeyInfo {
    pub name: String,
    pub has_cert: bool,
    pub valid_until: String,
    pub public_key_b64: String,
    pub days_to_expiry: Option<i64>,
}

/// A local key, as rendered. Days are negative once a certificate has expired,
/// and absent where it never does or where there is none.
#[derive(Clone, Debug, PartialEq, Eq)]
pub struct NdnSecurityKey {
    pub name: String,
    pub has_cert: bool,
    pub valid_until: String,
    pub public_key_b64: String,
    pub days_to_expiry: Option<i64>,
}

/// A trust anchor, as reported.
#[derive(Clone, Debug, PartialEq, Eq)]
pub struct AnchorInfo {
    pub name: String,
    pub source: Option<String>,
}

/// A trust anchor, as rendered.
#[derive(Clone, Debug, PartialEq, Eq)]
pub struct NdnTrustAnchor {
    pub name: String,
    pub source: Option<String>,
}

/// The trust plane, as reported.
#[derive(Clone, Debug, PartialEq, Eq)]
pub struct IdentityState {
    pub approvals: Vec<PendingApproval>,
    pub identities: Vec<SecurityKeyInfo>,
    pub anchors: Vec<AnchorInfo>,
}

/// The trust plane, as rendered.
#[derive(Clone, Debug, PartialEq, Eq)]
pub struct NdnIdentityState {
    pub approvals: Vec<NdnPendingApproval>,
    pub identities: Vec<NdnSecurityKey>,
    pub anchors: Vec<NdnTrustAnchor>,
}

/// The forwarding plane, as reported.
#[derive(Clone, Debug, PartialEq, Eq)]
pub struct DashboardState {
    pub status: Option<ForwarderStatus>,
    pub faces: Vec<FaceInfo>,
    pub routes: Vec<FibEntry>,
    pub cs: Option<CsInfo>,
    pub strategies: Vec<StrategyEntry>,
}

/// The forwarding plane, as rendered.
#[derive(Clone, Debug, PartialEq, Eq)]
pub struct NdnDashboardState {
    pub status: Option<NdnForwarderStatus>,
    pub faces: Vec<NdnFaceInfo>,
    pub routes: Vec<NdnFibEntry>,
    pub cs: Option<NdnCsInfo>,
    pub strategies: Vec<NdnStrategyEntry>,
}

fn copy_text(s: &Option<String>) -> (copy: Option<String>)
    ensures
        text::text_view(copy) == text::text_view(*s),
{
    match s {
        Some(s) => Some(s.as_str().to_owned()),
        None => None,
    }
}

pub open spec fn renders_status(seen: NdnForwarderStatus, s: ForwarderStatus) -> bool {
    &&& seen.n_faces == s.n_faces
    &&& seen.n_fib == s.n_fib
    &&& seen.n_pit == s.n_pit
    &&& seen.n_cs == s.n_cs
    &&& seen.nfd_version@ == s.nfd_version@
}

/// Renders the summary counters.
pub fn from_status(s: &ForwarderStatus) -> (seen: NdnForwarderStatus)
    ensures
        renders_status(seen, *s),
        seen.n_faces == s.n_faces,
        seen.n_fib == s.n_fib,
        seen.n_pit == s.n_pit,
        seen.n_cs == s.n_cs,
        seen.nfd_version@ == s.nfd_version@,
{
    NdnForwarderStatus {
        n_faces: s.n_faces,
        n_fib: s.n_fib,
        n_pit: s.n_pit,
        n_cs: s.n_cs,
        nfd_version: s.nfd_version.as_str().to_owned(),
    }
}

pub open spec fn renders_face(seen: NdnFaceInfo, f: FaceInfo) -> bool {
    &&& seen.face_id == f.face_id
    &&& text::text_view(seen.remote_uri) == text::text_view(f.remote_uri)
    &&& text::text_view(seen.local_uri) == text::text_view(f.local_uri)
    &&& seen.persistency@ == f.persistency@
    &&& text::text_view(seen.kind) == text::text_view(f.kind)
    &&& seen.face_scope == f.face_scope
    &&& seen.link_type == f.link_type
    &&& seen.mtu == f.mtu
    &&& seen.n_in_interests == f.n_in_interests
    &&& seen.n_out_interests == f.n_out_interests
    &&& seen.n_in_data == f.n_in_data
    &&& seen.n_out_data == f.n_out_data
    &&& seen.n_in_bytes == f.n_in_bytes
    &&& seen.n_out_bytes == f.n_out_bytes
    &&& seen.n_in_nacks == f.n_in_nacks
    &&& seen.n_out_nacks == f.n_out_nacks
    &&& seen.flags == f.flags
}

/// Renders a face.
pub fn from_face(f: &FaceInfo) -> (seen: NdnFaceInfo)
    ensures
        renders_face(seen, *f),
        seen.face_id == f.face_id,
        text::text_view(seen.remote_uri) == text::text_view(f.remote_uri),
        text::text_view(seen.local_uri) == text::text_view(f.local_uri),
        seen.persistency@ == f.persistency@,
        text::text_view(seen.kind) == text::text_view(f.kind),
        seen.face_scope == f.face_scope,
        seen.link_type == f.link_type,
        seen.mtu == f.mtu,
        seen.n_in_interests == f.n_in_interests,
        seen.n_out_interests == f.n_out_interests,
        seen.n_in_data == f.n_in_data,
        seen.n_out_data == f.n_out_data,
        seen.n_in_bytes == f.n_in_bytes,
        seen.n_out_bytes == f.n_out_bytes,
        seen.n_in_nacks == f.n_in_nacks,
        seen.n_out_nacks == f.n_out_nacks,
        seen.flags == f.flags,
{
    NdnFaceInfo {
        face_id: f.face_id,
        remote_uri: copy_text(&f.remote_uri),
        local_uri: copy_text(&f.local_uri),
        persistency: f.persistency.as_str().to_owned(),
        kind: copy_text(&f.kind),
        face_scope: f.face_scope,
        link_type: f.link_type,
        mtu: f.mtu,
        n_in_interests: f.n_in_interests,
        n_out_interests: f.n_out_interests,
        n_in_data: f.n_in_data,
        n_out_data: f.n_out_data,
        n_in_bytes: f.n_in_bytes,
        n_out_bytes: f.n_out_bytes,
        n_in_nacks: f.n_in_nacks,
        n_out_nacks: f.n_out_nacks,
        flags: f.flags,
    }
}

pub open spec fn renders_route(seen: NdnFibEntry, e: FibEntry) -> bool {
    &&& seen.prefix@ == e.prefix@
    &&& seen.nexthops@ == e.nexthops@.map_values(
        |h: NextHop| NdnNextHop { face_id: h.face_id, cost: h.cost },
    )
}

/// Renders a route; its next hops stay in order.
pub fn from_fib(e: &FibEntry) -> (seen: NdnFibEntry)
    ensures
        renders_route(seen, *e),
        seen.prefix@ == e.prefix@,
        seen.nexthops@.len() == e.nexthops@.len(),
        forall|i: int|
            0 <= i < e.nexthops@.len() ==> (#[trigger] seen.nexthops@[i]).face_id
                == e.nexthops@[i].face_id && seen.nexthops@[i].cost == e.nexthops@[i].cost,
{
    let mut nexthops: Vec<NdnNextHop> = Vec::new();
    let n: usize = e.nexthops.len();
    let mut i: usize = 0;
    while i < n
        invariant
            n == e.nexthops@.len(),
            i <= n,
            nexthops@ == e.nexthops@.take(i as int).map_values(
                |h: NextHop| NdnNextHop { face_id: h.face_id, cost: h.cost },
            ),
        decreases n - i,
    {
        let hop: NextHop = e.nexthops[i];
        nexthops.push(NdnNextHop { face_id: hop.face_id, cost: hop.cost });
        i = i + 1;
        assert(nexthops@ =~= e.nexthops@.take(i as int).map_values(
            |h: NextHop| NdnNextHop { face_id: h.face_id, cost: h.cost },
        ));
    }
    assert(e.nexthops@.take(n as int) =~= e.nexthops@);
    NdnFibEntry { prefix: e.prefix.as_str().to_owned(), nexthops }
}

pub open spec fn renders_cs(seen: NdnCsInfo, c: CsInfo) -> bool {
    &&& seen.capacity_bytes == c.capacity_bytes
    &&& seen.n_entries == c.n_entries
    &&& seen.used_bytes == c.used_bytes
    &&& seen.hits == c.hits
    &&& seen.misses == c.misses
    &&& seen.variant@ == c.variant@
}

/// Renders the content-store counters.
pub fn from_cs(c: &CsInfo) -> (seen: NdnCsInfo)
    ensures
        renders_cs(seen, *c),
        seen.capacity_bytes == c.capacity_bytes,
        seen.n_entries == c.n_entries,
        seen.used_bytes == c.used_bytes,
        seen.hits == c.hits,
        seen.misses == c.misses,
        seen.variant@ == c.variant@,
{
    NdnCsInfo {
        capacity_bytes: c.capacity_bytes,
        n_entries: c.n_entries,
        used_bytes: c.used_bytes,
        hits: c.hits,
        misses: c.misses,
        variant: c.variant.as_str().to_owned(),
    }
}

pub open spec fn renders_strategy(seen: NdnStrategyEntry, s: StrategyEntry) -> bool {
    seen.prefix@ == s.prefix@ && seen.strategy@ == s.strategy@
}

/// Renders a strategy choice.
pub fn from_strategy(s: &StrategyEntry) -> (seen: NdnStrategyEntry)
    ensures
        renders_strategy(seen, *s),
        seen.prefix@ == s.prefix@,
        seen.strategy@ == s.strategy@,
{
    NdnStrategyEntry {
        prefix: s.prefix.as_str().to_owned(),
        strategy: s.strategy.as_str().to_owned(),
    }
}

pub open spec fn renders_approval(seen: NdnPendingApproval, a: PendingApproval) -> bool {
    &&& seen.request_id@ == a.request_id@
    &&& seen.cert_name@ == a.cert_name@
    &&& seen.description@ == a.description@
}

/// Renders a device that waits for approval.
pub fn from_approval(a: &PendingApproval) -> (seen: NdnPendingApproval)
    ensures
        renders_approval(seen, *a),
        seen.request_id@ == a.request_id@,
        seen.cert_name@ == a.cert_name@,
        seen.description@ == a.description@,
{
    NdnPendingApproval {
        request_id: a.request_id.as_str().to_owned(),
        cert_name: a.cert_name.as_str().to_owned(),
        description: a.description.as_str().to_owned(),
    }
}

pub open spec fn renders_key(seen: NdnSecurityKey, k: SecurityKeyInfo) -> bool {
    &&& seen.name@ == k.name@
    &&& seen.has_cert == k.has_cert
    &&& seen.valid_until@ == k.valid_until@
    &&& seen.public_key_b64@ == k.public_key_b64@
    &&& seen.days_to_expiry == k.days_to_expiry
}

/// Renders a local key.
pub fn from_key(k: &SecurityKeyInfo) -> (seen: NdnSecurityKey)
    ensures
        renders_key(seen, *k),
        seen.name@ == k.name@,
        seen.has_cert == k.has_cert,
        seen.valid_until@ == k.valid_until@,
        seen.public_key_b64@ == k.public_key_b64@,
        seen.days_to_expiry == k.days_to_expiry,
{
    NdnSecurityKey {
        name: k.name.as_str().to_owned(),
        has_cert: k.has_cert,
        valid_until: k.valid_until.as_str().to_owned(),
        public_key_b64: k.public_key_b64.as_str().to_owned(),
        days_to_expiry: k.days_to_expiry,
    }
}

pub open spec fn renders_anchor(seen: NdnTrustAnchor, a: AnchorInfo) -> bool {
    seen.name@ == a.name@ && text::text_view(seen.source) == text::text_view(a.source)
}

/// Renders a trust anchor.
pub fn from_anchor(a: &AnchorInfo) -> (seen: NdnTrustAnchor)
    ensures
        renders_anchor(seen, *a),
        seen.name@ == a.name@,
        text::text_view(seen.source) == text::text_view(a.source),
{
    NdnTrustAnchor { name: a.name.as_str().to_owned(), source: copy_text(&a.source) }
}

impl vstd::std_specs::convert::FromSpecImpl<MgmtResponse> for NdnMgmtResponse {
    open spec fn obeys_from_spec() -> bool {
        true
    }

    open spec fn from_spec(r: MgmtResponse) -> NdnMgmtResponse {
        NdnMgmtResponse { status_code: r.status_code, status_text: r.status_text, body: r.body }
    }
}

impl From<MgmtResponse> for NdnMgmtResponse {
    /// Renders an answer, whatever its status.
    fn from(r: MgmtResponse) -> (seen: NdnMgmtResponse) {
        NdnMgmtResponse { status_code: r.status_code, status_text: r.status_text, body: r.body }
    }
}

/// What a command comes to: an answer is rendered whatever its status, and only
/// a failure to get one is an error.
pub fn finish(r: Result<MgmtResponse, String>) -> (answer: Result<NdnMgmtResponse, NdnError>)
    ensures
        match r {
            Ok(r) => {
                &&& answer is Ok
                &&& answer->Ok_0.status_code == r.status_code
                &&& answer->Ok_0.status_text == r.status_text
                &&& answer->Ok_0.body == r.body
            },
            Err(why) => answer is Err && answer->Err_0@ == (ErrorView::Engine { msg: why@ }),
        },
{
    match r {
        Ok(r) => Ok(NdnMgmtResponse::from(r)),
        Err(why) => Err(NdnError::engine(why.as_str())),
    }
}

impl NdnDashboardState {
    /// Renders the forwarding plane; every list stays in order.
    pub fn from_state(s: &DashboardState) -> (seen: NdnDashboardState)
        ensures
            match s.status {
                Some(status) => seen.status is Some && renders_status(seen.status->0, status),
                None => seen.status is None,
            },
            match s.cs {
                Some(cs) => seen.cs is Some && renders_cs(seen.cs->0, cs),
                None => seen.cs is None,
            },
            seen.faces@.len() == s.faces@.len(),
            forall|i: int|
                0 <= i < s.faces@.len() ==> renders_face(#[trigger] seen.faces@[i], s.faces@[i]),
            seen.routes@.len() == s.routes@.len(),
            forall|i: int|
                0 <= i < s.routes@.len() ==> renders_route(
                    #[trigger] seen.routes@[i],
                    s.routes@[i],
                ),
            seen.strategies@.len() == s.strategies@.len(),
            forall|i: int|
                0 <= i < s.strategies@.len() ==> renders_strategy(
                    #[trigger] seen.strategies@[i],
                    s.strategies@[i],
                ),
    {
        let status: Option<NdnForwarderStatus> = match &s.status {
            Some(status) => Some(from_status(status)),
            None => None,
        };
        let cs: Option<NdnCsInfo> = match &s.cs {
            Some(cs) => Some(from_cs(cs)),
            None => None,
        };
        let mut faces: Vec<NdnFaceInfo> = Vec::new();
        let n: usize = s.faces.len();
        let mut i: usize = 0;
        while i < n
            invariant
                n == s.faces@.len(),
                faces@.len() == i <= n,
                forall|j: int| 0 <= j < i ==> renders_face(#[trigger] faces@[j], s.faces@[j]),
            decreases n - i,
        {
            faces.push(from_face(&s.faces[i]));
            i = i + 1;
        }
        let mut routes: Vec<NdnFibEntry> = Vec::new();
        let n: usize = s.routes.len();
        let mut i: usize = 0;
        while i < n
            invariant
                n == s.routes@.len(),
                routes@.len() == i <= n,
                forall|j: int| 0 <= j < i ==> renders_route(#[trigger] routes@[j], s.routes@[j]),
            decreases n - i,
        {
            routes.push(from_fib(&s.routes[i]));
            i = i + 1;
        }
        let mut strategies: Vec<NdnStrategyEntry> = Vec::new();
        let n: usize = s.strategies.len();
        let mut i: usize = 0;
        while i < n
            invariant
                n == s.strategies@.len(),
                strategies@.len() == i <= n,
                forall|j: int|
                    0 <= j < i ==> renders_strategy(#[trigger] strategies@[j], s.strategies@[j]),
            decreases n - i,
        {
            strategies.push(from_strategy(&s.strategies[i]));
            i = i + 1;
        }
        NdnDashboardState { status, faces, routes, cs, strategies }
    }
}

impl NdnIdentityState {
    /// Renders the trust plane; every list stays in order.
    pub fn from_state(s: &IdentityState) -> (seen: NdnIdentityState)
        ensures
            seen.approvals@.len() == s.approvals@.len(),
            forall|i: int|
                0 <= i < s.approvals@.len() ==> renders_approval(
                    #[trigger] seen.approvals@[i],
                    s.approvals@[i],
                ),
            seen.identities@.len() == s.identities@.len(),
            forall|i: int|
                0 <= i < s.identities@.len() ==> renders_key(
                    #[trigger] seen.identities@[i],
                    s.identities@[i],
                ),
            seen.anchors@.len() == s.anchors@.len(),
            forall|i: int|
                0 <= i < s.anchors@.len() ==> renders_anchor(
                    #[trigger] seen.anchors@[i],
                    s.anchors@[i],
                ),
    {
        let mut approvals: Vec<NdnPendingApproval> = Vec::new();
        let n: usize = s.approvals.len();
        let mut i: usize = 0;
        while i < n
            invariant
                n == s.approvals@.len(),
                approvals@.len() == i <= n,
                forall|j: int|
                    0 <= j < i ==> renders_approval(#[trigger] approvals@[j], s.approvals@[j]),
            decreases n - i,
        {
            approvals.push(from_approval(&s.approvals[i]));
            i = i + 1;
        }
        let mut identities: Vec<NdnSecurityKey> = Vec::new();
        let n: usize = s.identities.len();
        let mut i: usize = 0;
        while i < n
            invariant
                n == s.identities@.len(),
                identities@.len() == i <= n,
                forall|j: int|
                    0 <= j < i ==> renders_key(#[trigger] identities@[j], s.identities@[j]),
            decreases n - i,
        {
            identities.push(from_key(&s.identities[i]));
            i = i + 1;
        }
        let mut anchors: Vec<NdnTrustAnchor> = Vec::new();
        let n: usize = s.anchors.len();
        let mut i: usize = 0;
        while i < n
            invariant
                n == s.anchors@.len(),
                anchors@.len() == i <= n,
                forall|j: int| 0 <= j < i ==> renders_anchor(#[trigger] anchors@[j], s.anchors@[j]),
            decreases n - i,
        {
            anchors.push(from_anchor(&s.anchors[i]));
            i = i + 1;
        }
        NdnIdentityState { approvals, identities, anchors }
    }
}

} // verus!
