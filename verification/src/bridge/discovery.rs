//! Nearby-peer discovery: the node's own presence and the table of peers it has
//! heard, rendered as the JSON dataset that local applications read.

use crate::json_text::{self, Json};
use crate::text;
use vstd::prelude::*;

verus! {

/// The name of the dataset that lists nearby peers.
pub const PEERS_DATASET: &'static str = "/localhost/discovery/peers";

/// Root of the routable prefixes of nodes.
pub const NODE_PREFIX: &'static str = "/ndn/node";

/// A peer is dropped after this long without a fresh beacon.
pub const PEER_TTL_MS: u64 = 30_000;

/// How long a served snapshot stays fresh.
pub const SNAPSHOT_FRESHNESS_MS: u64 = 1000;

/// The routable prefix of the node with discovery id `id`.
pub open spec fn node_prefix_text(id: Seq<char>) -> Seq<char> {
    NODE_PREFIX@ + "/"@ + id
}

/// The routable prefix of the node with discovery id `id`.
pub fn peer_node_prefix(id: &str) -> (prefix: String)
    ensures
        prefix@ == node_prefix_text(id@),
        prefix@ == "/ndn/node"@ + "/"@ + id@,
{
    text::concat3(NODE_PREFIX, "/", id)
}

/// What is known of a peer.
#[derive(Clone, Debug, PartialEq, Eq)]
pub struct PeerEntry {
    pub id: String,
    pub label: String,
    /// The faces the peer has been heard on, in order.
    pub faces: Vec<String>,
    /// Signal strength in dBm; 0 if unknown.
    pub rssi_dbm: i32,
    /// The peer's address on the local network, if it told.
    pub infra_addr: Option<String>,
    /// When the peer was last heard.
    pub last_seen_ms: u64,
}

/// A [`PeerEntry`] over mathematical values.
pub ghost struct PeerView {
    pub id: Seq<char>,
    pub label: Seq<char>,
    pub faces: Seq<Seq<char>>,
    pub rssi_dbm: int,
    pub infra_addr: Option<Seq<char>>,
    pub last_seen_ms: int,
}

impl View for PeerEntry {
    type V = PeerView;

    open spec fn view(&self) -> PeerView {
        PeerView {
            id: self.id@,
            label: self.label@,
            faces: text::text_views(self.faces@),
            rssi_dbm: self.rssi_dbm as int,
            infra_addr: text::text_view(self.infra_addr),
            last_seen_ms: self.last_seen_ms as int,
        }
    }
}

/// The peers of a list, each by its view.
pub open spec fn peer_views(list: Seq<PeerEntry>) -> Seq<PeerView> {
    list.map_values(|p: PeerEntry| p@)
}

/// A node's presence and the peers it knows.
pub ghost struct DiscoveryView {
    pub local_id: Seq<char>,
    pub local_label: Seq<char>,
    pub peers: Seq<PeerView>,
}

/// One sighting of a peer.
pub ghost struct Sighting {
    pub id: Seq<char>,
    pub label: Seq<char>,
    pub face: Seq<char>,
    pub rssi_dbm: int,
    pub infra_addr: Option<Seq<char>>,
    pub now_ms: int,
}

/// Where the peer with this id stands in the table, if anywhere.
pub open spec fn find_peer(peers: Seq<PeerView>, id: Seq<char>) -> Option<int>
    decreases peers.len(),
{
    if peers.len() == 0 {
        None
    } else if peers.last().id == id {
        Some(peers.len() - 1)
    } else {
        find_peer(peers.drop_last(), id)
    }
}

/// What a sighting makes of an entry. An empty label or face and a missing
/// address say nothing; the signal and the time are always the latest.
pub open spec fn refreshed(p: PeerView, s: Sighting) -> PeerView {
    PeerView {
        id: p.id,
        label: if s.label.len() > 0 {
            s.label
        } else {
            p.label
        },
        faces: if s.face.len() > 0 {
            text::with_key(p.faces, s.face)
        } else {
            p.faces
        },
        rssi_dbm: s.rssi_dbm,
        infra_addr: if s.infra_addr is Some {
            s.infra_addr
        } else {
            p.infra_addr
        },
        last_seen_ms: s.now_ms,
    }
}

/// A peer that has not been heard before.
pub open spec fn unheard(s: Sighting) -> PeerView {
    PeerView {
        id: s.id,
        label: s.label,
        faces: Seq::empty(),
        rssi_dbm: s.rssi_dbm,
        infra_addr: None,
        last_seen_ms: s.now_ms,
    }
}

/// The table after a sighting. A node never lists itself, nor a peer without an
/// id.
pub open spec fn noted(st: DiscoveryView, s: Sighting) -> DiscoveryView {
    if s.id.len() == 0 || s.id == st.local_id {
        st
    } else {
        DiscoveryView {
            peers: match find_peer(st.peers, s.id) {
                Some(i) => st.peers.update(i, refreshed(st.peers[i], s)),
                None => st.peers.push(refreshed(unheard(s), s)),
            },
            ..st
        }
    }
}

/// How long ago a peer was heard.
pub open spec fn age_ms(p: PeerView, now_ms: int) -> int {
    if now_ms >= p.last_seen_ms {
        now_ms - p.last_seen_ms
    } else {
        0
    }
}

/// The peers heard within the time limit.
pub open spec fn fresh_peers(peers: Seq<PeerView>, now_ms: int) -> Seq<PeerView>
    decreases peers.len(),
{
    if peers.len() == 0 {
        Seq::empty()
    } else {
        let before = fresh_peers(peers.drop_last(), now_ms);
        if age_ms(peers.last(), now_ms) < PEER_TTL_MS {
            before.push(peers.last())
        } else {
            before
        }
    }
}

/// The names of a peer's faces, as JSON strings with commas between.
pub open spec fn faces_json(faces: Seq<Seq<char>>) -> Seq<char> {
    text::joined(faces.map_values(|f: Seq<char>| text::json_string(f)), seq![','])
}

/// One peer as a JSON object. The address is left out where it is not known.
pub open spec fn peer_json(p: PeerView, now_ms: int) -> Seq<char> {
    "{\"id\":"@ + text::json_string(p.id) + ",\"label\":"@ + text::json_string(p.label)
        + ",\"faces\":["@ + faces_json(p.faces) + "],\"rssi\":"@ + text::decimal_int(p.rssi_dbm)
        + ",\"age_ms\":"@ + text::decimal_int(age_ms(p, now_ms)) + (match p.infra_addr {
        Some(addr) => ",\"infra\":"@ + text::json_string(addr),
        None => Seq::empty(),
    }) + seq!['}']
}

/// The peers as JSON objects with commas between.
pub open spec fn peers_json(peers: Seq<PeerView>, now_ms: int) -> Seq<char> {
    text::joined(peers.map_values(|p: PeerView| peer_json(p, now_ms)), seq![','])
}

/// The dataset: the node's own presence, and its peers.
pub open spec fn dataset_json(st: DiscoveryView, now_ms: int) -> Seq<char> {
    "{\"self\":{\"id\":"@ + text::json_string(st.local_id) + ",\"label\":"@ + text::json_string(
        st.local_label,
    ) + "},\"peers\":["@ + peers_json(st.peers, now_ms) + "]}"@
}

/// The table without the peers that have gone silent.
pub open spec fn pruned(st: DiscoveryView, now_ms: int) -> DiscoveryView {
    DiscoveryView { peers: fresh_peers(st.peers, now_ms), ..st }
}

/// Whether a table is in order: nobody is listed twice, the node does not list
/// itself, every peer has an id, and its faces are sorted.
pub open spec fn table_in_order(st: DiscoveryView) -> bool {
    &&& forall|i: int, j: int|
        0 <= i < j < st.peers.len() ==> (#[trigger] st.peers[i]).id != (#[trigger] st.peers[j]).id
    &&& forall|i: int|
        0 <= i < st.peers.len() ==> (#[trigger] st.peers[i]).id != st.local_id
            && st.peers[i].id.len() > 0 && text::strictly_sorted(st.peers[i].faces)
}

proof fn lemma_find_peer(peers: Seq<PeerView>, id: Seq<char>)
    ensures
        match find_peer(peers, id) {
            Some(i) => 0 <= i < peers.len() && peers[i].id == id,
            None => forall|i: int| 0 <= i < peers.len() ==> (#[trigger] peers[i]).id != id,
        },
    decreases peers.len(),
{
    if peers.len() > 0 && peers.last().id != id {
        lemma_find_peer(peers.drop_last(), id);
        if find_peer(peers, id) is None {
            assert forall|i: int| 0 <= i < peers.len() implies (#[trigger] peers[i]).id != id by {
                if i < peers.len() - 1 {
                    assert(peers.drop_last()[i] == peers[i]);
                }
            }
        }
    }
}

/// Every sighting keeps the table in order.
pub proof fn law_table_stays_in_order(st: DiscoveryView, s: Sighting)
    requires
        table_in_order(st),
    ensures
        table_in_order(noted(st, s)),
{
    lemma_find_peer(st.peers, s.id);
    match find_peer(st.peers, s.id) {
        Some(i) => {
            text::law_with_key_is_sorted(st.peers[i].faces, s.face);
        },
        None => {
            text::law_with_key_is_sorted(Seq::empty(), s.face);
        },
    }
}

/// A peer that was just heard is in the table, with its signal and time; every
/// other peer is as it was.
pub proof fn law_sighting_is_recorded(st: DiscoveryView, s: Sighting)
    requires
        s.id.len() > 0,
        s.id != st.local_id,
    ensures
        find_peer(noted(st, s).peers, s.id) matches Some(i) && {
            &&& 0 <= i < noted(st, s).peers.len()
            &&& noted(st, s).peers[i].id == s.id
            &&& noted(st, s).peers[i].rssi_dbm == s.rssi_dbm
            &&& noted(st, s).peers[i].last_seen_ms == s.now_ms
            &&& forall|j: int|
                0 <= j < st.peers.len() && j != i ==> noted(st, s).peers[j] == #[trigger] st.peers[j]
        },
{
    lemma_find_peer(st.peers, s.id);
    let after = noted(st, s).peers;
    lemma_find_peer(after, s.id);
    match find_peer(st.peers, s.id) {
        Some(i) => {
            lemma_find_same(st.peers, after, s.id, i);
        },
        None => {},
    }
}

proof fn lemma_find_same(a: Seq<PeerView>, b: Seq<PeerView>, id: Seq<char>, i: int)
    requires
        a.len() == b.len(),
        find_peer(a, id) == Some(i),
        forall|j: int| 0 <= j < a.len() ==> (#[trigger] b[j]).id == a[j].id,
    ensures
        find_peer(b, id) == Some(i),
    decreases a.len(),
{
    if a.last().id != id {
        assert forall|j: int| 0 <= j < a.len() - 1 implies (#[trigger] b.drop_last()[j]).id
            == a.drop_last()[j].id by {
            assert(b[j].id == a[j].id);
        }
        lemma_find_same(a.drop_last(), b.drop_last(), id, i);
    }
}

/// A snapshot lists exactly the peers heard within the time limit.
pub proof fn law_snapshot_lists_fresh_peers(peers: Seq<PeerView>, now_ms: int, p: PeerView)
    ensures
        fresh_peers(peers, now_ms).contains(p) <==> peers.contains(p) && age_ms(p, now_ms)
            < PEER_TTL_MS,
    decreases peers.len(),
{
    if peers.len() > 0 {
        let front = peers.drop_last();
        law_snapshot_lists_fresh_peers(front, now_ms, p);
        let before = fresh_peers(front, now_ms);
        let after = fresh_peers(peers, now_ms);
        if peers.contains(p) {
            let i = peers.index_of(p);
            if i < peers.len() - 1 {
                assert(front[i] == p);
            }
        }
        if front.contains(p) {
            let i = front.index_of(p);
            assert(peers[i] == p);
        }
        if age_ms(peers.last(), now_ms) < PEER_TTL_MS {
            assert(after.last() == peers.last());
            if after.contains(p) {
                let i = after.index_of(p);
                if i < before.len() {
                    assert(before[i] == p);
                }
            }
            if before.contains(p) {
                let i = before.index_of(p);
                assert(after[i] == p);
            }
        }
    }
}

/// Forgetting silent peers keeps the table in order.
pub proof fn law_pruning_keeps_order(st: DiscoveryView, now_ms: int)
    requires
        table_in_order(st),
    ensures
        table_in_order(pruned(st, now_ms)),
    decreases st.peers.len(),
{
    if st.peers.len() > 0 {
        let front = DiscoveryView { peers: st.peers.drop_last(), ..st };
        assert forall|i: int| 0 <= i < front.peers.len() implies #[trigger] front.peers[i]
            == st.peers[i] by {}
        law_pruning_keeps_order(front, now_ms);
        let before = fresh_peers(front.peers, now_ms);
        assert forall|i: int| 0 <= i < before.len() implies (#[trigger] before[i]).id
            != st.peers.last().id by {
            law_snapshot_lists_fresh_peers(front.peers, now_ms, before[i]);
            let k = front.peers.index_of(before[i]);
            assert(front.peers[k] == st.peers[k]);
        }
    }
}

/// The value of a peer in the dataset.
spec fn peer_members(p: PeerView, now_ms: int) -> Seq<(Seq<char>, Json)> {
    let known = seq![
        ("id"@, Json::Text(json_text::shown(p.id))),
        ("label"@, Json::Text(json_text::shown(p.label))),
        (
            "faces"@,
            Json::List(p.faces.map_values(|f: Seq<char>| Json::Text(json_text::shown(f)))),
        ),
        ("rssi"@, Json::Number(p.rssi_dbm)),
        ("age_ms"@, Json::Number(age_ms(p, now_ms))),
    ];
    match p.infra_addr {
        Some(addr) => known.push(("infra"@, Json::Text(json_text::shown(addr)))),
        None => known,
    }
}

proof fn lemma_faces_denote(faces: Seq<Seq<char>>)
    ensures
        json_text::denotes(
            seq!['['] + faces_json(faces) + seq![']'],
            Json::List(faces.map_values(|f: Seq<char>| Json::Text(json_text::shown(f)))),
        ),
{
    let parts = faces.map_values(|f: Seq<char>| text::json_string(f));
    let values = faces.map_values(|f: Seq<char>| Json::Text(json_text::shown(f)));
    assert forall|i: int| 0 <= i < parts.len() implies json_text::denotes(
        #[trigger] parts[i],
        values[i],
    ) by {
        json_text::lemma_string_denotes(faces[i]);
    }
    json_text::lemma_list_denotes(parts, values);
}

proof fn lemma_names_are_plain()
    ensures
        json_text::is_plain("id"@),
        json_text::is_plain("label"@),
        json_text::is_plain("faces"@),
        json_text::is_plain("rssi"@),
        json_text::is_plain("age_ms"@),
        json_text::is_plain("infra"@),
        json_text::is_plain("self"@),
        json_text::is_plain("peers"@),
{
    reveal_strlit("id");
    reveal_strlit("label");
    reveal_strlit("faces");
    reveal_strlit("rssi");
    reveal_strlit("age_ms");
    reveal_strlit("infra");
    reveal_strlit("self");
    reveal_strlit("peers");
}

proof fn lemma_peer_names()
    ensures
        "{\"id\":"@ == seq!['{', '"'] + "id"@ + seq!['"', ':'],
        ",\"label\":"@ == seq![',', '"'] + "label"@ + seq!['"', ':'],
        ",\"faces\":["@ == seq![',', '"'] + "faces"@ + seq!['"', ':', '['],
        "],\"rssi\":"@ == seq![']', ',', '"'] + "rssi"@ + seq!['"', ':'],
        ",\"age_ms\":"@ == seq![',', '"'] + "age_ms"@ + seq!['"', ':'],
        ",\"infra\":"@ == seq![',', '"'] + "infra"@ + seq!['"', ':'],
{
    reveal_strlit("id");
    reveal_strlit("label");
    reveal_strlit("faces");
    reveal_strlit("rssi");
    reveal_strlit("age_ms");
    reveal_strlit("infra");
    reveal_strlit("{\"id\":");
    reveal_strlit(",\"label\":");
    reveal_strlit(",\"faces\":[");
    reveal_strlit("],\"rssi\":");
    reveal_strlit(",\"age_ms\":");
    reveal_strlit(",\"infra\":");
    assert("{\"id\":"@ =~= seq!['{', '"'] + "id"@ + seq!['"', ':']);
    assert(",\"label\":"@ =~= seq![',', '"'] + "label"@ + seq!['"', ':']);
    assert(",\"faces\":["@ =~= seq![',', '"'] + "faces"@ + seq!['"', ':', '[']);
    assert("],\"rssi\":"@ =~= seq![']', ',', '"'] + "rssi"@ + seq!['"', ':']);
    assert(",\"age_ms\":"@ =~= seq![',', '"'] + "age_ms"@ + seq!['"', ':']);
    assert(",\"infra\":"@ =~= seq![',', '"'] + "infra"@ + seq!['"', ':']);
}

proof fn lemma_peer_text(p: PeerView, now_ms: int)
    ensures
        ({
            let names = seq!["id"@].push("label"@).push("faces"@).push("rssi"@).push("age_ms"@);
            let parts = seq![text::json_string(p.id)].push(text::json_string(p.label)).push(
                seq!['['] + faces_json(p.faces) + seq![']'],
            ).push(text::decimal_int(p.rssi_dbm)).push(text::decimal_int(age_ms(p, now_ms)));
            match p.infra_addr {
                Some(addr) => peer_json(p, now_ms) == json_text::record_front(
                    names.push("infra"@),
                    parts.push(text::json_string(addr)),
                ) + seq!['}'],
                None => peer_json(p, now_ms) == json_text::record_front(names, parts) + seq!['}'],
            }
        }),
{
    let id = text::json_string(p.id);
    let label = text::json_string(p.label);
    let faces = faces_json(p.faces);
    let rssi = text::decimal_int(p.rssi_dbm);
    let age = text::decimal_int(age_ms(p, now_ms));
    let n1 = seq!["id"@];
    let p1 = seq![id];
    let n2 = n1.push("label"@);
    let p2 = p1.push(label);
    let n3 = n2.push("faces"@);
    let p3 = p2.push(seq!['['] + faces + seq![']']);
    let n4 = n3.push("rssi"@);
    let p4 = p3.push(rssi);
    let n5 = n4.push("age_ms"@);
    let p5 = p4.push(age);
    lemma_peer_names();
    json_text::lemma_first_member("id"@, id);
    json_text::lemma_next_member(n1, p1, "label"@, label);
    json_text::lemma_next_member(n2, p2, "faces"@, seq!['['] + faces + seq![']']);
    json_text::lemma_list_member(json_text::record_front(n2, p2), "faces"@, faces);
    json_text::lemma_next_member(n3, p3, "rssi"@, rssi);
    json_text::lemma_closing_bracket(
        json_text::record_front(n2, p2) + ",\"faces\":["@ + faces,
        "rssi"@,
    );
    json_text::lemma_next_member(n4, p4, "age_ms"@, age);
    let front = json_text::record_front(n5, p5);
    match p.infra_addr {
        Some(addr) => {
            json_text::lemma_next_member(n5, p5, "infra"@, text::json_string(addr));
            lemma_regroup(front, ",\"infra\":"@, text::json_string(addr));
        },
        None => {
            assert(front + Seq::<char>::empty() =~= front);
        },
    }
}

proof fn lemma_regroup(a: Seq<char>, b: Seq<char>, c: Seq<char>)
    ensures
        a + (b + c) == a + b + c,
{
    assert(a + (b + c) =~= a + b + c);
}

proof fn lemma_peer_denotes(p: PeerView, now_ms: int)
    ensures
        json_text::denotes(peer_json(p, now_ms), Json::Record(peer_members(p, now_ms))),
{
    let values = peer_members(p, now_ms);
    let known_names = seq!["id"@].push("label"@).push("faces"@).push("rssi"@).push("age_ms"@);
    let known = seq![text::json_string(p.id)].push(text::json_string(p.label)).push(
        seq!['['] + faces_json(p.faces) + seq![']'],
    ).push(text::decimal_int(p.rssi_dbm)).push(text::decimal_int(age_ms(p, now_ms)));
    let (names, parts) = match p.infra_addr {
        Some(addr) => (known_names.push("infra"@), known.push(text::json_string(addr))),
        None => (known_names, known),
    };
    lemma_names_are_plain();
    json_text::lemma_string_denotes(p.id);
    json_text::lemma_string_denotes(p.label);
    lemma_faces_denote(p.faces);
    json_text::lemma_number_denotes(p.rssi_dbm);
    json_text::lemma_number_denotes(age_ms(p, now_ms));
    if let Some(addr) = p.infra_addr {
        json_text::lemma_string_denotes(addr);
    }
    assert forall|i: int| 0 <= i < parts.len() implies values[i].0 == names[i]
        && json_text::is_plain(#[trigger] names[i]) && json_text::denotes(
        parts[i],
        values[i].1,
    ) by {}
    json_text::lemma_record_denotes(names, parts, values);
    lemma_peer_text(p, now_ms);
}

proof fn lemma_peer_members(p: PeerView, now_ms: int)
    ensures
        peer_members(p, now_ms) == seq![
            ("id"@, Json::Text(json_text::shown(p.id))),
            ("label"@, Json::Text(json_text::shown(p.label))),
            (
                "faces"@,
                Json::List(
                    Seq::new(p.faces.len(), |k: int| Json::Text(json_text::shown(p.faces[k]))),
                ),
            ),
            ("rssi"@, Json::Number(p.rssi_dbm)),
            (
                "age_ms"@,
                Json::Number(
                    if p.last_seen_ms < now_ms {
                        now_ms - p.last_seen_ms
                    } else {
                        0
                    },
                ),
            ),
        ] + match p.infra_addr {
            Some(addr) => seq![("infra"@, Json::Text(json_text::shown(addr)))],
            None => Seq::empty(),
        },
{
    assert(p.faces.map_values(|f: Seq<char>| Json::Text(json_text::shown(f))) =~= Seq::new(
        p.faces.len(),
        |k: int| Json::Text(json_text::shown(p.faces[k])),
    ));
}

proof fn lemma_dataset_text(id: Seq<char>, label: Seq<char>, peers: Seq<char>)
    ensures
        "{\"self\":{\"id\":"@ + id + ",\"label\":"@ + label + "},\"peers\":["@ + peers + "]}"@
            == json_text::record_front(
            seq!["self"@].push("peers"@),
            seq![
                json_text::record_front(seq!["id"@].push("label"@), seq![id].push(label)) + seq!['}'],
            ].push(seq!['['] + peers + seq![']']),
        ) + seq!['}'],
{
    lemma_peer_names();
    json_text::lemma_first_member("id"@, id);
    json_text::lemma_next_member(seq!["id"@], seq![id], "label"@, label);
    let front = json_text::record_front(seq!["id"@].push("label"@), seq![id].push(label));
    assert(front == "{\"id\":"@ + id + ",\"label\":"@ + label);
    let own = front + seq!['}'];
    json_text::lemma_first_member("self"@, own);
    let list = seq!['['] + peers + seq![']'];
    json_text::lemma_next_member(seq!["self"@], seq![own], "peers"@, list);
    json_text::lemma_list_member(json_text::record_front(seq!["self"@], seq![own]), "peers"@, peers);
    reveal_strlit("{\"self\":{\"id\":");
    reveal_strlit("},\"peers\":[");
    reveal_strlit("]}");
    reveal_strlit("self");
    reveal_strlit("peers");
    reveal_strlit("{\"id\":");
    assert("{\"self\":{\"id\":"@ =~= (seq!['{', '"'] + "self"@ + seq!['"', ':']) + "{\"id\":"@);
    assert("},\"peers\":["@ =~= seq!['}'] + (seq![',', '"'] + "peers"@ + seq!['"', ':', '[']));
    assert("]}"@ =~= seq![']', '}']);
    lemma_nested(
        seq!['{', '"'] + "self"@ + seq!['"', ':'],
        "{\"id\":"@,
        id,
        ",\"label\":"@,
        label,
        seq![',', '"'] + "peers"@ + seq!['"', ':', '['],
        peers,
    );
}

proof fn lemma_nested(
    open: Seq<char>,
    a: Seq<char>,
    b: Seq<char>,
    c: Seq<char>,
    d: Seq<char>,
    e: Seq<char>,
    f: Seq<char>,
)
    ensures
        (open + a) + b + c + d + (seq!['}'] + e) + f + seq![']', '}'] == open + (a + b + c + d
            + seq!['}']) + e + f + seq![']'] + seq!['}'],
{
    let inner = a + b + c + d;
    assert((open + a) + b + c + d =~= open + inner);
    assert((open + inner) + (seq!['}'] + e) =~= open + (inner + seq!['}']) + e);
    let whole = open + (inner + seq!['}']) + e + f;
    assert(whole + seq![']', '}'] =~= whole + seq![']'] + seq!['}']);
}

/// The dataset is a JSON text that reads back to the table: an object with the
/// node's own presence as `self` and an array `peers` that has one element for
/// each peer, in order, with its id, label, faces, signal and age, and with its
/// address where that is known.
pub proof fn law_dataset_reads_back(st: DiscoveryView, now_ms: int)
    ensures
        json_text::parsed(dataset_json(st, now_ms)) matches Some(Json::Record(top)) && {
            &&& top.len() == 2
            &&& top[0] == (
                "self"@,
                Json::Record(
                    seq![
                        ("id"@, Json::Text(json_text::shown(st.local_id))),
                        ("label"@, Json::Text(json_text::shown(st.local_label))),
                    ],
                ),
            )
            &&& top[1].0 == "peers"@
            &&& top[1].1 matches Json::List(listed) && {
                &&& listed.len() == st.peers.len()
                &&& forall|i: int|
                    0 <= i < st.peers.len() ==> #[trigger] listed[i] == Json::Record(
                        {
                            let p = st.peers[i];
                            seq![
                                ("id"@, Json::Text(json_text::shown(p.id))),
                                ("label"@, Json::Text(json_text::shown(p.label))),
                                (
                                    "faces"@,
                                    Json::List(
                                        Seq::new(
                                            p.faces.len(),
                                            |k: int| Json::Text(json_text::shown(p.faces[k])),
                                        ),
                                    ),
                                ),
                                ("rssi"@, Json::Number(p.rssi_dbm)),
                                (
                                    "age_ms"@,
                                    Json::Number(
                                        if p.last_seen_ms < now_ms {
                                            now_ms - p.last_seen_ms
                                        } else {
                                            0
                                        },
                                    ),
                                ),
                            ] + match p.infra_addr {
                                Some(addr) => seq![("infra"@, Json::Text(json_text::shown(addr)))],
                                None => Seq::empty(),
                            }
                        },
                    )
            }
        },
{
    let id = text::json_string(st.local_id);
    let label = text::json_string(st.local_label);
    let own_values = seq![
        ("id"@, Json::Text(json_text::shown(st.local_id))),
        ("label"@, Json::Text(json_text::shown(st.local_label))),
    ];
    let own_names = seq!["id"@].push("label"@);
    let own_parts = seq![id].push(label);
    lemma_names_are_plain();
    json_text::lemma_string_denotes(st.local_id);
    json_text::lemma_string_denotes(st.local_label);
    json_text::lemma_record_denotes(own_names, own_parts, own_values);
    let own = json_text::record_front(own_names, own_parts) + seq!['}'];

    let parts = st.peers.map_values(|p: PeerView| peer_json(p, now_ms));
    let values = st.peers.map_values(|p: PeerView| Json::Record(peer_members(p, now_ms)));
    assert forall|i: int| 0 <= i < parts.len() implies json_text::denotes(
        #[trigger] parts[i],
        values[i],
    ) by {
        lemma_peer_denotes(st.peers[i], now_ms);
    }
    json_text::lemma_list_denotes(parts, values);
    let list = seq!['['] + peers_json(st.peers, now_ms) + seq![']'];

    let names = seq!["self"@].push("peers"@);
    let tops = seq![own].push(list);
    let members = seq![("self"@, Json::Record(own_values)), ("peers"@, Json::List(values))];
    json_text::lemma_record_denotes(names, tops, members);
    let whole = json_text::record_front(names, tops) + seq!['}'];
    lemma_dataset_text(id, label, peers_json(st.peers, now_ms));
    json_text::lemma_parsed(whole, Json::Record(members));
    assert forall|i: int| 0 <= i < st.peers.len() implies #[trigger] values[i] == Json::Record(
        {
            let p = st.peers[i];
            seq![
            ("id"@, Json::Text(json_text::shown(p.id))),
            ("label"@, Json::Text(json_text::shown(p.label))),
            (
                "faces"@,
                Json::List(
                    Seq::new(p.faces.len(), |k: int| Json::Text(json_text::shown(p.faces[k]))),
                ),
            ),
            ("rssi"@, Json::Number(p.rssi_dbm)),
            (
                "age_ms"@,
                Json::Number(
                    if p.last_seen_ms < now_ms {
                        now_ms - p.last_seen_ms
                    } else {
                        0
                    },
                ),
            ),
        ] + match p.infra_addr {
            Some(addr) => seq![("infra"@, Json::Text(json_text::shown(addr)))],
            None => Seq::empty(),
        }
        },
    ) by {
        lemma_peer_members(st.peers[i], now_ms);
    }
}

/// Two peers stand next to each other in the dataset with exactly one comma
/// between them.
pub proof fn law_peers_are_parted_by_commas(peers: Seq<PeerView>, p: PeerView, now_ms: int)
    ensures
        peers_json(Seq::empty(), now_ms).len() == 0,
        peers_json(seq![p], now_ms) == peer_json(p, now_ms),
        peers.len() > 0 ==> peers_json(peers.push(p), now_ms) == peers_json(peers, now_ms).push(
            ',',
        ) + peer_json(p, now_ms),
{
    let render = |p: PeerView| peer_json(p, now_ms);
    assert(peers.push(p).map_values(render).drop_last() =~= peers.map_values(render));
    assert(peers.push(p).map_values(render).last() == peer_json(p, now_ms));
    assert(seq![p].map_values(render)[0] == peer_json(p, now_ms));
    if peers.len() > 0 {
        assert(peers_json(peers.push(p), now_ms) =~= peers_json(peers, now_ms).push(',')
            + peer_json(p, now_ms));
    }
}

/// The faces of a peer stand next to each other with exactly one comma between
/// them.
pub proof fn law_faces_are_parted_by_commas(faces: Seq<Seq<char>>, face: Seq<char>)
    ensures
        faces_json(Seq::empty()).len() == 0,
        faces_json(seq![face]) == text::json_string(face),
        faces.len() > 0 ==> faces_json(faces.push(face)) == faces_json(faces).push(',')
            + text::json_string(face),
{
    let render = |f: Seq<char>| text::json_string(f);
    assert(faces.push(face).map_values(render).drop_last() =~= faces.map_values(render));
    assert(faces.push(face).map_values(render).last() == text::json_string(face));
    assert(seq![face].map_values(render)[0] == text::json_string(face));
    if faces.len() > 0 {
        assert(faces_json(faces.push(face)) =~= faces_json(faces).push(',') + text::json_string(
            face,
        ));
    }
}

/// A snapshot forgets the silent peers and nothing else.
pub proof fn law_pruning_keeps_the_presence(st: DiscoveryView, now_ms: int)
    ensures
        pruned(st, now_ms).local_id == st.local_id,
        pruned(st, now_ms).local_label == st.local_label,
        pruned(st, now_ms).peers == fresh_peers(st.peers, now_ms),
        pruned(pruned(st, now_ms), now_ms) == pruned(st, now_ms),
    decreases st.peers.len(),
{
    lemma_fresh_again(st.peers, now_ms);
}

proof fn lemma_fresh_again(peers: Seq<PeerView>, now_ms: int)
    ensures
        fresh_peers(fresh_peers(peers, now_ms), now_ms) == fresh_peers(peers, now_ms),
    decreases peers.len(),
{
    if peers.len() > 0 {
        lemma_fresh_again(peers.drop_last(), now_ms);
        let before = fresh_peers(peers.drop_last(), now_ms);
        assert(before.push(peers.last()).drop_last() =~= before);
    }
}

/// A peer is fresh for half a minute after it was last heard, and what is fresh
/// keeps its order.
pub proof fn law_peers_are_fresh_for_half_a_minute(
    peers: Seq<PeerView>,
    p: PeerView,
    now_ms: int,
)
    ensures
        fresh_peers(Seq::empty(), now_ms).len() == 0,
        now_ms - p.last_seen_ms < 30_000 ==> fresh_peers(peers.push(p), now_ms) == fresh_peers(
            peers,
            now_ms,
        ).push(p),
        now_ms - p.last_seen_ms >= 30_000 ==> fresh_peers(peers.push(p), now_ms) == fresh_peers(
            peers,
            now_ms,
        ),
{
    assert(peers.push(p).drop_last() =~= peers);
}

/// What a sighting leaves in an entry: the latest signal and time, the latest
/// label and address that were told, and every face that the peer was ever heard
/// on.
pub proof fn law_sighting_refreshes_its_entry(st: DiscoveryView, s: Sighting, i: int)
    requires
        table_in_order(st),
        0 <= i < st.peers.len(),
        st.peers[i].id == s.id,
    ensures
        noted(st, s).peers.len() == st.peers.len(),
        noted(st, s).local_id == st.local_id,
        noted(st, s).local_label == st.local_label,
        ({
            let before = st.peers[i];
            let after = noted(st, s).peers[i];
            &&& after.id == s.id
            &&& after.rssi_dbm == s.rssi_dbm
            &&& after.last_seen_ms == s.now_ms
            &&& s.label.len() > 0 ==> after.label == s.label
            &&& s.label.len() == 0 ==> after.label == before.label
            &&& s.infra_addr is Some ==> after.infra_addr == s.infra_addr
            &&& s.infra_addr is None ==> after.infra_addr == before.infra_addr
            &&& forall|face: Seq<char>| #[trigger]
                after.faces.contains(face) <==> before.faces.contains(face) || (s.face.len() > 0
                    && face == s.face)
        }),
{
    lemma_find_peer(st.peers, s.id);
    text::law_with_key_is_sorted(st.peers[i].faces, s.face);
}

/// A peer that is heard for the first time is listed last, with what its sighting
/// told.
pub proof fn law_new_peer_is_listed_last(st: DiscoveryView, s: Sighting)
    requires
        s.id.len() > 0,
        s.id != st.local_id,
        forall|i: int| 0 <= i < st.peers.len() ==> (#[trigger] st.peers[i]).id != s.id,
    ensures
        noted(st, s) == (DiscoveryView {
            peers: st.peers.push(
                PeerView {
                    id: s.id,
                    label: s.label,
                    faces: if s.face.len() > 0 {
                        seq![s.face]
                    } else {
                        Seq::empty()
                    },
                    rssi_dbm: s.rssi_dbm,
                    infra_addr: s.infra_addr,
                    last_seen_ms: s.now_ms,
                },
            ),
            ..st
        }),
{
    lemma_find_peer(st.peers, s.id);
    text::lemma_lower_bound(Seq::empty(), s.face);
    assert(text::with_key(Seq::empty(), s.face) =~= seq![s.face]);
}

/// A node lists neither itself nor a peer without an id.
pub proof fn law_own_beacon_is_ignored(st: DiscoveryView, s: Sighting)
    requires
        s.id.len() == 0 || s.id == st.local_id,
    ensures
        noted(st, s) == st,
{
}

/// A node's own presence, and the table of peers it has heard.
pub struct DiscoveryState {
    local_id: String,
    local_label: String,
    peers: Vec<PeerEntry>,
}

impl View for DiscoveryState {
    type V = DiscoveryView;

    closed spec fn view(&self) -> DiscoveryView {
        DiscoveryView {
            local_id: self.local_id@,
            local_label: self.local_label@,
            peers: peer_views(self.peers@),
        }
    }
}

/// Where the peer with this id stands in the table, if anywhere.
fn find_entry(peers: &Vec<PeerEntry>, id: &str) -> (at: Option<usize>)
    ensures
        match at {
            Some(i) => find_peer(peer_views(peers@), id@) == Some(i as int) && i < peers@.len(),
            None => find_peer(peer_views(peers@), id@) is None,
        },
{
    let ghost table = peer_views(peers@);
    let mut n: usize = peers.len();
    assert(table.take(n as int) =~= table);
    while n > 0
        invariant
            n <= peers@.len(),
            table == peer_views(peers@),
            find_peer(table, id@) == find_peer(table.take(n as int), id@),
        decreases n,
    {
        assert(table.take(n as int).drop_last() =~= table.take(n - 1));
        if text::same(peers[n - 1].id.as_str(), id) {
            return Some(n - 1);
        }
        n = n - 1;
    }
    None
}

/// Applies a sighting to an entry.
fn refresh(
    entry: &mut PeerEntry,
    label: String,
    face: String,
    rssi: i32,
    infra_addr: Option<String>,
    now_ms: u64,
)
    ensures
        final(entry)@ == refreshed(
            old(entry)@,
            Sighting {
                id: old(entry)@.id,
                label: label@,
                face: face@,
                rssi_dbm: rssi as int,
                infra_addr: text::text_view(infra_addr),
                now_ms: now_ms as int,
            },
        ),
{
    if !label.as_str().is_empty() {
        entry.label = label;
    }
    if !face.as_str().is_empty() {
        text::insert_sorted(&mut entry.faces, face);
    }
    if infra_addr.is_some() {
        entry.infra_addr = infra_addr;
    }
    entry.rssi_dbm = rssi;
    entry.last_seen_ms = now_ms;
}

/// How long ago a peer was heard.
fn entry_age(entry: &PeerEntry, now_ms: u64) -> (age: u64)
    ensures
        age == age_ms(entry@, now_ms as int),
{
    if now_ms >= entry.last_seen_ms {
        now_ms - entry.last_seen_ms
    } else {
        0
    }
}

/// Appends the names of a peer's faces.
fn push_faces(out: &mut String, faces: &Vec<String>)
    ensures
        final(out)@ == old(out)@ + faces_json(text::text_views(faces@)),
{
    let ghost start = out@;
    let ghost parts = text::text_views(faces@).map_values(|f: Seq<char>| text::json_string(f));
    let mut j: usize = 0;
    while j < faces.len()
        invariant
            j <= faces@.len(),
            parts == text::text_views(faces@).map_values(|f: Seq<char>| text::json_string(f)),
            out@ == start + text::joined(parts.take(j as int), seq![',']),
        decreases faces@.len() - j,
    {
        proof {
            assert(parts.take(j + 1).drop_last() =~= parts.take(j as int));
        }
        if j > 0 {
            out.push(',');
        }
        text::push_json_str(out, faces[j].as_str());
        j = j + 1;
        proof {
            assert(out@ =~= start + text::joined(parts.take(j as int), seq![',']));
        }
    }
    proof {
        assert(parts.take(j as int) =~= parts);
    }
}

/// Appends one peer as a JSON object.
fn push_peer(out: &mut String, entry: &PeerEntry, now_ms: u64)
    ensures
        final(out)@ == old(out)@ + peer_json(entry@, now_ms as int),
{
    out.append("{\"id\":");
    text::push_json_str(out, entry.id.as_str());
    out.append(",\"label\":");
    text::push_json_str(out, entry.label.as_str());
    out.append(",\"faces\":[");
    push_faces(out, &entry.faces);
    out.append("],\"rssi\":");
    text::push_decimal_int(out, entry.rssi_dbm as i64);
    out.append(",\"age_ms\":");
    text::push_decimal(out, entry_age(entry, now_ms));
    if let Some(addr) = &entry.infra_addr {
        out.append(",\"infra\":");
        text::push_json_str(out, addr.as_str());
    }
    out.push('}');
    proof {
        assert(out@ =~= old(out)@ + peer_json(entry@, now_ms as int));
    }
}

/// Appends the peers as JSON objects with commas between.
fn push_peers(out: &mut String, peers: &Vec<PeerEntry>, now_ms: u64)
    ensures
        final(out)@ == old(out)@ + peers_json(peer_views(peers@), now_ms as int),
{
    let ghost start = out@;
    let ghost now = now_ms as int;
    let ghost parts = peer_views(peers@).map_values(|p: PeerView| peer_json(p, now));
    let mut i: usize = 0;
    while i < peers.len()
        invariant
            i <= peers@.len(),
            now == now_ms as int,
            parts == peer_views(peers@).map_values(|p: PeerView| peer_json(p, now)),
            out@ == start + text::joined(parts.take(i as int), seq![',']),
        decreases peers@.len() - i,
    {
        proof {
            assert(parts.take(i + 1).drop_last() =~= parts.take(i as int));
        }
        if i > 0 {
            out.push(',');
        }
        push_peer(out, &peers[i], now_ms);
        i = i + 1;
        proof {
            assert(out@ =~= start + text::joined(parts.take(i as int), seq![',']));
        }
    }
    proof {
        assert(parts.take(i as int) =~= parts);
    }
}

impl DiscoveryState {
    pub fn new(local_id: String, local_label: String) -> (state: DiscoveryState)
        ensures
            state@ == (DiscoveryView {
                local_id: local_id@,
                local_label: local_label@,
                peers: Seq::<PeerView>::empty(),
            }),
            table_in_order(state@),
    {
        let state = DiscoveryState { local_id, local_label, peers: Vec::new() };
        assert(state@.peers =~= Seq::<PeerView>::empty());
        state
    }

    /// Records, or refreshes, a peer that was heard on `face` at `now_ms`.
    pub fn note_peer(
        &mut self,
        id: String,
        label: String,
        face: String,
        rssi: i32,
        infra_addr: Option<String>,
        now_ms: u64,
    )
        ensures
            final(self)@ == noted(
                old(self)@,
                Sighting {
                    id: id@,
                    label: label@,
                    face: face@,
                    rssi_dbm: rssi as int,
                    infra_addr: text::text_view(infra_addr),
                    now_ms: now_ms as int,
                },
            ),
            table_in_order(old(self)@) ==> table_in_order(final(self)@),
    {
        let ghost s = Sighting {
            id: id@,
            label: label@,
            face: face@,
            rssi_dbm: rssi as int,
            infra_addr: text::text_view(infra_addr),
            now_ms: now_ms as int,
        };
        proof {
            if table_in_order(old(self)@) {
                law_table_stays_in_order(old(self)@, s);
            }
        }
        if id.as_str().is_empty() || text::same(id.as_str(), self.local_id.as_str()) {
            return;
        }
        let ghost table = peer_views(self.peers@);
        match find_entry(&self.peers, id.as_str()) {
            Some(i) => {
                proof {
                    lemma_find_peer(table, id@);
                }
                let mut entry: PeerEntry = self.peers.remove(i);
                refresh(&mut entry, label, face, rssi, infra_addr, now_ms);
                self.peers.insert(i, entry);
                assert(peer_views(self.peers@) =~= table.update(
                    i as int,
                    refreshed(table[i as int], s),
                ));
            },
            None => {
                let first_label: String = label.clone();
                let mut entry: PeerEntry = PeerEntry {
                    id,
                    label: first_label,
                    faces: Vec::new(),
                    rssi_dbm: rssi,
                    infra_addr: None,
                    last_seen_ms: now_ms,
                };
                assert(entry@.faces =~= unheard(s).faces);
                refresh(&mut entry, label, face, rssi, infra_addr, now_ms);
                self.peers.push(entry);
                assert(peer_views(self.peers@) =~= table.push(refreshed(unheard(s), s)));
            },
        }
    }

    /// Drops the peers that have gone silent.
    fn prune(&mut self, now_ms: u64)
        ensures
            final(self)@ == pruned(old(self)@, now_ms as int),
    {
        let ghost table = peer_views(self.peers@);
        let ghost now = now_ms as int;
        let mut entries: Vec<PeerEntry> = Vec::new();
        core::mem::swap(&mut entries, &mut self.peers);
        let ghost all = entries@;
        let mut kept: Vec<PeerEntry> = Vec::new();
        for entry in it: entries
            invariant
                it.seq() == all,
                table == peer_views(all),
                now == now_ms as int,
                peer_views(kept@) == fresh_peers(table.take(it.index()), now),
        {
            proof {
                assert(table.take(it.index() + 1).drop_last() =~= table.take(it.index()));
                assert(table[it.index()] == entry@);
            }
            let ghost before = kept@;
            if entry_age(&entry, now_ms) < PEER_TTL_MS {
                kept.push(entry);
                assert(peer_views(kept@) =~= peer_views(before).push(entry@));
            }
        }
        assert(table.take(all.len() as int) =~= table);
        self.peers = kept;
    }

    /// The dataset at `now_ms`. Peers that have gone silent are dropped first.
    pub fn snapshot_json(&mut self, now_ms: u64) -> (json: String)
        ensures
            final(self)@ == pruned(old(self)@, now_ms as int),
            json@ == dataset_json(final(self)@, now_ms as int),
    {
        self.prune(now_ms);
        let mut out: String = "{\"self\":{\"id\":".to_owned();
        text::push_json_str(&mut out, self.local_id.as_str());
        out.append(",\"label\":");
        text::push_json_str(&mut out, self.local_label.as_str());
        out.append("},\"peers\":[");
        push_peers(&mut out, &self.peers, now_ms);
        out.append("]}");
        out
    }
}

/// The presence of a node that has heard nobody yet.
pub fn new_state(local_id: String, local_label: String) -> (state: DiscoveryState)
    ensures
        state@ == (DiscoveryView {
            local_id: local_id@,
            local_label: local_label@,
            peers: Seq::<PeerView>::empty(),
        }),
        table_in_order(state@),
{
    DiscoveryState::new(local_id, local_label)
}

} // verus!
