//! The offer board: the files a node shares, the manifest that lists them, and
//! the stream that feeds a shared file's content to the node's relay.
//!
//! A board serves its node's certificate and a signed manifest under the node's
//! routable prefix, and each file under the owner's identity. The last few
//! manifests stay servable, so that a reader who began with one of them can
//! finish.

use crate::bridge::discovery::{node_prefix_text, peer_node_prefix};
use crate::bridge::types::{ErrorView, NdnError};
use crate::json_text::{self, Json};
use crate::name::{text_component, ComponentView, Name};
use crate::text;
use vstd::prelude::*;

verus! {

/// Where the raw content of shared files is streamed, inside the device only.
pub const INTERNAL_CONTENT_PREFIX: &'static str = "/localhost/ripple/content";

/// Segment size of shared files.
pub const OFFER_CHUNK: u64 = 8192;

/// How many recent manifests stay servable.
pub const MANIFEST_HISTORY: usize = 6;

/// One shared file.
#[derive(Clone, Debug, PartialEq, Eq)]
pub struct OfferEntry {
    pub file_id: String,
    pub display_name: String,
    pub mime: String,
    /// The URI of the object's name.
    pub name: String,
    pub size: u64,
}

/// An [`OfferEntry`] over mathematical values.
pub ghost struct OfferView {
    pub file_id: Seq<char>,
    pub display_name: Seq<char>,
    pub mime: Seq<char>,
    pub name: Seq<char>,
    pub size: nat,
}

impl View for OfferEntry {
    type V = OfferView;

    open spec fn view(&self) -> OfferView {
        OfferView {
            file_id: self.file_id@,
            display_name: self.display_name@,
            mime: self.mime@,
            name: self.name@,
            size: self.size as nat,
        }
    }
}

/// The offers of a list, each by its view.
pub open spec fn offer_views(list: Seq<OfferEntry>) -> Seq<OfferView> {
    list.map_values(|e: OfferEntry| e@)
}

/// The file ids of a list of offers.
pub open spec fn file_ids(offers: Seq<OfferView>) -> Seq<Seq<char>> {
    offers.map_values(|e: OfferView| e.file_id)
}

/// The offers with `e` in its place, instead of any other with the same id.
pub open spec fn with_offer(offers: Seq<OfferView>, e: OfferView) -> Seq<OfferView> {
    let i = text::lower_bound(file_ids(offers), e.file_id) as int;
    if text::has_key(file_ids(offers), e.file_id) {
        offers.update(i, e)
    } else {
        offers.insert(i, e)
    }
}

/// The offers without the one with this id.
pub open spec fn without_offer(offers: Seq<OfferView>, file_id: Seq<char>) -> Seq<OfferView> {
    if text::has_key(file_ids(offers), file_id) {
        offers.remove(text::lower_bound(file_ids(offers), file_id) as int)
    } else {
        offers
    }
}

/// One offer as a JSON object.
pub open spec fn offer_json(e: OfferView) -> Seq<char> {
    "{\"file_id\":"@ + text::json_string(e.file_id) + ",\"display_name\":"@ + text::json_string(
        e.display_name,
    ) + ",\"mime\":"@ + text::json_string(e.mime) + ",\"size\":"@ + text::decimal(e.size)
        + ",\"name\":"@ + text::json_string(e.name) + seq!['}']
}

/// The manifest: the node's routable prefix and its offers.
pub open spec fn manifest_json(node: Seq<char>, offers: Seq<OfferView>) -> Seq<char> {
    "{\"node\":"@ + text::json_string(node) + ",\"offers\":["@ + text::joined(
        offers.map_values(|e: OfferView| offer_json(e)),
        seq![','],
    ) + "]}"@
}

/// What is kept of a list of versions, newest first, after a new one: it goes
/// in front, and the oldest falls off beyond [`MANIFEST_HISTORY`].
pub open spec fn recent<M>(ring: Seq<M>, newest: M) -> Seq<M> {
    let all = seq![newest] + ring;
    if all.len() > MANIFEST_HISTORY {
        all.take(MANIFEST_HISTORY as int)
    } else {
        all
    }
}

/// Puts `newest` in front of the versions in `ring`, and drops what is too old
/// to be kept.
pub fn keep_recent<M>(ring: &mut Vec<M>, newest: M)
    ensures
        final(ring)@ == recent(old(ring)@, newest),
        final(ring)@[0] == newest,
        final(ring)@.len() == if old(ring)@.len() < 6 {
            old(ring)@.len() + 1
        } else {
            6
        },
        forall|k: int| 1 <= k < final(ring)@.len() ==> #[trigger] final(ring)@[k] == old(ring)@[k - 1],
{
    ring.insert(0, newest);
    assert(ring@ =~= seq![newest] + old(ring)@);
    if ring.len() > MANIFEST_HISTORY {
        ring.truncate(MANIFEST_HISTORY);
    }
    assert(ring@ =~= recent(old(ring)@, newest));
}

/// What a board holds.
pub ghost struct BoardView {
    pub identity_prefix: Seq<ComponentView>,
    pub node_prefix: Seq<ComponentView>,
    /// The URI of the node's prefix.
    pub node: Seq<char>,
    pub offers: Seq<OfferView>,
    /// The recent manifests, newest first.
    pub manifests: Seq<Seq<char>>,
}

/// The board with other offers, and a manifest of them in front.
pub open spec fn rebuilt(st: BoardView, offers: Seq<OfferView>) -> BoardView {
    BoardView {
        offers,
        manifests: recent(st.manifests, manifest_json(st.node, offers)),
        ..st
    }
}

/// The name of a shared file, under the owner's identity.
pub open spec fn object_name_of(st: BoardView, file_id: Seq<char>) -> Seq<ComponentView> {
    st.identity_prefix.push(text_component("file"@)).push(text_component(file_id))
}

/// The name under which a file's raw content is streamed.
pub open spec fn content_name_of(file_id: Seq<char>) -> Seq<ComponentView> {
    seq![
        text_component("localhost"@),
        text_component("ripple"@),
        text_component("content"@),
        text_component(file_id),
    ]
}

/// Whether a board is in order: its offers are sorted by id without duplicates,
/// and between one and [`MANIFEST_HISTORY`] manifests are kept, the newest of
/// which lists the offers as they are.
pub open spec fn board_in_order(st: BoardView) -> bool {
    &&& text::strictly_sorted(file_ids(st.offers))
    &&& 1 <= st.manifests.len() <= MANIFEST_HISTORY
    &&& st.manifests[0] == manifest_json(st.node, st.offers)
}

/// Appends one offer as a JSON object.
fn push_offer(out: &mut String, e: &OfferEntry)
    ensures
        final(out)@ == old(out)@ + offer_json(e@),
{
    out.append("{\"file_id\":");
    text::push_json_str(out, e.file_id.as_str());
    out.append(",\"display_name\":");
    text::push_json_str(out, e.display_name.as_str());
    out.append(",\"mime\":");
    text::push_json_str(out, e.mime.as_str());
    out.append(",\"size\":");
    text::push_decimal(out, e.size);
    out.append(",\"name\":");
    text::push_json_str(out, e.name.as_str());
    out.push('}');
    proof {
        assert(out@ =~= old(out)@ + offer_json(e@));
    }
}

/// Renders the offers as JSON.
pub fn offers_json(node: &str, offers: &Vec<OfferEntry>) -> (json: String)
    ensures
        json@ == manifest_json(node@, offer_views(offers@)),
{
    let mut out: String = "{\"node\":".to_owned();
    text::push_json_str(&mut out, node);
    out.append(",\"offers\":[");
    let ghost start = out@;
    let ghost parts = offer_views(offers@).map_values(|e: OfferView| offer_json(e));
    let mut i: usize = 0;
    while i < offers.len()
        invariant
            i <= offers@.len(),
            parts == offer_views(offers@).map_values(|e: OfferView| offer_json(e)),
            out@ == start + text::joined(parts.take(i as int), seq![',']),
        decreases offers@.len() - i,
    {
        proof {
            assert(parts.take(i + 1).drop_last() =~= parts.take(i as int));
        }
        if i > 0 {
            out.push(',');
        }
        push_offer(&mut out, &offers[i]);
        i = i + 1;
        proof {
            assert(out@ =~= start + text::joined(parts.take(i as int), seq![',']));
        }
    }
    proof {
        assert(parts.take(i as int) =~= parts);
    }
    out.append("]}");
    out
}

/// How many segments a file of `size` bytes has.
pub fn segment_count(size: u64) -> (n: u64)
    ensures
        n == (size + OFFER_CHUNK - 1) / OFFER_CHUNK as int,
        size <= n * 8192 < size + 8192,
{
    let whole: u64 = size / OFFER_CHUNK;
    if size % OFFER_CHUNK == 0 {
        whole
    } else {
        whole + 1
    }
}

/// The board of a node.
pub struct OfferBoard {
    identity_prefix: Name,
    node_prefix: Name,
    node: String,
    offers: Vec<OfferEntry>,
    manifests: Vec<String>,
}

impl View for OfferBoard {
    type V = BoardView;

    closed spec fn view(&self) -> BoardView {
        BoardView {
            identity_prefix: self.identity_prefix@,
            node_prefix: self.node_prefix@,
            node: self.node@,
            offers: offer_views(self.offers@),
            manifests: text::text_views(self.manifests@),
        }
    }
}

impl OfferBoard {
    /// A board without offers for the node `node_id`. `node_prefix` is the name
    /// that the node's routable prefix denotes, with its URI; `None` where it
    /// is not a name.
    pub fn new(
        node_id: &str,
        node_prefix: Option<(Name, String)>,
        identity_prefix: Name,
    ) -> (board: Result<OfferBoard, NdnError>)
        ensures
            match node_prefix {
                None => board is Err && board->Err_0@ == (ErrorView::InvalidName {
                    name: node_prefix_text(node_id@),
                }),
                Some((prefix, uri)) => board is Ok && board->Ok_0@ == (BoardView {
                    identity_prefix: identity_prefix@,
                    node_prefix: prefix@,
                    node: uri@,
                    offers: Seq::empty(),
                    manifests: seq![manifest_json(uri@, Seq::empty())],
                }) && board_in_order(board->Ok_0@),
            },
    {
        match node_prefix {
            None => {
                let prefix: String = peer_node_prefix(node_id);
                Err(NdnError::invalid_name(prefix.as_str()))
            },
            Some((prefix, uri)) => {
                let offers: Vec<OfferEntry> = Vec::new();
                let manifest: String = offers_json(uri.as_str(), &offers);
                let mut manifests: Vec<String> = Vec::new();
                manifests.push(manifest);
                let board = OfferBoard {
                    identity_prefix,
                    node_prefix: prefix,
                    node: uri,
                    offers,
                    manifests,
                };
                assert(offer_views(offers@) =~= Seq::empty());
                assert(text::text_views(manifests@) =~= seq![manifest@]);
                assert(file_ids(board@.offers) =~= Seq::empty());
                Ok(board)
            },
        }
    }

    /// Where the certificate is served.
    pub fn cert_name(&self) -> (name: Name)
        ensures
            name@ == self@.node_prefix.push(text_component("cert"@)),
            name@ == self@.node_prefix.push(
                ComponentView::Generic(vstd::utf8::encode_utf8("cert"@)),
            ),
    {
        self.node_prefix.duplicate().append_str("cert")
    }

    /// Where the manifest is served.
    pub fn manifest_name(&self) -> (name: Name)
        ensures
            name@ == self@.node_prefix.push(text_component("offers"@)),
            name@ == self@.node_prefix.push(
                ComponentView::Generic(vstd::utf8::encode_utf8("offers"@)),
            ),
    {
        self.node_prefix.duplicate().append_str("offers")
    }

    /// The name of a shared file.
    pub fn object_name(&self, file_id: &str) -> (name: Name)
        ensures
            name@ == object_name_of(self@, file_id@),
            name@ == self@.identity_prefix + seq![
                ComponentView::Generic(vstd::utf8::encode_utf8("file"@)),
                ComponentView::Generic(vstd::utf8::encode_utf8(file_id@)),
            ],
    {
        self.identity_prefix.duplicate().append_str("file").append_str(file_id)
    }

    /// The name under which a file's raw content is streamed.
    pub fn content_name(file_id: &str) -> (name: Name)
        ensures
            name@ == content_name_of(file_id@),
            name@ == seq![
                ComponentView::Generic(vstd::utf8::encode_utf8("localhost"@)),
                ComponentView::Generic(vstd::utf8::encode_utf8("ripple"@)),
                ComponentView::Generic(vstd::utf8::encode_utf8("content"@)),
                ComponentView::Generic(vstd::utf8::encode_utf8(file_id@)),
            ],
    {
        let name: Name = Name::root().append_str("localhost").append_str("ripple").append_str(
            "content",
        ).append_str(file_id);
        assert(name@ =~= content_name_of(file_id@));
        name
    }

    /// The current offers as JSON, as the manifest has them.
    pub fn list_offers(&self) -> (json: String)
        ensures
            json@ == manifest_json(self@.node, self@.offers),
    {
        offers_json(self.node.as_str(), &self.offers)
    }

    /// The recent manifests, newest first.
    pub fn manifests(&self) -> (manifests: &Vec<String>)
        ensures
            text::text_views(manifests@) == self@.manifests,
    {
        &self.manifests
    }

    /// Puts a manifest of the current offers in front.
    fn rebuild_manifest(&mut self)
        ensures
            final(self)@ == rebuilt(old(self)@, old(self)@.offers),
    {
        let manifest: String = offers_json(self.node.as_str(), &self.offers);
        let ghost before = text::text_views(self.manifests@);
        keep_recent(&mut self.manifests, manifest);
        assert(text::text_views(self.manifests@) =~= recent(before, manifest@));
    }

    /// Where an offer with this id stands, or would stand.
    fn place_of(&self, file_id: &str) -> (i: usize)
        ensures
            i == text::lower_bound(file_ids(self@.offers), file_id@),
            i <= self.offers@.len(),
    {
        let ghost ids = file_ids(self@.offers);
        let mut i: usize = 0;
        while i < self.offers.len() && text::precedes(self.offers[i].file_id.as_str(), file_id)
            invariant
                i <= self.offers@.len(),
                ids == file_ids(self@.offers),
                ids.len() == self.offers@.len(),
                forall|k: int| 0 <= k < i ==> text::text_lt(#[trigger] ids[k], file_id@),
            decreases self.offers@.len() - i,
        {
            assert(ids[i as int] == self.offers@[i as int].file_id@);
            i = i + 1;
        }
        proof {
            if i < ids.len() {
                assert(ids[i as int] == self.offers@[i as int].file_id@);
            }
            text::lemma_lower_bound_unique(ids, file_id@, i as nat);
        }
        i
    }

    /// Adds, or replaces, an offer, and rebuilds the manifest.
    fn serve_prepared(&mut self, entry: OfferEntry)
        ensures
            final(self)@ == rebuilt(old(self)@, with_offer(old(self)@.offers, entry@)),
    {
        let ghost before = offer_views(self.offers@);
        let i: usize = self.place_of(entry.file_id.as_str());
        if i < self.offers.len() && text::same(
            self.offers[i].file_id.as_str(),
            entry.file_id.as_str(),
        ) {
            assert(file_ids(before)[i as int] == self.offers@[i as int].file_id@);
            self.offers.set(i, entry);
            assert(offer_views(self.offers@) =~= with_offer(before, entry@));
        } else {
            proof {
                if i < self.offers@.len() {
                    assert(file_ids(before)[i as int] == self.offers@[i as int].file_id@);
                }
            }
            self.offers.insert(i, entry);
            assert(offer_views(self.offers@) =~= with_offer(before, entry@));
        }
        self.rebuild_manifest();
    }

    /// Offers a file under `uri`, the URI of its object name: adds it to the
    /// board, or replaces the one with its id. A file needs an id.
    pub fn add_offer(
        &mut self,
        file_id: String,
        display_name: String,
        mime: String,
        size: u64,
        uri: String,
    ) -> (name: Result<String, NdnError>)
        ensures
            file_id@.len() == 0 ==> {
                &&& name is Err
                &&& name->Err_0@ == (ErrorView::Engine { msg: "offer file_id must not be empty"@ })
                &&& final(self)@ == old(self)@
            },
            file_id@.len() > 0 ==> {
                &&& name is Ok
                &&& name->Ok_0@ == uri@
                &&& final(self)@ == rebuilt(
                    old(self)@,
                    with_offer(
                        old(self)@.offers,
                        OfferView {
                            file_id: file_id@,
                            display_name: display_name@,
                            mime: mime@,
                            name: uri@,
                            size: size as nat,
                        },
                    ),
                )
            },
    {
        if file_id.as_str().is_empty() {
            return Err(NdnError::engine("offer file_id must not be empty"));
        }
        let name: String = uri.clone();
        self.serve_prepared(OfferEntry { file_id, display_name, mime, name: uri, size });
        Ok(name)
    }

    /// Stops offering a file, and says whether it was offered. The manifest is
    /// rebuilt only where it was.
    pub fn remove_offer(&mut self, file_id: &str) -> (removed: bool)
        ensures
            removed == text::has_key(file_ids(old(self)@.offers), file_id@),
            final(self)@ == (if removed {
                rebuilt(old(self)@, without_offer(old(self)@.offers, file_id@))
            } else {
                old(self)@
            }),
    {
        let ghost before = offer_views(self.offers@);
        let i: usize = self.place_of(file_id);
        if i < self.offers.len() && text::same(self.offers[i].file_id.as_str(), file_id) {
            assert(file_ids(before)[i as int] == self.offers@[i as int].file_id@);
            let _gone: OfferEntry = self.offers.remove(i);
            assert(offer_views(self.offers@) =~= without_offer(before, file_id@));
            self.rebuild_manifest();
            true
        } else {
            proof {
                if i < self.offers@.len() {
                    assert(file_ids(before)[i as int] == self.offers@[i as int].file_id@);
                }
            }
            false
        }
    }
}

proof fn lemma_ids_after_add(offers: Seq<OfferView>, e: OfferView)
    ensures
        file_ids(with_offer(offers, e)) == text::with_key(file_ids(offers), e.file_id),
{
    text::lemma_lower_bound(file_ids(offers), e.file_id);
    assert(file_ids(with_offer(offers, e)) =~= text::with_key(file_ids(offers), e.file_id));
}

/// Adding a file keeps the board in order.
pub proof fn law_add_keeps_order(st: BoardView, e: OfferView)
    requires
        board_in_order(st),
    ensures
        board_in_order(rebuilt(st, with_offer(st.offers, e))),
{
    lemma_ids_after_add(st.offers, e);
    text::law_with_key_is_sorted(file_ids(st.offers), e.file_id);
}

/// Removing a file keeps the board in order.
pub proof fn law_remove_keeps_order(st: BoardView, file_id: Seq<char>)
    requires
        board_in_order(st),
    ensures
        board_in_order(rebuilt(st, without_offer(st.offers, file_id))),
{
    let ids = file_ids(st.offers);
    let after = file_ids(without_offer(st.offers, file_id));
    text::lemma_lower_bound(ids, file_id);
    if text::has_key(ids, file_id) {
        let n = text::lower_bound(ids, file_id) as int;
        assert(after =~= ids.remove(n));
    }
}

/// A file that was offered is on the board as it was offered, and no other file
/// changes.
pub proof fn law_offer_is_listed(offers: Seq<OfferView>, e: OfferView, other: OfferView)
    requires
        text::strictly_sorted(file_ids(offers)),
        other.file_id != e.file_id,
    ensures
        with_offer(offers, e).contains(e),
        with_offer(offers, e).contains(other) <==> offers.contains(other),
{
    let ids = file_ids(offers);
    let out = with_offer(offers, e);
    let n = text::lower_bound(ids, e.file_id) as int;
    text::lemma_lower_bound(ids, e.file_id);
    assert(out[n] == e);
    if offers.contains(other) {
        let i = offers.index_of(other);
        if text::has_key(ids, e.file_id) {
            assert(ids[i] == other.file_id);
            assert(out[i] == other);
        } else if i < n {
            assert(out[i] == other);
        } else {
            assert(out[i + 1] == other);
        }
    }
    if out.contains(other) {
        let i = out.index_of(other);
        if text::has_key(ids, e.file_id) || i < n {
            assert(offers[i] == other);
        } else {
            assert(offers[i - 1] == other);
        }
    }
}

/// A file that was removed is no longer on the board, and no other file changes.
pub proof fn law_removed_offer_is_gone(
    offers: Seq<OfferView>,
    file_id: Seq<char>,
    other: OfferView,
)
    requires
        text::strictly_sorted(file_ids(offers)),
    ensures
        !file_ids(without_offer(offers, file_id)).contains(file_id),
        other.file_id != file_id ==> (without_offer(offers, file_id).contains(other)
            <==> offers.contains(other)),
{
    let ids = file_ids(offers);
    let out = without_offer(offers, file_id);
    assert(file_ids(out) =~= text::without_key(ids, file_id));
    text::law_without_key_is_sorted(ids, file_id);
    if other.file_id != file_id {
        lemma_others_stay(offers, file_id, other);
    }
}

proof fn lemma_others_stay(offers: Seq<OfferView>, file_id: Seq<char>, other: OfferView)
    requires
        other.file_id != file_id,
    ensures
        without_offer(offers, file_id).contains(other) <==> offers.contains(other),
{
    let ids = file_ids(offers);
    let out = without_offer(offers, file_id);
    let n = text::lower_bound(ids, file_id) as int;
    if text::has_key(ids, file_id) {
        if offers.contains(other) {
            let i = offers.index_of(other);
            assert(ids[i] == other.file_id);
            assert(out[if i < n {
                i
            } else {
                i - 1
            }] == other);
        }
        if out.contains(other) {
            let i = out.index_of(other);
            assert(offers[if i < n {
                i
            } else {
                i + 1
            }] == other);
        }
    }
}

/// The newest manifest is in front, and each of the ones before it stays until
/// [`MANIFEST_HISTORY`] newer ones have come.
pub proof fn law_recent_manifests_stay(ring: Seq<Seq<char>>, manifest: Seq<char>, k: int)
    ensures
        recent(ring, manifest)[0] == manifest,
        0 <= k < ring.len() && k + 1 < MANIFEST_HISTORY ==> recent(ring, manifest)[k + 1] == ring[k],
        recent(ring, manifest).len() == (if ring.len() < MANIFEST_HISTORY {
            ring.len() + 1
        } else {
            MANIFEST_HISTORY as nat
        }),
        recent(ring, manifest).len() == (if ring.len() < 6 {
            ring.len() + 1
        } else {
            6
        }),
        0 <= k < ring.len() && k < 5 ==> recent(ring, manifest).contains(ring[k]),
{
    if 0 <= k < ring.len() && k < 5 {
        assert(recent(ring, manifest)[k + 1] == ring[k]);
    }
}

proof fn lemma_offer_names()
    ensures
        json_text::is_plain("file_id"@),
        json_text::is_plain("display_name"@),
        json_text::is_plain("mime"@),
        json_text::is_plain("size"@),
        json_text::is_plain("name"@),
        json_text::is_plain("node"@),
        json_text::is_plain("offers"@),
        "{\"file_id\":"@ == seq!['{', '"'] + "file_id"@ + seq!['"', ':'],
        ",\"display_name\":"@ == seq![',', '"'] + "display_name"@ + seq!['"', ':'],
        ",\"mime\":"@ == seq![',', '"'] + "mime"@ + seq!['"', ':'],
        ",\"size\":"@ == seq![',', '"'] + "size"@ + seq!['"', ':'],
        ",\"name\":"@ == seq![',', '"'] + "name"@ + seq!['"', ':'],
        "{\"node\":"@ == seq!['{', '"'] + "node"@ + seq!['"', ':'],
        ",\"offers\":["@ == seq![',', '"'] + "offers"@ + seq!['"', ':', '['],
        "]}"@ == seq![']', '}'],
{
    reveal_strlit("file_id");
    reveal_strlit("display_name");
    reveal_strlit("mime");
    reveal_strlit("size");
    reveal_strlit("name");
    reveal_strlit("node");
    reveal_strlit("offers");
    reveal_strlit("{\"file_id\":");
    reveal_strlit(",\"display_name\":");
    reveal_strlit(",\"mime\":");
    reveal_strlit(",\"size\":");
    reveal_strlit(",\"name\":");
    reveal_strlit("{\"node\":");
    reveal_strlit(",\"offers\":[");
    reveal_strlit("]}");
    assert("{\"file_id\":"@ =~= seq!['{', '"'] + "file_id"@ + seq!['"', ':']);
    assert(",\"display_name\":"@ =~= seq![',', '"'] + "display_name"@ + seq!['"', ':']);
    assert(",\"mime\":"@ =~= seq![',', '"'] + "mime"@ + seq!['"', ':']);
    assert(",\"size\":"@ =~= seq![',', '"'] + "size"@ + seq!['"', ':']);
    assert(",\"name\":"@ =~= seq![',', '"'] + "name"@ + seq!['"', ':']);
    assert("{\"node\":"@ =~= seq!['{', '"'] + "node"@ + seq!['"', ':']);
    assert(",\"offers\":["@ =~= seq![',', '"'] + "offers"@ + seq!['"', ':', '[']);
    assert("]}"@ =~= seq![']', '}']);
}

proof fn lemma_offer_denotes(e: OfferView)
    ensures
        json_text::denotes(
            offer_json(e),
            Json::Record(
                seq![
                    ("file_id"@, Json::Text(json_text::shown(e.file_id))),
                    ("display_name"@, Json::Text(json_text::shown(e.display_name))),
                    ("mime"@, Json::Text(json_text::shown(e.mime))),
                    ("size"@, Json::Number(e.size as int)),
                    ("name"@, Json::Text(json_text::shown(e.name))),
                ],
            ),
        ),
{
    let values = seq![
        ("file_id"@, Json::Text(json_text::shown(e.file_id))),
        ("display_name"@, Json::Text(json_text::shown(e.display_name))),
        ("mime"@, Json::Text(json_text::shown(e.mime))),
        ("size"@, Json::Number(e.size as int)),
        ("name"@, Json::Text(json_text::shown(e.name))),
    ];
    let n1 = seq!["file_id"@];
    let p1 = seq![text::json_string(e.file_id)];
    let n2 = n1.push("display_name"@);
    let p2 = p1.push(text::json_string(e.display_name));
    let n3 = n2.push("mime"@);
    let p3 = p2.push(text::json_string(e.mime));
    let n4 = n3.push("size"@);
    let p4 = p3.push(text::decimal(e.size));
    let n5 = n4.push("name"@);
    let p5 = p4.push(text::json_string(e.name));
    lemma_offer_names();
    json_text::lemma_first_member("file_id"@, text::json_string(e.file_id));
    json_text::lemma_next_member(n1, p1, "display_name"@, text::json_string(e.display_name));
    json_text::lemma_next_member(n2, p2, "mime"@, text::json_string(e.mime));
    json_text::lemma_next_member(n3, p3, "size"@, text::decimal(e.size));
    json_text::lemma_next_member(n4, p4, "name"@, text::json_string(e.name));
    json_text::lemma_string_denotes(e.file_id);
    json_text::lemma_string_denotes(e.display_name);
    json_text::lemma_string_denotes(e.mime);
    json_text::lemma_number_denotes(e.size as int);
    json_text::lemma_string_denotes(e.name);
    assert forall|i: int| 0 <= i < p5.len() implies values[i].0 == n5[i] && json_text::is_plain(
        #[trigger] n5[i],
    ) && json_text::denotes(p5[i], values[i].1) by {}
    json_text::lemma_record_denotes(n5, p5, values);
}

/// The manifest is a JSON text that reads back to the board: an object with the
/// node's prefix and an array that has one element for each offer, in order, with
/// the id, the name to show, the type, the size and the object's name of each.
pub proof fn law_manifest_reads_back(node: Seq<char>, offers: Seq<OfferView>)
    ensures
        json_text::parsed(manifest_json(node, offers)) matches Some(Json::Record(top)) && {
            &&& top.len() == 2
            &&& top[0] == ("node"@, Json::Text(json_text::shown(node)))
            &&& top[1].0 == "offers"@
            &&& top[1].1 matches Json::List(listed) && {
                &&& listed.len() == offers.len()
                &&& forall|i: int|
                    0 <= i < offers.len() ==> #[trigger] listed[i] == Json::Record(
                        seq![
                            ("file_id"@, Json::Text(json_text::shown(offers[i].file_id))),
                            ("display_name"@, Json::Text(json_text::shown(offers[i].display_name))),
                            ("mime"@, Json::Text(json_text::shown(offers[i].mime))),
                            ("size"@, Json::Number(offers[i].size as int)),
                            ("name"@, Json::Text(json_text::shown(offers[i].name))),
                        ],
                    )
            }
        },
{
    let parts = offers.map_values(|e: OfferView| offer_json(e));
    let values = Seq::new(
        offers.len(),
        |i: int|
            Json::Record(
                seq![
                    ("file_id"@, Json::Text(json_text::shown(offers[i].file_id))),
                    ("display_name"@, Json::Text(json_text::shown(offers[i].display_name))),
                    ("mime"@, Json::Text(json_text::shown(offers[i].mime))),
                    ("size"@, Json::Number(offers[i].size as int)),
                    ("name"@, Json::Text(json_text::shown(offers[i].name))),
                ],
            ),
    );
    assert forall|i: int| 0 <= i < parts.len() implies json_text::denotes(
        #[trigger] parts[i],
        values[i],
    ) by {
        lemma_offer_denotes(offers[i]);
    }
    json_text::lemma_list_denotes(parts, values);
    let items = text::joined(parts, seq![',']);
    let list = seq!['['] + items + seq![']'];
    let first = text::json_string(node);
    let names = seq!["node"@].push("offers"@);
    let tops = seq![first].push(list);
    let members = seq![("node"@, Json::Text(json_text::shown(node))), ("offers"@, Json::List(values))];
    lemma_offer_names();
    json_text::lemma_string_denotes(node);
    json_text::lemma_record_denotes(names, tops, members);
    json_text::lemma_first_member("node"@, first);
    json_text::lemma_next_member(seq!["node"@], seq![first], "offers"@, list);
    let front = json_text::record_front(seq!["node"@], seq![first]);
    json_text::lemma_list_member(front, "offers"@, items);
    let open_list = front + ",\"offers\":["@ + items;
    assert(open_list + "]}"@ =~= open_list + seq![']'] + seq!['}']);
    json_text::lemma_parsed(json_text::record_front(names, tops) + seq!['}'], Json::Record(members));
}

/// A change of the offers puts their manifest in front of the ones before, which
/// stay as they are; nothing else of the board changes.
pub proof fn law_change_is_announced(st: BoardView, offers: Seq<OfferView>, k: int)
    ensures
        ({
            let after = rebuilt(st, offers);
            &&& after.offers == offers
            &&& after.identity_prefix == st.identity_prefix
            &&& after.node_prefix == st.node_prefix
            &&& after.node == st.node
            &&& after.manifests.len() > 0
            &&& after.manifests[0] == manifest_json(st.node, offers)
            &&& 0 <= k < st.manifests.len() && k < 5 ==> after.manifests[k + 1] == st.manifests[k]
        }),
{
}

/// Two offers stand next to each other in the manifest with exactly one comma
/// between them.
pub proof fn law_offers_are_parted_by_commas(
    node: Seq<char>,
    offers: Seq<OfferView>,
    e: OfferView,
)
    requires
        offers.len() > 0,
    ensures
        manifest_json(node, offers.push(e)) == manifest_json(node, offers).drop_last().drop_last()
            + seq![','] + offer_json(e) + seq![']', '}'],
{
    let render = |e: OfferView| offer_json(e);
    let parts = offers.map_values(render);
    assert(offers.push(e).map_values(render) =~= parts.push(offer_json(e)));
    text::law_joined_parts_are_separated(parts, offer_json(e), seq![',']);
    lemma_offer_names();
    let front = "{\"node\":"@ + text::json_string(node) + ",\"offers\":["@;
    let listed = text::joined(parts, seq![',']);
    assert(manifest_json(node, offers).drop_last().drop_last() =~= front + listed);
    assert(front + (listed + seq![','] + offer_json(e)) + "]}"@ =~= front + listed + seq![',']
        + offer_json(e) + seq![']', '}']);
}

/// The answer comes from the first object that has one: none in front of it has,
/// and there is none only where no object has one.
pub proof fn law_first_answer_wins(answers: Seq<Option<Vec<u8>>>, k: int)
    ensures
        0 <= k < answers.len() && answers[k] is Some && (forall|i: int|
            0 <= i < k ==> #[trigger] answers[i] is None) ==> first_answering(answers)
            == answers[k],
        (forall|i: int| 0 <= i < answers.len() ==> #[trigger] answers[i] is None)
            ==> first_answering(answers) is None,
    decreases answers.len(),
{
    if answers.len() > 0 {
        law_first_answer_wins(answers.skip(1), k - 1);
        assert forall|i: int| 0 <= i < answers.len() - 1 implies #[trigger] answers.skip(1)[i]
            == answers[i + 1] by {}
        if 0 < k < answers.len() && answers[k] is Some && (forall|i: int|
            0 <= i < k ==> #[trigger] answers[i] is None) {
            assert(answers[0] is None);
            assert forall|i: int| 0 <= i < k - 1 implies #[trigger] answers.skip(1)[i] is None by {
                assert(answers[i + 1] is None);
            }
        }
        if forall|i: int| 0 <= i < answers.len() ==> #[trigger] answers[i] is None {
            assert(answers[0] is None);
            assert forall|i: int| 0 <= i < answers.skip(1).len() implies #[trigger] answers.skip(
                1,
            )[i] is None by {
                assert(answers[i + 1] is None);
            }
        }
    }
}

/// Which of several objects answers an Interest: the first that can. Asked
/// newest first, an Interest for a kept version is answered by that version.
pub open spec fn first_answering(answers: Seq<Option<Vec<u8>>>) -> Option<Vec<u8>>
    decreases answers.len(),
{
    if answers.len() == 0 {
        None
    } else if answers[0] is Some {
        answers[0]
    } else {
        first_answering(answers.skip(1))
    }
}

/// The first of `answers` that is one.
pub fn first_answer(answers: Vec<Option<Vec<u8>>>) -> (answer: Option<Vec<u8>>)
    ensures
        answer == first_answering(answers@),
{
    let ghost all = answers@;
    assert(all.skip(0) =~= all);
    for candidate in it: answers
        invariant
            it.seq() == all,
            first_answering(all) == first_answering(all.skip(it.index())),
    {
        proof {
            assert(all.skip(it.index())[0] == candidate);
            assert(all.skip(it.index()).skip(1) =~= all.skip(it.index() + 1));
        }
        if candidate.is_some() {
            return candidate;
        }
    }
    None
}

/// What the stream of a file's content holds.
pub ghost struct StreamView {
    /// The name under which the segments are numbered.
    pub name: Seq<ComponentView>,
    pub last_seg: nat,
    pub next_seg: nat,
    pub budget: nat,
    pub running: bool,
}

/// What an Interest on the content prefix leads to.
#[derive(Clone, Copy, Debug, PartialEq, Eq, Structural)]
pub enum ContentRequest {
    /// It subscribes: budget was granted.
    Granted,
    /// It asks for one segment, which is answered by itself.
    OneShot,
}

/// What the streamer does next.
#[derive(Clone, Debug, PartialEq, Eq)]
pub enum StreamAction {
    /// Publish the segment with this name.
    Send(Name),
    /// Wait for budget.
    AwaitBudget,
    /// Nothing more.
    Done,
}

/// A [`StreamAction`] over mathematical values.
pub ghost enum StreamActionView {
    Send(Seq<ComponentView>),
    AwaitBudget,
    Done,
}

impl View for StreamAction {
    type V = StreamActionView;

    open spec fn view(&self) -> StreamActionView {
        match self {
            StreamAction::Send(name) => StreamActionView::Send(name@),
            StreamAction::AwaitBudget => StreamActionView::AwaitBudget,
            StreamAction::Done => StreamActionView::Done,
        }
    }
}

/// The budget that a subscription grants: at least one segment.
pub open spec fn granted_segments(max_data_count: u32) -> nat {
    if max_data_count == 0 {
        1
    } else {
        max_data_count as nat
    }
}

/// The next step of a stream: one segment for each unit of budget, in order.
pub open spec fn stream_step(st: StreamView) -> (StreamView, StreamActionView) {
    if !st.running || st.next_seg > st.last_seg {
        (st, StreamActionView::Done)
    } else if st.budget == 0 {
        (st, StreamActionView::AwaitBudget)
    } else {
        (
            StreamView { budget: (st.budget - 1) as nat, next_seg: st.next_seg + 1, ..st },
            StreamActionView::Send(st.name.push(ComponentView::Segment(st.next_seg as u64))),
        )
    }
}

/// The stream of an object before anything was granted.
pub open spec fn stream_start(name: Seq<ComponentView>, last_seg: nat) -> StreamView {
    StreamView { name, last_seg, next_seg: 0, budget: 0, running: true }
}

/// Streams the raw segments of a file within the budget that its subscriber
/// grants.
pub struct ContentStream {
    name: Name,
    last_seg: u64,
    next_seg: u64,
    budget: u64,
    running: bool,
}

impl View for ContentStream {
    type V = StreamView;

    closed spec fn view(&self) -> StreamView {
        StreamView {
            name: self.name@,
            last_seg: self.last_seg as nat,
            next_seg: self.next_seg as nat,
            budget: self.budget as nat,
            running: self.running,
        }
    }
}

impl ContentStream {
    /// The stream of an object whose segments are numbered under the versioned
    /// name `name`, up to `last_seg`.
    pub fn new(name: Name, last_seg: u64) -> (stream: ContentStream)
        ensures
            stream@ == stream_start(name@, last_seg as nat),
    {
        ContentStream { name, last_seg, next_seg: 0, budget: 0, running: true }
    }

    /// The unused budget.
    pub fn budget(&self) -> (budget: u64)
        ensures
            budget == self@.budget,
    {
        self.budget
    }

    /// Takes in an Interest, with the count of its subscription request if it
    /// carries one.
    pub fn on_interest(&mut self, max_data_count: Option<u32>) -> (request: ContentRequest)
        requires
            old(self)@.budget + u32::MAX <= u64::MAX,
        ensures
            match max_data_count {
                Some(n) => request == ContentRequest::Granted && final(self)@ == (StreamView {
                    budget: old(self)@.budget + granted_segments(n),
                    ..old(self)@
                }) && final(self)@.budget == old(self)@.budget + if n == 0 {
                    1
                } else {
                    n as int
                },
                None => request == ContentRequest::OneShot && final(self)@ == old(self)@,
            },
    {
        match max_data_count {
            Some(n) => {
                let grant: u64 = if n == 0 {
                    1
                } else {
                    n as u64
                };
                self.budget = self.budget + grant;
                ContentRequest::Granted
            },
            None => ContentRequest::OneShot,
        }
    }

    /// The next step.
    pub fn next(&mut self) -> (action: StreamAction)
        requires
            old(self)@.last_seg < u64::MAX,
        ensures
            (final(self)@, action@) == stream_step(old(self)@),
            action is Send <==> old(self)@.running && old(self)@.budget > 0 && old(self)@.next_seg
                <= old(self)@.last_seg,
            action is AwaitBudget <==> old(self)@.running && old(self)@.budget == 0
                && old(self)@.next_seg <= old(self)@.last_seg,
            action matches StreamAction::Send(name) ==> name@ == old(self)@.name.push(
                ComponentView::Segment(old(self)@.next_seg as u64),
            ) && final(self)@.next_seg == old(self)@.next_seg + 1 && final(self)@.budget
                == old(self)@.budget - 1,
    {
        if !self.running || self.next_seg > self.last_seg {
            return StreamAction::Done;
        }
        if self.budget == 0 {
            return StreamAction::AwaitBudget;
        }
        let seg: u64 = self.next_seg;
        self.budget = self.budget - 1;
        self.next_seg = seg + 1;
        StreamAction::Send(self.name.duplicate().append_segment(seg))
    }

    /// The last segment could not be read or sent: the stream ends.
    pub fn stop(&mut self)
        ensures
            final(self)@ == (StreamView { running: false, ..old(self)@ }),
    {
        self.running = false;
    }
}

/// A granted budget, or a step.
pub ghost enum StreamInput {
    Grant(u32),
    Step,
}

/// A stream after some inputs, and the names of the segments it has sent.
pub open spec fn streamed(
    name: Seq<ComponentView>,
    last_seg: nat,
    inputs: Seq<StreamInput>,
) -> (StreamView, Seq<Seq<ComponentView>>)
    decreases inputs.len(),
{
    if inputs.len() == 0 {
        (stream_start(name, last_seg), Seq::empty())
    } else {
        let (st, sent) = streamed(name, last_seg, inputs.drop_last());
        match inputs.last() {
            StreamInput::Grant(n) => (
                StreamView { budget: st.budget + granted_segments(n), ..st },
                sent,
            ),
            StreamInput::Step => {
                let (next, action) = stream_step(st);
                (
                    next,
                    match action {
                        StreamActionView::Send(segment) => sent.push(segment),
                        _ => sent,
                    },
                )
            },
        }
    }
}

/// All the budget granted by some inputs.
pub open spec fn total_granted(inputs: Seq<StreamInput>) -> nat
    decreases inputs.len(),
{
    if inputs.len() == 0 {
        0
    } else {
        total_granted(inputs.drop_last()) + match inputs.last() {
            StreamInput::Grant(n) => granted_segments(n),
            StreamInput::Step => 0,
        }
    }
}

/// The stream sends the segments of the object in order, each once under its
/// own name, none past the last, and never more than its subscriber has granted.
pub proof fn law_stream_is_in_order(
    name: Seq<ComponentView>,
    last_seg: nat,
    inputs: Seq<StreamInput>,
)
    ensures
        streamed(name, last_seg, inputs).1 == Seq::new(
            streamed(name, last_seg, inputs).1.len(),
            |i: int| name.push(ComponentView::Segment(i as u64)),
        ),
        streamed(name, last_seg, inputs).1.len() <= last_seg + 1,
        streamed(name, last_seg, inputs).1.len() + streamed(name, last_seg, inputs).0.budget
            == total_granted(inputs),
        streamed(name, last_seg, inputs).0.next_seg == streamed(name, last_seg, inputs).1.len(),
        streamed(name, last_seg, inputs).0.last_seg == last_seg,
        streamed(name, last_seg, inputs).0.name == name,
    decreases inputs.len(),
{
    if inputs.len() > 0 {
        law_stream_is_in_order(name, last_seg, inputs.drop_last());
        let after = streamed(name, last_seg, inputs).1;
        assert(after =~= Seq::new(
            after.len(),
            |i: int| name.push(ComponentView::Segment(i as u64)),
        ));
    }
}

/// A subscription counts with exactly the number of segments that it asks for,
/// and with one where it asks for none; it sends nothing by itself.
pub proof fn law_subscription_grants_its_count(
    name: Seq<ComponentView>,
    last_seg: nat,
    inputs: Seq<StreamInput>,
    n: u32,
)
    ensures
        ({
            let before = streamed(name, last_seg, inputs);
            let after = streamed(name, last_seg, inputs.push(StreamInput::Grant(n)));
            &&& n > 0 ==> after.0.budget == before.0.budget + n
            &&& n == 0 ==> after.0.budget == before.0.budget + 1
            &&& after.0 == (StreamView { budget: after.0.budget, ..before.0 })
            &&& after.1 == before.1
        }),
        n > 0 ==> total_granted(inputs.push(StreamInput::Grant(n))) == total_granted(inputs) + n,
        n == 0 ==> total_granted(inputs.push(StreamInput::Grant(n))) == total_granted(inputs) + 1,
{
    assert(inputs.push(StreamInput::Grant(n)).drop_last() =~= inputs);
}

/// As many steps in a row.
pub open spec fn steps(n: nat) -> Seq<StreamInput> {
    Seq::new(n, |i: int| StreamInput::Step)
}

/// A running stream uses its budget up: the next segments go out one by one, in
/// order, until either the budget or the object is at its end, and only then does
/// it wait, or is done.
pub proof fn law_budget_is_used_up(
    name: Seq<ComponentView>,
    last_seg: nat,
    inputs: Seq<StreamInput>,
    n: nat,
)
    requires
        n <= streamed(name, last_seg, inputs).0.budget,
        streamed(name, last_seg, inputs).0.next_seg + n <= last_seg + 1,
    ensures
        ({
            let (st, sent) = streamed(name, last_seg, inputs);
            let (after, all) = streamed(name, last_seg, inputs + steps(n));
            let segments_left = last_seg + 1 - st.next_seg - n;
            &&& all == sent + Seq::new(
                n,
                |k: int| name.push(ComponentView::Segment((st.next_seg + k) as u64)),
            )
            &&& after == (StreamView {
                budget: (st.budget - n) as nat,
                next_seg: st.next_seg + n,
                ..st
            })
            &&& after.running
            &&& stream_step(after).1 is Send <==> n < st.budget && segments_left > 0
            &&& stream_step(after).1 is AwaitBudget <==> n == st.budget && segments_left > 0
            &&& stream_step(after).1 is Done <==> segments_left == 0
        }),
    decreases n,
{
    law_stream_is_in_order(name, last_seg, inputs);
    lemma_stream_runs(name, last_seg, inputs);
    let all = inputs + steps(n);
    if n == 0 {
        assert(all =~= inputs);
    } else {
        law_budget_is_used_up(name, last_seg, inputs, (n - 1) as nat);
        assert(all.drop_last() =~= inputs + steps((n - 1) as nat));
        assert(all.last() == StreamInput::Step);
        let (st, sent) = streamed(name, last_seg, inputs);
        assert(streamed(name, last_seg, all).1 =~= sent + Seq::new(
            n,
            |k: int| name.push(ComponentView::Segment((st.next_seg + k) as u64)),
        ));
    }
}

proof fn lemma_stream_runs(name: Seq<ComponentView>, last_seg: nat, inputs: Seq<StreamInput>)
    ensures
        streamed(name, last_seg, inputs).0.running,
    decreases inputs.len(),
{
    if inputs.len() > 0 {
        lemma_stream_runs(name, last_seg, inputs.drop_last());
    }
}

/// A stream that was stopped sends nothing any more, whatever budget it is
/// granted.
pub proof fn law_stopped_stream_is_done(st: StreamView, budget: nat)
    requires
        !st.running,
    ensures
        stream_step(StreamView { budget, ..st }) == (
            StreamView { budget, ..st },
            StreamActionView::Done,
        ),
{
}

} // verus!
