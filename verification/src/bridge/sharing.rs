//! What an embedded node and a remote client have in common: the files they
//! share, and the progress of the object they fetch.

use crate::bridge::engine::Features;
use crate::bridge::offer::{
    file_ids, manifest_json, rebuilt, with_offer, without_offer, BoardView, OfferBoard, OfferView,
};
use crate::bridge::types::{ErrorView, NdnError};
use crate::text;
use vstd::prelude::*;

verus! {

/// The board, if one is up, and how far the last fetch has come.
pub ghost struct SharingView {
    pub board: Option<BoardView>,
    pub received: u64,
    pub total: u64,
}

/// Nothing shared, nothing fetched.
pub open spec fn nothing_shared() -> SharingView {
    SharingView { board: None, received: 0, total: 0 }
}

/// Why a file cannot be offered.
pub open spec fn offer_error(st: SharingView, file_id: Seq<char>) -> Option<ErrorView> {
    if st.board is None {
        Some(
            ErrorView::Engine { msg: "offer board not started — call start_offer_board first"@ },
        )
    } else if file_id.len() == 0 {
        Some(ErrorView::Engine { msg: "offer file_id must not be empty"@ })
    } else {
        None
    }
}

/// The board with a file added.
pub open spec fn offered(st: SharingView, e: OfferView) -> SharingView {
    match st.board {
        Some(board) => SharingView {
            board: Some(rebuilt(board, with_offer(board.offers, e))),
            ..st
        },
        None => st,
    }
}

/// Whether a file is offered.
pub open spec fn is_offered(st: SharingView, file_id: Seq<char>) -> bool {
    match st.board {
        Some(board) => text::has_key(file_ids(board.offers), file_id),
        None => false,
    }
}

/// The board with a file taken away, if it was there.
pub open spec fn withdrawn(st: SharingView, file_id: Seq<char>) -> SharingView {
    if is_offered(st, file_id) {
        SharingView {
            board: Some(rebuilt(st.board->0, without_offer(st.board->0.offers, file_id))),
            ..st
        }
    } else {
        st
    }
}

/// The offers as JSON; those of an unnamed node without offers where no board
/// is up.
pub open spec fn offers_text(st: SharingView) -> Seq<char> {
    match st.board {
        Some(board) => manifest_json(board.node, board.offers),
        None => "{\"node\":\"\",\"offers\":[]}"@,
    }
}

/// See [`SharingView`].
pub struct Sharing {
    board: Option<OfferBoard>,
    received: u64,
    total: u64,
}

impl View for Sharing {
    type V = SharingView;

    closed spec fn view(&self) -> SharingView {
        SharingView {
            board: match self.board {
                Some(board) => Some(board@),
                None => None,
            },
            received: self.received,
            total: self.total,
        }
    }
}

impl Sharing {
    pub fn new() -> (sharing: Sharing)
        ensures
            sharing@ == nothing_shared(),
    {
        Sharing { board: None, received: 0, total: 0 }
    }

    /// Puts up a board, given what came of making one, in place of any before.
    pub fn start_offer_board(&mut self, features: Features, board: Result<OfferBoard, NdnError>) -> (
    started: Result<bool, NdnError>)
        ensures
            if !features.identity {
                started is Err && started->Err_0@ == (ErrorView::Engine {
                    msg: "identity feature not enabled in this build"@,
                }) && final(self)@ == old(self)@
            } else {
                match board {
                    Ok(board) => started == Ok::<bool, NdnError>(true) && final(self)@ == (
                    SharingView { board: Some(board@), ..old(self)@ }),
                    Err(error) => started == Err::<bool, NdnError>(error) && final(self)@
                        == old(self)@,
                }
            },
    {
        if !features.identity {
            return Err(NdnError::engine("identity feature not enabled in this build"));
        }
        match board {
            Err(error) => Err(error),
            Ok(board) => {
                self.board = Some(board);
                Ok(true)
            },
        }
    }

    /// Offers a file on the board, which has to be up.
    pub fn add_offer(
        &mut self,
        file_id: String,
        display_name: String,
        mime: String,
        size: u64,
        uri: String,
    ) -> (name: Result<String, NdnError>)
        ensures
            match offer_error(old(self)@, file_id@) {
                Some(error) => name is Err && name->Err_0@ == error && final(self)@ == old(self)@,
                None => name is Ok && name->Ok_0@ == uri@ && final(self)@ == offered(
                    old(self)@,
                    (OfferView {
                        file_id: file_id@,
                        display_name: display_name@,
                        mime: mime@,
                        name: uri@,
                        size: size as nat,
                    }),
                ),
            },
    {
        match self.board.take() {
            None => Err(
                NdnError::engine("offer board not started — call start_offer_board first"),
            ),
            Some(current) => {
                let mut board = current;
                let name: Result<String, NdnError> = board.add_offer(
                    file_id,
                    display_name,
                    mime,
                    size,
                    uri,
                );
                self.board = Some(board);
                name
            },
        }
    }

    /// Stops offering a file, and says whether it was offered.
    pub fn remove_offer(&mut self, file_id: &str) -> (removed: Result<bool, NdnError>)
        ensures
            removed == Ok::<bool, NdnError>(is_offered(old(self)@, file_id@)),
            final(self)@ == withdrawn(old(self)@, file_id@),
    {
        match self.board.take() {
            None => Ok(false),
            Some(current) => {
                let mut board = current;
                let removed: bool = board.remove_offer(file_id);
                self.board = Some(board);
                Ok(removed)
            },
        }
    }

    /// The current offers as JSON.
    pub fn list_offers(&self) -> (json: String)
        ensures
            json@ == offers_text(self@),
    {
        match &self.board {
            Some(board) => board.list_offers(),
            None => "{\"node\":\"\",\"offers\":[]}".to_owned(),
        }
    }

    /// A fetch begins: its progress is counted from zero.
    pub fn begin_fetch(&mut self)
        ensures
            final(self)@ == (SharingView { received: 0, total: 0, ..old(self)@ }),
    {
        self.received = 0;
        self.total = 0;
    }

    /// Progress of the fetch under way.
    pub fn on_fetch_progress(&mut self, received: u64, total: u64)
        ensures
            final(self)@ == (SharingView { received, total, ..old(self)@ }),
    {
        self.received = received;
        self.total = total;
    }

    /// Segments received so far, and segments of the object.
    pub fn progress(&self) -> (progress: (u64, u64))
        ensures
            progress == (self@.received, self@.total),
    {
        (self.received, self.total)
    }
}

/// A file is offered once it was put on the board, every other file stays as it
/// was, and the fetch under way is not touched.
pub proof fn law_added_offer_is_offered(
    st: SharingView,
    board: BoardView,
    e: OfferView,
    other: Seq<char>,
)
    requires
        st.board == Some(board),
        text::strictly_sorted(file_ids(board.offers)),
    ensures
        ({
            let after = offered(st, e);
            &&& after.received == st.received
            &&& after.total == st.total
            &&& after.board matches Some(next) && {
                &&& next.offers.contains(e)
                &&& next.node == board.node
                &&& next.node_prefix == board.node_prefix
                &&& next.identity_prefix == board.identity_prefix
                &&& next.manifests.len() > 0
                &&& next.manifests[0] == manifest_json(board.node, next.offers)
            }
            &&& is_offered(after, e.file_id)
            &&& other != e.file_id ==> (is_offered(after, other) <==> is_offered(st, other))
        }),
{
    let ids = file_ids(board.offers);
    let next = with_offer(board.offers, e);
    text::lemma_lower_bound(ids, e.file_id);
    assert(file_ids(next) =~= text::with_key(ids, e.file_id));
    text::law_with_key_is_sorted(ids, e.file_id);
    text::law_search_is_complete(ids, other);
    text::law_search_is_complete(file_ids(next), other);
    text::law_search_is_complete(file_ids(next), e.file_id);
    assert(text::with_key(ids, e.file_id).contains(e.file_id));
    assert(next[text::lower_bound(ids, e.file_id) as int] == e);
}

/// Withdrawing a file leaves every other one on offer; where it was not on offer
/// nothing changes at all.
pub proof fn law_withdrawal_spares_the_others(
    st: SharingView,
    file_id: Seq<char>,
    other: Seq<char>,
)
    requires
        st.board matches Some(board) ==> text::strictly_sorted(file_ids(board.offers)),
        other != file_id,
    ensures
        is_offered(withdrawn(st, file_id), other) <==> is_offered(st, other),
        !is_offered(st, file_id) ==> withdrawn(st, file_id) == st,
        withdrawn(st, file_id).received == st.received,
        withdrawn(st, file_id).total == st.total,
{
    if is_offered(st, file_id) {
        let ids = file_ids(st.board->0.offers);
        let after = file_ids(without_offer(st.board->0.offers, file_id));
        assert(after =~= text::without_key(ids, file_id));
        text::law_without_key_is_sorted(ids, file_id);
        text::law_search_is_complete(ids, other);
        text::law_search_is_complete(after, other);
    }
}

/// A file can be offered exactly where a board is up and the file has an id; a
/// missing board is told first.
pub proof fn law_offer_needs_board_and_id(st: SharingView, file_id: Seq<char>)
    ensures
        offer_error(st, file_id) is None <==> st.board is Some && file_id.len() > 0,
        st.board is None ==> offer_error(st, file_id) == Some(
            ErrorView::Engine { msg: "offer board not started — call start_offer_board first"@ },
        ),
        st.board is Some && file_id.len() == 0 ==> offer_error(st, file_id) == Some(
            ErrorView::Engine { msg: "offer file_id must not be empty"@ },
        ),
{
}

/// The offers of a node without a board read like those of a board without a
/// name and without files.
pub proof fn law_no_board_lists_nothing(st: SharingView)
    ensures
        st.board is None ==> offers_text(st) == manifest_json(
            Seq::<char>::empty(),
            Seq::<OfferView>::empty(),
        ),
        st.board matches Some(board) ==> offers_text(st) == manifest_json(board.node, board.offers),
{
    let no_parts = Seq::<OfferView>::empty().map_values(
        |e: OfferView| crate::bridge::offer::offer_json(e),
    );
    reveal_strlit("{\"node\":\"\",\"offers\":[]}");
    reveal_strlit("{\"node\":");
    reveal_strlit(",\"offers\":[");
    reveal_strlit("]}");
    assert(text::json_escaped(Seq::<char>::empty()) =~= Seq::<char>::empty());
    assert(text::joined(no_parts, seq![',']) =~= Seq::<char>::empty());
    assert("{\"node\":\"\",\"offers\":[]}"@ =~= manifest_json(
        Seq::<char>::empty(),
        Seq::<OfferView>::empty(),
    ));
}

/// A file that was offered and then withdrawn is offered no longer.
pub proof fn law_withdrawn_offer_is_gone(st: SharingView, file_id: Seq<char>)
    requires
        st.board matches Some(board) ==> text::strictly_sorted(file_ids(board.offers)),
    ensures
        !is_offered(withdrawn(st, file_id), file_id),
{
    if is_offered(st, file_id) {
        let ids = file_ids(st.board->0.offers);
        let after = file_ids(without_offer(st.board->0.offers, file_id));
        assert(after =~= text::without_key(ids, file_id));
        text::law_without_key_is_sorted(ids, file_id);
        text::law_search_is_complete(after, file_id);
    }
}

} // verus!
