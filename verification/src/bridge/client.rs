//! A client of a forwarder in another process: it fetches and shares over one
//! connection and keeps no forwarding state.

use crate::bridge::engine::Features;
use crate::bridge::offer::{OfferBoard, OfferView};
use crate::bridge::sharing::{
    is_offered, nothing_shared, offer_error, offered, offers_text, withdrawn, Sharing, SharingView,
};
use crate::bridge::types::{ErrorView, NdnError};
use vstd::prelude::*;

verus! {

/// How the window of an object fetch grows.
#[derive(Clone, Copy, Debug, PartialEq, Eq, Structural)]
pub enum CongestionStrategy {
    Aimd,
    Cubic,
}

/// What a client keeps.
pub ghost struct ClientView {
    pub sharing: SharingView,
    pub strategy: CongestionStrategy,
}

/// See [`ClientView`].
pub struct NdnClient {
    sharing: Sharing,
    strategy: CongestionStrategy,
}

impl View for NdnClient {
    type V = ClientView;

    closed spec fn view(&self) -> ClientView {
        ClientView { sharing: self.sharing@, strategy: self.strategy }
    }
}

impl NdnClient {
    /// A client on a fresh connection.
    pub fn new() -> (client: NdnClient)
        ensures
            client@ == (ClientView {
                sharing: nothing_shared(),
                strategy: CongestionStrategy::Aimd,
            }),
    {
        NdnClient { sharing: Sharing::new(), strategy: CongestionStrategy::Aimd }
    }

    /// Selects how the next object fetches are paced. `parsed` is the strategy
    /// that was named, if it is one.
    pub fn set_congestion_strategy(&mut self, parsed: Option<CongestionStrategy>) -> (set: Result<
        bool,
        NdnError,
    >)
        ensures
            match parsed {
                Some(strategy) => set == Ok::<bool, NdnError>(true) && final(self)@ == (
                ClientView { strategy, ..old(self)@ }),
                None => set is Err && set->Err_0@ == (ErrorView::Engine {
                    msg: "congestion strategy must be 'aimd' or 'cubic'"@,
                }) && final(self)@ == old(self)@,
            },
    {
        match parsed {
            Some(strategy) => {
                self.strategy = strategy;
                Ok(true)
            },
            None => Err(NdnError::engine("congestion strategy must be 'aimd' or 'cubic'")),
        }
    }

    /// How object fetches are paced.
    pub fn congestion_strategy(&self) -> (strategy: CongestionStrategy)
        ensures
            strategy == self@.strategy,
    {
        self.strategy
    }

    /// See [`Sharing::start_offer_board`].
    pub fn start_offer_board(&mut self, features: Features, board: Result<OfferBoard, NdnError>) -> (
    started: Result<bool, NdnError>)
        ensures
            final(self)@.strategy == old(self)@.strategy,
            if !features.identity {
                started is Err && started->Err_0@ == (ErrorView::Engine {
                    msg: "identity feature not enabled in this build"@,
                }) && final(self)@.sharing == old(self)@.sharing
            } else {
                match board {
                    Ok(board) => started == Ok::<bool, NdnError>(true) && final(self)@.sharing == (
                    SharingView { board: Some(board@), ..old(self)@.sharing }),
                    Err(error) => started == Err::<bool, NdnError>(error) && final(self)@.sharing
                        == old(self)@.sharing,
                }
            },
    {
        self.sharing.start_offer_board(features, board)
    }

    /// Offers a file on the board, which has to be up.
    pub fn add_offer(
        &mut self,
        file_id: String,
        display_name: String,
        mime: String,
        size: u64,
        uri: String,
    ) -> (name: Result<String, NdnError>)
        ensures
            match offer_error(old(self)@.sharing, file_id@) {
                Some(error) => name is Err && name->Err_0@ == error && final(self)@ == old(self)@,
                None => name is Ok && name->Ok_0@ == uri@ && final(self)@ == (ClientView {
                    sharing: offered(
                        old(self)@.sharing,
                        OfferView {
                            file_id: file_id@,
                            display_name: display_name@,
                            mime: mime@,
                            name: uri@,
                            size: size as nat,
                        },
                    ),
                    ..old(self)@
                }),
            },
    {
        self.sharing.add_offer(file_id, display_name, mime, size, uri)
    }

    /// Stops offering a file, and says whether it was offered.
    pub fn remove_offer(&mut self, file_id: &str) -> (removed: Result<bool, NdnError>)
        ensures
            removed == Ok::<bool, NdnError>(is_offered(old(self)@.sharing, file_id@)),
            final(self)@ == (ClientView {
                sharing: withdrawn(old(self)@.sharing, file_id@),
                ..old(self)@
            }),
    {
        self.sharing.remove_offer(file_id)
    }

    /// The current offers as JSON.
    pub fn list_offers(&self) -> (json: String)
        ensures
            json@ == offers_text(self@.sharing),
    {
        self.sharing.list_offers()
    }

    /// A fetch begins: its progress is counted from zero.
    pub fn begin_fetch(&mut self)
        ensures
            final(self)@ == (ClientView {
                sharing: SharingView { received: 0, total: 0, ..old(self)@.sharing },
                ..old(self)@
            }),
    {
        self.sharing.begin_fetch();
    }

    /// Progress of the fetch under way.
    pub fn on_fetch_progress(&mut self, received: u64, total: u64)
        ensures
            final(self)@ == (ClientView {
                sharing: SharingView { received, total, ..old(self)@.sharing },
                ..old(self)@
            }),
    {
        self.sharing.on_fetch_progress(received, total);
    }

    /// Segments received so far.
    pub fn fetch_progress_received(&self) -> (n: u64)
        ensures
            n == self@.sharing.received,
    {
        self.sharing.progress().0
    }

    /// Segments of the object being fetched; zero until that is known.
    pub fn fetch_progress_total(&self) -> (n: u64)
        ensures
            n == self@.sharing.total,
    {
        self.sharing.progress().1
    }
}

} // verus!
