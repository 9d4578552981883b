//! The seam to a Wi-Fi Aware radio: follow-up frames, and a bounded buffer of
//! the peers that were discovered.

use crate::bridge::radio::{address_of, address_view, link_address, signal_strength};
use vstd::prelude::*;

verus! {

/// How many discovered peers are kept until somebody asks for them.
pub const MATCH_BUFFER_CAP: usize = 64;

/// How many follow-ups wait for the face; frames beyond this are dropped.
pub const FOLLOWUP_QUEUE_CAP: usize = 256;

/// The platform's Wi-Fi Aware radio.
pub trait NdnNanBackend: Send + Sync {
    /// Sends `frame` to every peer that is matched right now.
    fn broadcast(&self, frame: Vec<u8>);

    /// Advertises a service.
    fn publish(&self, service: String);

    /// Looks for peers that advertise a service.
    fn subscribe(&self, service: String);
}

/// One received follow-up.
#[derive(Clone, Debug, PartialEq, Eq)]
pub struct FollowupFrame {
    pub frame: Vec<u8>,
    pub peer: Option<[u8; 6]>,
    pub rssi_dbm: Option<i8>,
}

/// A follow-up as the radio reports it.
pub fn followup_frame(frame: Vec<u8>, peer: &Vec<u8>, rssi: i32) -> (followup: FollowupFrame)
    ensures
        followup.frame == frame,
        address_view(followup.peer) == address_of(peer@),
        followup.rssi_dbm is Some <==> rssi != 0 && -128 <= rssi <= 127,
        followup.rssi_dbm matches Some(dbm) ==> dbm == rssi,
{
    FollowupFrame { frame, peer: link_address(peer), rssi_dbm: signal_strength(rssi) }
}

/// A peer that advertises a service.
#[derive(Clone, Debug, PartialEq, Eq)]
pub struct NanMatch {
    pub service: String,
    pub peer: [u8; 6],
}

/// A [`NanMatch`] with its fields as sequences.
pub ghost struct MatchView {
    pub service: Seq<char>,
    pub peer: Seq<u8>,
}

impl View for NanMatch {
    type V = MatchView;

    open spec fn view(&self) -> MatchView {
        MatchView { service: self.service@, peer: self.peer@ }
    }
}

pub open spec fn match_views(list: Seq<NanMatch>) -> Seq<MatchView> {
    list.map_values(|m: NanMatch| m@)
}

/// The buffer after one more discovery: the oldest makes room.
pub open spec fn with_match(list: Seq<MatchView>, m: MatchView) -> Seq<MatchView> {
    if list.len() >= MATCH_BUFFER_CAP {
        list.skip(1).push(m)
    } else {
        list.push(m)
    }
}

/// The buffer after a report. What does not come from an address is ignored.
pub open spec fn after_report(list: Seq<MatchView>, report: MatchView) -> Seq<MatchView> {
    if report.peer.len() == 6 {
        with_match(list, report)
    } else {
        list
    }
}

/// The buffer after a series of reports.
pub open spec fn after_reports(reports: Seq<MatchView>) -> Seq<MatchView>
    decreases reports.len(),
{
    if reports.len() == 0 {
        Seq::empty()
    } else {
        after_report(after_reports(reports.drop_last()), reports.last())
    }
}

/// The reports that come from an address.
pub open spec fn addressed(reports: Seq<MatchView>) -> Seq<MatchView> {
    reports.filter(|m: MatchView| m.peer.len() == 6)
}

/// The last `n` of a list.
pub open spec fn newest(list: Seq<MatchView>, n: nat) -> Seq<MatchView> {
    if list.len() <= n {
        list
    } else {
        list.skip(list.len() - n)
    }
}

/// Whatever is reported, the buffer holds the newest discoveries in the order
/// they came, and never more than its capacity.
pub proof fn law_newest_matches_stay(reports: Seq<MatchView>)
    ensures
        after_reports(reports) == newest(addressed(reports), MATCH_BUFFER_CAP as nat),
        after_reports(reports).len() <= MATCH_BUFFER_CAP,
    decreases reports.len(),
{
    let keep = |m: MatchView| m.peer.len() == 6;
    if reports.len() == 0 {
        reveal(Seq::filter);
        assert(addressed(reports) =~= Seq::empty());
    } else {
        let before = reports.drop_last();
        let m = reports.last();
        law_newest_matches_stay(before);
        let kept = addressed(before);
        assert(addressed(reports) =~= if keep(m) {
            kept.push(m)
        } else {
            kept
        }) by {
            reveal(Seq::filter);
        }
        if keep(m) {
            assert(with_match(newest(kept, MATCH_BUFFER_CAP as nat), m) =~= newest(
                kept.push(m),
                MATCH_BUFFER_CAP as nat,
            ));
        }
    }
}

/// The buffer holds the last sixty-four discoveries at most, each as it was
/// reported and in the order of the reports, and what does not come from an
/// address never gets in.
pub proof fn law_last_matches_are_kept(reports: Seq<MatchView>, report: MatchView)
    ensures
        ({
            let held = after_reports(reports);
            let next = after_reports(reports.push(report));
            &&& held.len() <= 64
            &&& report.peer.len() != 6 ==> next == held
            &&& report.peer.len() == 6 && held.len() < 64 ==> next == held.push(report)
            &&& report.peer.len() == 6 && held.len() == 64 ==> {
                &&& next.len() == 64
                &&& next[63] == report
                &&& forall|i: int| 0 <= i < 63 ==> #[trigger] next[i] == held[i + 1]
            }
        }),
        after_reports(Seq::empty()).len() == 0,
{
    law_newest_matches_stay(reports);
    assert(reports.push(report).drop_last() =~= reports);
}

/// The discovered peers that nobody has asked for yet.
pub struct NanSeam {
    matches: Vec<NanMatch>,
}

impl View for NanSeam {
    type V = Seq<MatchView>;

    closed spec fn view(&self) -> Seq<MatchView> {
        match_views(self.matches@)
    }
}

impl NanSeam {
    pub fn new() -> (seam: NanSeam)
        ensures
            seam@ == Seq::<MatchView>::empty(),
    {
        let seam = NanSeam { matches: Vec::new() };
        assert(seam@ =~= Seq::<MatchView>::empty());
        seam
    }

    /// Notes that `peer` advertises `service`.
    pub fn on_match(&mut self, service: String, peer: &Vec<u8>)
        ensures
            final(self)@ == after_report(
                old(self)@,
                (MatchView { service: service@, peer: peer@ }),
            ),
    {
        let ghost before = self@;
        match link_address(peer) {
            None => {},
            Some(addr) => {
                let found = NanMatch { service, peer: addr };
                let ghost m = found@;
                if self.matches.len() >= MATCH_BUFFER_CAP {
                    let _oldest: NanMatch = self.matches.remove(0);
                    assert(match_views(self.matches@) =~= before.skip(1));
                }
                self.matches.push(found);
                assert(self@ =~= with_match(before, m));
            },
        }
    }

    /// Hands out the discovered peers, once.
    pub fn drain_matches(&mut self) -> (matches: Vec<NanMatch>)
        ensures
            match_views(matches@) == old(self)@,
            matches@.len() == old(self)@.len(),
            forall|i: int|
                0 <= i < matches@.len() ==> (#[trigger] matches@[i]).service@ == old(
                    self,
                )@[i].service && matches@[i].peer@ == old(self)@[i].peer,
            final(self)@ == Seq::<MatchView>::empty(),
    {
        let mut matches: Vec<NanMatch> = Vec::new();
        core::mem::swap(&mut matches, &mut self.matches);
        assert(self@ =~= Seq::<MatchView>::empty());
        matches
    }
}

} // verus!
