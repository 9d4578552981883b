use ndn_mobile::mobile::object_relay::{
    backward_refetch, stale_at, DemandAction, ObjectRelay, Refetch, RefetchAction, RefetchEvent,
    RelayAction, RelayEvent, SEGMENT_FRESHNESS_NS,
};
use ndn_mobile::name::{Component, Name};

fn segment(prefix: &str, seg: u64) -> Name {
    Name::root().append_str(prefix).append_component(Component::Segment(seg))
}

fn relay(last_seg: u64, lookahead: u64) -> ObjectRelay {
    ObjectRelay::new(Name::root().append_str("pub"), last_seg, lookahead)
}

fn data(seg: u64, content: &[u8]) -> RelayEvent {
    RelayEvent::Data { name: segment("src", seg), content: Some(content.to_vec()) }
}

#[test]
fn relay_starts_on_the_first_demand_only() {
    let mut relay = relay(9, 2);
    assert_eq!(relay.on_interest(true, &Name::root()), DemandAction::Metadata);
    assert_eq!(relay.on_interest(false, &Name::root()), DemandAction::Ignore);
    assert_eq!(relay.on_event(RelayEvent::DemandMoved), RelayAction::Wait);
    assert_eq!(
        relay.on_interest(false, &segment("pub", 0)),
        DemandAction::Segment { seg: 0, start_relay: true, refetch: None }
    );
    assert_eq!(
        relay.on_interest(false, &segment("pub", 1)),
        DemandAction::Segment { seg: 1, start_relay: false, refetch: None }
    );
}

#[test]
fn relay_signs_in_order_and_keeps_its_lead() {
    let mut relay = relay(9, 2);
    relay.on_interest(false, &segment("pub", 0));
    assert_eq!(relay.on_event(RelayEvent::Subscribed(true)), RelayAction::Read);
    for seg in 0..3u64 {
        assert_eq!(
            relay.on_event(data(seg, &[seg as u8])),
            RelayAction::Sign { name: segment("pub", seg), content: vec![seg as u8] }
        );
        assert_eq!(
            relay.on_event(RelayEvent::Signed(Some(vec![9, seg as u8]))),
            RelayAction::Serve { name: segment("pub", seg), wire: vec![9, seg as u8] }
        );
        // Three produced, demand at 0, lookahead 2: far enough ahead.
        let next = if seg < 2 { RelayAction::Read } else { RelayAction::AwaitDemand };
        assert_eq!(relay.on_event(RelayEvent::Served), next);
    }
    assert_eq!(relay.on_event(RelayEvent::DemandMoved), RelayAction::AwaitDemand);
    relay.on_interest(false, &segment("pub", 1));
    assert_eq!(relay.on_event(RelayEvent::DemandMoved), RelayAction::Read);
    // What the relay has passed is fetched again from where the source keeps it.
    assert_eq!(
        relay.on_interest(false, &segment("pub", 0)),
        DemandAction::Segment {
            seg: 0,
            start_relay: false,
            refetch: Some(Refetch { source: segment("src", 0), public: segment("pub", 0) }),
        }
    );
}

#[test]
fn relay_resumes_after_failures() {
    let mut relay = relay(3, 0);
    relay.on_interest(false, &segment("pub", 0));
    assert_eq!(relay.on_event(RelayEvent::Subscribed(false)), RelayAction::Pause);
    assert_eq!(relay.on_event(RelayEvent::Resumed), RelayAction::Subscribe);
    assert_eq!(relay.on_event(RelayEvent::Subscribed(true)), RelayAction::Read);
    assert_eq!(
        relay.on_event(RelayEvent::Data { name: Name::root(), content: None }),
        RelayAction::Read
    );
    assert_eq!(
        relay.on_event(RelayEvent::Data { name: segment("src", 0), content: None }),
        RelayAction::Sign { name: segment("pub", 0), content: Vec::new() }
    );
    assert_eq!(relay.on_event(RelayEvent::Signed(None)), RelayAction::Read);
    assert_eq!(relay.on_event(RelayEvent::ReceiveFailed), RelayAction::Subscribe);
    assert_eq!(relay.on_event(RelayEvent::Cancelled), RelayAction::Stop);
    assert_eq!(relay.on_event(RelayEvent::Subscribed(true)), RelayAction::Stop);
}

#[test]
fn refetch_serves_only_what_was_fetched_and_signed() {
    let refetch = Refetch { source: segment("src", 4), public: segment("pub", 4) };
    let step = |event: RefetchEvent| backward_refetch(&refetch, event);
    assert_eq!(
        step(RefetchEvent::Fetched(Some(vec![1]))),
        RefetchAction::Sign { name: segment("pub", 4), content: vec![1] }
    );
    assert_eq!(
        step(RefetchEvent::Fetched(None)),
        RefetchAction::Sign { name: segment("pub", 4), content: Vec::new() }
    );
    assert_eq!(step(RefetchEvent::FetchFailed), RefetchAction::Drop);
    assert_eq!(
        step(RefetchEvent::Signed(vec![2])),
        RefetchAction::Serve { name: segment("pub", 4), wire: vec![2] }
    );
    assert_eq!(step(RefetchEvent::SignFailed), RefetchAction::Drop);
    assert_eq!(stale_at(5), 5 + SEGMENT_FRESHNESS_NS);
}
