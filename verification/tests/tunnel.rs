use ndn_mobile::mobile::tun::{
    data_name, granted_credit, l4_ports, parse_ip_flow, Downlink, DownlinkAction, DownlinkEvent,
    IpAddr, TunClosed, TunConfig, Uplink, UplinkAction, UplinkEvent,
};
use ndn_mobile::name::{Component, Name};

fn name(text: &str) -> Name {
    let mut n = Name::root();
    for part in text.split('/').filter(|p| !p.is_empty()) {
        n = n.append_str(part);
    }
    n
}

fn segment(prefix: &str, seg: u64) -> Name {
    name(prefix).append_component(Component::Segment(seg))
}

#[test]
fn parse_ipv4_udp_flow() {
    let mut pkt = vec![0u8; 28];
    pkt[0] = 0x45; // v4, IHL=5
    pkt[9] = 17; // UDP
    pkt[12..16].copy_from_slice(&[1, 2, 3, 4]);
    pkt[16..20].copy_from_slice(&[5, 6, 7, 8]);
    pkt[20..22].copy_from_slice(&5000u16.to_be_bytes());
    pkt[22..24].copy_from_slice(&53u16.to_be_bytes());
    let f = parse_ip_flow(&pkt).unwrap();
    assert_eq!(f.version, 4);
    assert_eq!(f.protocol, 17);
    assert_eq!(f.src_port, 5000);
    assert_eq!(f.dst_port, 53);
    assert_eq!(f.src, IpAddr::V4([1, 2, 3, 4]));
    assert_eq!(f.dst, IpAddr::V4([5, 6, 7, 8]));
}

#[test]
fn parse_rejects_truncated_and_nonip() {
    assert!(parse_ip_flow(&[]).is_none());
    assert!(parse_ip_flow(&[0x45, 0x00]).is_none());
    assert!(parse_ip_flow(&[0x00]).is_none());
}

#[test]
fn config_credit_floor_is_one() {
    let c = TunConfig::new(name("/vpn/self"), name("/vpn/peer")).credit(0);
    assert_eq!(c.credit, 1);
}

#[test]
fn config_defaults_and_setters() {
    let c = TunConfig::new(name("/a"), name("/b"));
    assert_eq!((c.credit, c.lifetime_ms), (4096, 300_000));
    let c = c.credit(7).lifetime(5);
    assert_eq!((c.credit, c.lifetime_ms), (7, 5));
    assert_eq!((c.self_prefix, c.peer_prefix), (name("/a"), name("/b")));
    assert_eq!(TunClosed.message(), "tun datapath closed");
}

#[test]
fn parse_needs_all_that_the_header_claims() {
    let mut pkt = vec![0u8; 20];
    pkt[0] = 0x4F; // claims sixty bytes
    pkt[9] = 17;
    assert_eq!(parse_ip_flow(&pkt), None);
    pkt.resize(59, 0);
    assert_eq!(parse_ip_flow(&pkt), None);
    pkt.resize(64, 0);
    pkt[61] = 7;
    pkt[63] = 8;
    let f = parse_ip_flow(&pkt).unwrap();
    assert_eq!((f.src_port, f.dst_port), (7, 8));
    pkt[0] = 0x44; // claims sixteen bytes
    pkt[17] = 5;
    pkt[19] = 6;
    let f = parse_ip_flow(&pkt).unwrap();
    assert_eq!((f.src_port, f.dst_port), (5, 6));
    assert_eq!(parse_ip_flow(&pkt[..19]), None);
    let mut short = vec![0u8; 20];
    short[0] = 0x45;
    short[9] = 17;
    assert_eq!(parse_ip_flow(&short).map(|f| (f.src_port, f.dst_port)), Some((0, 0)));
    assert_eq!(parse_ip_flow(&short[..19]), None);
}

#[test]
fn parse_ipv6_tcp_flow() {
    let mut pkt = vec![0u8; 44];
    pkt[0] = 0x60;
    pkt[6] = 6;
    pkt[23] = 1;
    pkt[39] = 2;
    pkt[40..44].copy_from_slice(&[0, 80, 1, 0]);
    let f = parse_ip_flow(&pkt).unwrap();
    let mut src = [0u8; 16];
    src[15] = 1;
    let mut dst = [0u8; 16];
    dst[15] = 2;
    assert_eq!((f.version, f.protocol), (6, 6));
    assert_eq!((f.src, f.dst), (IpAddr::V6(src), IpAddr::V6(dst)));
    assert_eq!((f.src_port, f.dst_port), (80, 256));
    assert!(parse_ip_flow(&pkt[..39]).is_none());
}

#[test]
fn ports_need_tcp_or_udp_and_four_bytes() {
    assert_eq!(l4_ports(17, &[0, 1, 0, 2], 0), (1, 2));
    assert_eq!(l4_ports(6, &[9, 0, 1, 0, 2], 1), (1, 2));
    assert_eq!(l4_ports(1, &[0, 1, 0, 2], 0), (0, 0));
    assert_eq!(l4_ports(17, &[0, 1, 0], 0), (0, 0));
    assert_eq!(l4_ports(17, &[0, 1, 0, 2], 9), (0, 0));
}

#[test]
fn uplink_publishes_within_the_budget_and_in_order() {
    assert_eq!(granted_credit(None), 1);
    assert_eq!(granted_credit(Some(0)), 0);
    let mut up = Uplink::new(name("/vpn/self"));
    assert_eq!(up.on_event(UplinkEvent::Outbound(Some(vec![1]))), UplinkAction::AwaitBudget);
    assert!(up.is_waiting());
    // A second packet while one waits is not taken in.
    assert_eq!(up.on_event(UplinkEvent::Outbound(Some(vec![9]))), UplinkAction::AwaitBudget);
    assert_eq!(
        up.on_event(UplinkEvent::Interest(Some(2))),
        UplinkAction::Publish { name: segment("/vpn/self", 0), packet: vec![1] }
    );
    assert_eq!(up.budget(), 1);
    assert_eq!(
        up.on_event(UplinkEvent::Outbound(Some(vec![2]))),
        UplinkAction::Publish { name: segment("/vpn/self", 1), packet: vec![2] }
    );
    assert_eq!(up.on_event(UplinkEvent::Outbound(Some(vec![3]))), UplinkAction::AwaitBudget);
    assert_eq!(
        up.on_event(UplinkEvent::Interest(None)),
        UplinkAction::Publish { name: segment("/vpn/self", 2), packet: vec![3] }
    );
    assert_eq!(up.next_seq(), 3);
    assert_eq!(data_name(name("/vpn/self"), 3), segment("/vpn/self", 3));
    assert_eq!(up.on_event(UplinkEvent::Interest(None)), UplinkAction::ReadPacket);
    assert_eq!(up.on_event(UplinkEvent::PublishFailed), UplinkAction::Stop);
    assert_eq!(up.on_event(UplinkEvent::Outbound(Some(vec![4]))), UplinkAction::Stop);
}

#[test]
fn uplink_stops_with_either_side() {
    let mut up = Uplink::new(name("/vpn/self"));
    assert_eq!(up.on_event(UplinkEvent::Outbound(None)), UplinkAction::Stop);
    let mut up = Uplink::new(name("/vpn/self"));
    assert_eq!(up.on_event(UplinkEvent::Cancelled), UplinkAction::Stop);
    assert_eq!(up.on_event(UplinkEvent::Interest(Some(5))), UplinkAction::Stop);
}

#[test]
fn downlink_resubscribes_after_failures() {
    let mut down = Downlink::new();
    assert_eq!(down.on_event(DownlinkEvent::Subscribed(false)), DownlinkAction::Pause);
    assert_eq!(down.on_event(DownlinkEvent::Resumed), DownlinkAction::Subscribe);
    assert_eq!(down.on_event(DownlinkEvent::Subscribed(true)), DownlinkAction::Receive);
    assert_eq!(down.on_event(DownlinkEvent::Data(None)), DownlinkAction::Receive);
    assert_eq!(
        down.on_event(DownlinkEvent::Data(Some(vec![1, 2]))),
        DownlinkAction::Deliver(vec![1, 2])
    );
    assert_eq!(down.on_event(DownlinkEvent::Delivered(true)), DownlinkAction::Receive);
    assert_eq!(down.on_event(DownlinkEvent::ReceiveFailed), DownlinkAction::Pause);
    assert_eq!(down.on_event(DownlinkEvent::Resumed), DownlinkAction::Subscribe);
    assert_eq!(down.on_event(DownlinkEvent::Subscribed(true)), DownlinkAction::Receive);
    down.on_event(DownlinkEvent::Data(Some(vec![3])));
    assert_eq!(down.on_event(DownlinkEvent::Delivered(false)), DownlinkAction::Stop);
    assert_eq!(down.on_event(DownlinkEvent::Resumed), DownlinkAction::Stop);
    let mut other = Downlink::new();
    assert_eq!(other.on_event(DownlinkEvent::Cancelled), DownlinkAction::Stop);
}
