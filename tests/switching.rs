use ship_switch::engine::{switch_frame, NodeStats, ShipPacketParser, TrafficItem, Verdict};
use ship_switch::frame::decode;
use ship_switch::policy::{may_receive, may_send, Component, ConfigError, Node, PolicyHandler};
use ship_switch::switch_table::SwitchTable;

const A_MAC: [u8; 6] = [0xaa; 6];
const B_MAC: [u8; 6] = [0xbb; 6];
const C_MAC: [u8; 6] = [0xcc; 6];
const A_IP: [u8; 4] = [10, 0, 0, 1];
const B_IP: [u8; 4] = [10, 0, 0, 2];
const C_IP: [u8; 4] = [10, 0, 0, 3];

fn node(name: &str, mac: [u8; 6], ip: [u8; 4], sends: &[&str], receives: &[&str]) -> Node {
    Node {
        name: name.to_string(),
        iface: format!("veth-{}", name),
        mac,
        ip,
        sends: sends.iter().map(|s| s.to_string()).collect(),
        receives: receives.iter().map(|s| s.to_string()).collect(),
    }
}

fn scenario_nodes() -> Vec<Node> {
    vec![
        node("a", A_MAC, A_IP, &["$IIHDT"], &[]),
        node("b", B_MAC, B_IP, &[], &["$IIHDT"]),
        node("c", C_MAC, C_IP, &[], &[]),
    ]
}

fn udp_frame(dst: [u8; 6], src: [u8; 6], ip_src: [u8; 4], ip_dst: [u8; 4], payload: &[u8]) -> Vec<u8> {
    let mut f = Vec::new();
    f.extend_from_slice(&dst);
    f.extend_from_slice(&src);
    f.extend_from_slice(&[0x08, 0x00]);
    let total = 20 + 8 + payload.len();
    f.extend_from_slice(&[0x45, 0, (total >> 8) as u8, total as u8, 0, 1, 0x40, 0, 64, 17, 0, 0]);
    f.extend_from_slice(&ip_src);
    f.extend_from_slice(&ip_dst);
    let ulen = 8 + payload.len();
    f.extend_from_slice(&[0x1F, 0x90, 0x22, 0xB8, (ulen >> 8) as u8, ulen as u8, 0, 0]);
    f.extend_from_slice(payload);
    f
}

fn learned_table(macs: &[([u8; 6], usize)]) -> SwitchTable {
    let mut t = SwitchTable::new();
    for (mac, port) in macs {
        t.observe(*mac, *port);
    }
    t
}

#[test]
fn observe_is_idempotent() {
    let mut t = SwitchTable::new();
    t.observe(A_MAC, 0);
    t.observe(A_MAC, 0);
    assert_eq!(t.len(), 1);
    assert_eq!(t.lookup(&A_MAC), Some(0));
    t.observe(A_MAC, 2);
    assert_eq!(t.len(), 1);
    assert_eq!(t.lookup(&A_MAC), Some(0));
    assert_eq!(t.lookup(&B_MAC), None);
}

#[test]
fn scenario_nmea_multicast_to_learned_subscriber() {
    let nodes = scenario_nodes();
    let mut table = learned_table(&[(A_MAC, 0), (B_MAC, 1), (C_MAC, 2)]);
    let frame = udp_frame([0xff; 6], A_MAC, A_IP, [10, 0, 0, 255], b"$IIHDT,33,T*44");
    let mut traffic: Vec<TrafficItem> = Vec::new();
    let v = switch_frame(&nodes, &mut table, 0, &frame, &mut traffic);
    assert_eq!(v, Verdict::Multicast { sent: 1, skipped: 0 });
    assert_eq!(traffic.len(), 1);
    let item = &traffic[0];
    assert_eq!(item.port, 1);
    assert!(item.is_nmea);
    assert_eq!(item.prefix, "$IIHDT");
    let h = decode(&item.bytes).unwrap();
    assert_eq!(h.eth_dst, B_MAC);
    assert_eq!(h.ipv4.unwrap().dst, B_IP);
    let u = h.udp.unwrap();
    assert_eq!(&item.bytes[u.payload_start..u.payload_end], b"$IIHDT,33,T*44");
    assert!(traffic.iter().all(|t| t.port != 2));
}

#[test]
fn scenario_nmea_unlearned_subscriber_gets_nothing() {
    let nodes = scenario_nodes();
    let mut table = learned_table(&[(A_MAC, 0), (C_MAC, 2)]);
    let frame = udp_frame([0xff; 6], A_MAC, A_IP, [10, 0, 0, 255], b"$IIHDT,33,T*44");
    let mut traffic: Vec<TrafficItem> = Vec::new();
    let v = switch_frame(&nodes, &mut table, 0, &frame, &mut traffic);
    assert_eq!(v, Verdict::Multicast { sent: 0, skipped: 1 });
    assert!(traffic.is_empty());
}

#[test]
fn scenario_non_nmea_flooded_once_per_other_port() {
    let nodes = scenario_nodes();
    let mut table = learned_table(&[(B_MAC, 1), (C_MAC, 2)]);
    let frame = udp_frame([0x12; 6], A_MAC, A_IP, [10, 0, 0, 9], b"hello, plain datagram");
    let mut traffic: Vec<TrafficItem> = Vec::new();
    let v = switch_frame(&nodes, &mut table, 0, &frame, &mut traffic);
    assert_eq!(v, Verdict::Flooded);
    assert_eq!(traffic.len(), 2);
    assert_eq!(traffic[0].port, 1);
    assert_eq!(traffic[1].port, 2);
    for item in &traffic {
        assert_eq!(item.bytes, frame);
        assert!(!item.is_nmea);
        assert_eq!(item.prefix, "NONMEA");
    }
    assert_eq!(table.lookup(&A_MAC), Some(0));
}

#[test]
fn scenario_ten_byte_frame_dropped() {
    let nodes = scenario_nodes();
    let mut table = learned_table(&[(B_MAC, 1)]);
    let mut traffic: Vec<TrafficItem> = Vec::new();
    let v = switch_frame(&nodes, &mut table, 0, &[0xaa; 10], &mut traffic);
    assert_eq!(v, Verdict::TooShort);
    assert!(traffic.is_empty());
    assert_eq!(table.len(), 1);
    assert_eq!(table.lookup(&[0xaa; 6]), None);
}

#[test]
fn non_nmea_to_learned_destination_is_forwarded() {
    let nodes = scenario_nodes();
    let mut table = learned_table(&[(C_MAC, 2)]);
    let frame = udp_frame(C_MAC, A_MAC, A_IP, C_IP, b"plain");
    let mut traffic: Vec<TrafficItem> = Vec::new();
    let v = switch_frame(&nodes, &mut table, 0, &frame, &mut traffic);
    assert_eq!(v, Verdict::Forwarded);
    assert_eq!(traffic.len(), 1);
    assert_eq!(traffic[0].port, 2);
    assert_eq!(traffic[0].bytes, frame);
    assert_eq!(traffic[0].prefix, "NONMEA");
}

#[test]
fn twelve_byte_frame_is_learned_and_switched() {
    let nodes = scenario_nodes();
    let mut table = SwitchTable::new();
    let mut frame = B_MAC.to_vec();
    frame.extend_from_slice(&C_MAC);
    let mut traffic: Vec<TrafficItem> = Vec::new();
    let v = switch_frame(&nodes, &mut table, 2, &frame, &mut traffic);
    assert_eq!(v, Verdict::Flooded);
    assert_eq!(table.lookup(&C_MAC), Some(2));
    assert_eq!(traffic.iter().map(|t| t.port).collect::<Vec<_>>(), vec![0, 1]);
}

#[test]
fn unauthorized_sentence_is_dropped() {
    let nodes = scenario_nodes();
    let mut table = learned_table(&[(A_MAC, 0), (B_MAC, 1)]);
    let frame = udp_frame([0xff; 6], C_MAC, C_IP, [10, 0, 0, 255], b"$IIHDT,33,T*44");
    let mut traffic: Vec<TrafficItem> = Vec::new();
    let v = switch_frame(&nodes, &mut table, 2, &frame, &mut traffic);
    assert_eq!(v, Verdict::PolicyRejected);
    assert!(traffic.is_empty());
    assert_eq!(table.lookup(&C_MAC), Some(2));
}

#[test]
fn unparsable_sentence_falls_back_to_switching() {
    let nodes = scenario_nodes();
    let mut table = learned_table(&[(B_MAC, 1)]);
    let frame = udp_frame(B_MAC, A_MAC, A_IP, B_IP, b"$IIHDT,33");
    let mut traffic: Vec<TrafficItem> = Vec::new();
    let v = switch_frame(&nodes, &mut table, 0, &frame, &mut traffic);
    assert_eq!(v, Verdict::Forwarded);
    assert_eq!(traffic[0].bytes, frame);
}

#[test]
fn multicast_follows_node_order_and_skips_sender() {
    let nodes = vec![
        node("a", A_MAC, A_IP, &["$GPGLL"], &["$GPGLL"]),
        node("b", B_MAC, B_IP, &[], &["$GPGLL"]),
        node("c", C_MAC, C_IP, &[], &["$GPGLL"]),
    ];
    let mut table = learned_table(&[(B_MAC, 1), (C_MAC, 2)]);
    let frame = udp_frame([0xff; 6], A_MAC, A_IP, [10, 0, 0, 255], b"$GPGLL,4916.45,N,12311.12,W,225444,A,A,*5C");
    let mut traffic: Vec<TrafficItem> = Vec::new();
    let v = switch_frame(&nodes, &mut table, 0, &frame, &mut traffic);
    assert_eq!(v, Verdict::Multicast { sent: 2, skipped: 0 });
    assert_eq!(traffic[0].port, 1);
    assert_eq!(&traffic[0].bytes[0..6], &B_MAC);
    assert_eq!(traffic[1].port, 2);
    assert_eq!(&traffic[1].bytes[30..34], &C_IP);
}

#[test]
fn stats_count_verdicts() {
    let mut s = NodeStats::new();
    s.record(Verdict::TooShort);
    assert_eq!(s.frames_learned, 0);
    s.record(Verdict::PolicyRejected);
    s.record(Verdict::Multicast { sent: 3, skipped: 2 });
    s.record(Verdict::Flooded);
    s.record_transmit_failure();
    assert_eq!(s.frames_learned, 3);
    assert_eq!(s.policy_dropped, 1);
    assert_eq!(s.multicast_sent, 3);
    assert_eq!(s.multicast_skipped, 2);
    assert_eq!(s.transmit_failures, 1);
    s.multicast_sent = u64::MAX - 1;
    s.record(Verdict::Multicast { sent: 5, skipped: 0 });
    assert_eq!(s.multicast_sent, u64::MAX);
}

#[test]
fn policy_checks_prefixes() {
    let n = node("a", A_MAC, A_IP, &["$IIHDT", "$GPGGA"], &["$HEHDT"]);
    assert!(may_send(&n, &"$GPGGA".to_string()));
    assert!(!may_send(&n, &"$HEHDT".to_string()));
    assert!(may_receive(&n, &"$HEHDT".to_string()));
    assert!(!may_receive(&n, &"$IIHDT".to_string()));
}

fn component(name: &str, mac: &str) -> Component {
    Component {
        name: name.to_string(),
        iface: "eth0".to_string(),
        mac: mac.to_string(),
        ip: "10.0.0.1".to_string(),
        sends: vec!["$IIHDT".to_string()],
        receives: vec![],
    }
}

#[test]
fn node_from_component_reads_mac() {
    let n = Node::from_component(&component("gyro", "12:34:56:78:90:ab"), [10, 0, 0, 1]).unwrap();
    assert_eq!(n.mac, [0x12, 0x34, 0x56, 0x78, 0x90, 0xab]);
    assert_eq!(n.ip, [10, 0, 0, 1]);
    assert_eq!(n.name, "gyro");
    assert_eq!(n.sends, vec!["$IIHDT".to_string()]);
    assert_eq!(
        Node::from_component(&component("gyro", "12:34:56:78:90"), [10, 0, 0, 1]).err(),
        Some(ConfigError::BadMac)
    );
    assert_eq!(
        Node::from_component(&component("gyro", "zz:34:56:78:90:ab"), [10, 0, 0, 1]).err(),
        Some(ConfigError::BadMac)
    );
}

#[test]
fn policy_handler_keeps_unique_keys() {
    let mut p = PolicyHandler::empty();
    p.insert("gyro".to_string(), component("gyro", "aa:aa:aa:aa:aa:aa"));
    p.insert("gps".to_string(), component("gps", "bb:bb:bb:bb:bb:bb"));
    p.insert("gyro".to_string(), component("gyro2", "cc:cc:cc:cc:cc:cc"));
    let all = p.get_policy();
    assert_eq!(all.len(), 2);
    assert_eq!(all[0].name, "gyro2");
    assert_eq!(all[1].name, "gps");
}

#[test]
fn ship_packet_parser_learns_source() {
    let frame = udp_frame(B_MAC, A_MAC, A_IP, B_IP, b"x");
    let mut p = ShipPacketParser::new(&frame);
    assert_eq!(p.destination_port(), None);
    p.check_switch(3);
    p.check_switch(4);
    assert_eq!(p.parse().unwrap().eth_src, A_MAC);
    let mut q = ShipPacketParser::new(&frame[..]);
    q.check_switch(1);
    assert_eq!(q.destination_port(), None);
}
