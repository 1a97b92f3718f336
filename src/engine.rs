//! The per-frame switching decision: learn the source, then multicast an
//! authorized NMEA sentence to its subscribers, or switch any other frame by
//! its destination MAC.
use vstd::prelude::*;
use crate::frame::{
    decode, decode_error, headers_match, is_udp, payload_text, read_mac, rewrite, rewritten,
    DecodeError, PacketParser, ParsedHeaders, MAC_PAIR_LEN,
};
use crate::nmea::{parse_error, sentence_at, sentence_code, talker_at, talker_code, Nmea};
use crate::policy::{lists, may_receive, may_send, Node};
use crate::switch_table::{observed, SwitchTable};

verus! {

/// One frame to transmit on one port.
pub struct TrafficItem {
    pub port: usize,
    pub bytes: Vec<u8>,
    /// A rewritten NMEA copy, as opposed to a frame switched unmodified.
    pub is_nmea: bool,
    /// The sentence's prefix, or `NONMEA` for a frame switched unmodified.
    pub prefix: String,
}

impl View for TrafficItem {
    type V = (usize, Seq<u8>, bool, Seq<char>);

    open spec fn view(&self) -> (usize, Seq<u8>, bool, Seq<char>) {
        (self.port, self.bytes@, self.is_nmea, self.prefix@)
    }
}

/// The views of a queue of traffic items.
pub open spec fn traffic_view(q: Seq<TrafficItem>) -> Seq<(usize, Seq<u8>, bool, Seq<char>)> {
    q.map_values(|x: TrafficItem| x@)
}

/// The prefix of a frame switched unmodified.
pub open spec fn non_nmea_prefix() -> Seq<char> {
    "NONMEA"@
}

/// The NMEA prefix a frame carries: that of the sentence in its UDP payload,
/// when there is one and it parses.
pub open spec fn nmea_prefix(raw: Seq<u8>) -> Option<Seq<char>> {
    match payload_text(raw) {
        Ok(t) => if parse_error(t) is None {
            Some(seq!['$'] + talker_code(talker_at(t)) + sentence_code(sentence_at(t)))
        } else {
            None
        },
        Err(_) => None,
    }
}

/// The node at `j` subscribes to `p` and is not the sender.
pub open spec fn is_receiver(nodes: Seq<Node>, ingress: int, p: Seq<char>, j: int) -> bool {
    j != ingress && lists(nodes[j].receives@, p)
}

/// Rewritten copies of `raw` for the subscribers among nodes `0..n` whose
/// MAC is learned, in node order.
pub open spec fn multicast(
    nodes: Seq<Node>,
    t: Map<Seq<u8>, usize>,
    ingress: int,
    raw: Seq<u8>,
    p: Seq<char>,
    n: nat,
) -> Seq<(usize, Seq<u8>, bool, Seq<char>)>
    decreases n,
{
    if n == 0 {
        seq![]
    } else {
        let prev = multicast(nodes, t, ingress, raw, p, (n - 1) as nat);
        let node = nodes[n - 1];
        if is_receiver(nodes, ingress, p, n - 1) && t.contains_key(node.mac@) && is_udp(raw) {
            prev.push((t[node.mac@], rewritten(raw, node.mac, node.ip), true, p))
        } else {
            prev
        }
    }
}

/// How many subscribers among nodes `0..n` have no learned MAC.
pub open spec fn unresolved(nodes: Seq<Node>, t: Map<Seq<u8>, usize>, ingress: int, p: Seq<char>, n: nat) -> nat
    decreases n,
{
    if n == 0 {
        0
    } else {
        unresolved(nodes, t, ingress, p, (n - 1) as nat) + if is_receiver(nodes, ingress, p, n - 1)
            && !t.contains_key(nodes[n - 1].mac@) {
            1nat
        } else {
            0nat
        }
    }
}

/// Unmodified copies of `raw` for every port `0..n` but the ingress port.
pub open spec fn flood(ingress: int, raw: Seq<u8>, n: nat) -> Seq<(usize, Seq<u8>, bool, Seq<char>)>
    decreases n,
{
    if n == 0 {
        seq![]
    } else {
        let prev = flood(ingress, raw, (n - 1) as nat);
        if n - 1 != ingress {
            prev.push(((n - 1) as usize, raw, false, non_nmea_prefix()))
        } else {
            prev
        }
    }
}

/// What became of one frame.
#[derive(Clone, Copy, Debug, PartialEq, Eq, Structural)]
pub enum Verdict {
    /// Under twelve bytes: not even its MAC addresses can be read.
    TooShort,
    /// An NMEA sentence that its sender may not publish.
    PolicyRejected,
    /// An NMEA sentence copied to `sent` subscribers; `skipped` more have no
    /// learned MAC yet.
    Multicast { sent: usize, skipped: usize },
    /// Switched to the port its destination MAC was learned on.
    Forwarded,
    /// Sent to every other port, its destination being unknown.
    Flooded,
}

/// The traffic that the frame `raw` from port `ingress` makes, once the
/// table `t` holds its source.
pub open spec fn frame_traffic(nodes: Seq<Node>, t: Map<Seq<u8>, usize>, ingress: int, raw: Seq<u8>) -> Seq<
    (usize, Seq<u8>, bool, Seq<char>),
> {
    match nmea_prefix(raw) {
        Some(p) => if lists(nodes[ingress].sends@, p) {
            multicast(nodes, t, ingress, raw, p, nodes.len())
        } else {
            seq![]
        },
        None => if t.contains_key(raw.subrange(0, 6)) {
            seq![(t[raw.subrange(0, 6)], raw, false, non_nmea_prefix())]
        } else {
            flood(ingress, raw, nodes.len())
        },
    }
}

/// The verdict on the frame `raw` from port `ingress`, once the table `t`
/// holds its source.
pub open spec fn frame_verdict(nodes: Seq<Node>, t: Map<Seq<u8>, usize>, ingress: int, raw: Seq<u8>) -> Verdict {
    match nmea_prefix(raw) {
        Some(p) => if lists(nodes[ingress].sends@, p) {
            Verdict::Multicast {
                sent: multicast(nodes, t, ingress, raw, p, nodes.len()).len() as usize,
                skipped: unresolved(nodes, t, ingress, p, nodes.len()) as usize,
            }
        } else {
            Verdict::PolicyRejected
        },
        None => if t.contains_key(raw.subrange(0, 6)) {
            Verdict::Forwarded
        } else {
            Verdict::Flooded
        },
    }
}

/// The prefix of the NMEA sentence that `raw` carries, if it carries one.
fn sentence_prefix(raw: &[u8]) -> (r: Option<String>)
    ensures
        match r {
            Some(p) => nmea_prefix(raw@) == Some(p@),
            None => nmea_prefix(raw@) is None,
        },
{
    let parser = PacketParser::new(raw);
    match parser.parse_traffic() {
        Ok(text) => {
            let mut m = Nmea::new();
            match m.parse(text) {
                Ok(()) => Some(m.prefix()),
                Err(_) => None,
            }
        },
        Err(_) => None,
    }
}

/// One step of `multicast` and `unresolved`, for the node at `j`.
proof fn lemma_multicast_step(
    nodes: Seq<Node>,
    t: Map<Seq<u8>, usize>,
    ingress: int,
    raw: Seq<u8>,
    p: Seq<char>,
    j: nat,
)
    ensures
        multicast(nodes, t, ingress, raw, p, j + 1) == if is_receiver(nodes, ingress, p, j as int)
            && t.contains_key(nodes[j as int].mac@) && is_udp(raw) {
            multicast(nodes, t, ingress, raw, p, j).push(
                (t[nodes[j as int].mac@], rewritten(raw, nodes[j as int].mac, nodes[j as int].ip), true, p),
            )
        } else {
            multicast(nodes, t, ingress, raw, p, j)
        },
        unresolved(nodes, t, ingress, p, j + 1) == unresolved(nodes, t, ingress, p, j) + if is_receiver(
            nodes,
            ingress,
            p,
            j as int,
        ) && !t.contains_key(nodes[j as int].mac@) {
            1nat
        } else {
            0nat
        },
{
}

/// Appends the rewritten copies of an NMEA frame for its subscribers;
/// returns how many were sent and how many subscribers had no learned MAC.
fn multicast_copies(
    nodes: &Vec<Node>,
    table: &SwitchTable,
    ingress: usize,
    raw: &[u8],
    prefix: &String,
    traffic: &mut Vec<TrafficItem>,
) -> (r: (usize, usize))
    requires
        is_udp(raw@),
    ensures
        traffic_view(final(traffic)@) == traffic_view(old(traffic)@) + multicast(
            nodes@,
            table@,
            ingress as int,
            raw@,
            prefix@,
            nodes@.len(),
        ),
        r.0 == multicast(nodes@, table@, ingress as int, raw@, prefix@, nodes@.len()).len(),
        r.1 == unresolved(nodes@, table@, ingress as int, prefix@, nodes@.len()),
{
    let mut sent: usize = 0;
    let mut skipped: usize = 0;
    assert(traffic_view(traffic@) =~= traffic_view(old(traffic)@) + seq![]);
    for j in 0..nodes.len()
        invariant
            is_udp(raw@),
            traffic_view(traffic@) == traffic_view(old(traffic)@) + multicast(
                nodes@,
                table@,
                ingress as int,
                raw@,
                prefix@,
                j as nat,
            ),
            sent == multicast(nodes@, table@, ingress as int, raw@, prefix@, j as nat).len(),
            skipped == unresolved(nodes@, table@, ingress as int, prefix@, j as nat),
            sent + skipped <= j,
    {
        proof {
            lemma_multicast_step(nodes@, table@, ingress as int, raw@, prefix@, j as nat);
        }
        let ghost before = traffic@;
        if j != ingress && may_receive(&nodes[j], prefix) {
            match table.lookup(&nodes[j].mac) {
                Some(port) => {
                    match rewrite(raw, nodes[j].mac, nodes[j].ip) {
                        Some(bytes) => {
                            traffic.push(
                                TrafficItem { port, bytes, is_nmea: true, prefix: prefix.clone() },
                            );
                            assert(traffic_view(traffic@) =~= traffic_view(before).push(
                                traffic@.last()@,
                            ));
                            sent += 1;
                        },
                        None => {},
                    }
                },
                None => {
                    skipped += 1;
                },
            }
        }
    }
    (sent, skipped)
}

/// Switches one frame received on port `ingress` (ports are node indices):
/// learns its source MAC, then appends to `traffic` what it makes. An NMEA
/// sentence that the sender may publish is rewritten for each other node
/// that subscribes to its prefix and whose MAC is learned, never flooded; one
/// it may not publish is dropped. Any other frame goes unmodified to the port
/// its destination MAC was learned on, or to every other port. A frame under
/// twelve bytes is dropped untouched.
pub fn switch_frame(
    nodes: &Vec<Node>,
    table: &mut SwitchTable,
    ingress: usize,
    raw: &[u8],
    traffic: &mut Vec<TrafficItem>,
) -> (v: Verdict)
    requires
        ingress < nodes@.len(),
    ensures
        raw@.len() < MAC_PAIR_LEN ==> {
            &&& v == Verdict::TooShort
            &&& final(table)@ == old(table)@
            &&& final(traffic)@ == old(traffic)@
        },
        raw@.len() >= MAC_PAIR_LEN ==> {
            &&& final(table)@ == observed(old(table)@, raw@.subrange(6, 12), ingress)
            &&& traffic_view(final(traffic)@) == traffic_view(old(traffic)@) + frame_traffic(
                nodes@,
                final(table)@,
                ingress as int,
                raw@,
            )
            &&& v == frame_verdict(nodes@, final(table)@, ingress as int, raw@)
        },
{
    if raw.len() < MAC_PAIR_LEN {
        return Verdict::TooShort;
    }
    let dst = read_mac(raw, 0);
    let src = read_mac(raw, 6);
    table.observe(src, ingress);
    match sentence_prefix(raw) {
        Some(prefix) => {
            if !may_send(&nodes[ingress], &prefix) {
                assert(traffic_view(traffic@) =~= traffic_view(old(traffic)@) + seq![]);
                return Verdict::PolicyRejected;
            }
            let (sent, skipped) = multicast_copies(nodes, table, ingress, raw, &prefix, traffic);
            Verdict::Multicast { sent, skipped }
        },
        None => {
            match table.lookup(&dst) {
                Some(port) => {
                    proof {
                        reveal_strlit("NONMEA");
                    }
                    traffic.push(
                        TrafficItem {
                            port,
                            bytes: vstd::slice::slice_to_vec(raw),
                            is_nmea: false,
                            prefix: String::from_str("NONMEA"),
                        },
                    );
                    assert(traffic_view(traffic@) =~= traffic_view(old(traffic)@) + seq![
                        traffic@.last()@,
                    ]);
                    Verdict::Forwarded
                },
                None => {
                    assert(traffic_view(traffic@) =~= traffic_view(old(traffic)@) + seq![]);
                    for j in 0..nodes.len()
                        invariant
                            ingress < nodes@.len(),
                            traffic_view(traffic@) == traffic_view(old(traffic)@) + flood(
                                ingress as int,
                                raw@,
                                j as nat,
                            ),
                    {
                        if j != ingress {
                            let ghost before = traffic@;
                            traffic.push(
                                TrafficItem {
                                    port: j,
                                    bytes: vstd::slice::slice_to_vec(raw),
                                    is_nmea: false,
                                    prefix: String::from_str("NONMEA"),
                                },
                            );
                            assert(traffic_view(traffic@) =~= traffic_view(before).push(
                                traffic@.last()@,
                            ));
                        }
                    }
                    Verdict::Flooded
                },
            }
        },
    }
}

/// `x + by`, held at `u64::MAX`.
pub open spec fn saturated(x: u64, by: int) -> u64 {
    if x + by > u64::MAX {
        u64::MAX
    } else {
        (x + by) as u64
    }
}

fn bump(x: u64, by: usize) -> (r: u64)
    ensures
        r == saturated(x, by as int),
{
    x.saturating_add(by as u64)
}

/// Per-node counters of what became of the frames a node sent, and of the
/// transmissions to it that failed.
#[derive(Clone, Copy, Debug, PartialEq, Eq, Structural)]
pub struct NodeStats {
    /// Frames whose source address was learned or confirmed.
    pub frames_learned: u64,
    /// NMEA sentences dropped because the node may not publish them.
    pub policy_dropped: u64,
    /// Rewritten copies queued for subscribers.
    pub multicast_sent: u64,
    /// Subscribers passed over because their MAC was not yet learned.
    pub multicast_skipped: u64,
    /// Transmissions to the node that failed.
    pub transmit_failures: u64,
}

impl NodeStats {
    pub fn new() -> (r: Self)
        ensures
            r == (NodeStats {
                frames_learned: 0,
                policy_dropped: 0,
                multicast_sent: 0,
                multicast_skipped: 0,
                transmit_failures: 0,
            }),
    {
        NodeStats {
            frames_learned: 0,
            policy_dropped: 0,
            multicast_sent: 0,
            multicast_skipped: 0,
            transmit_failures: 0,
        }
    }

    /// Counts the verdict on one frame that the node sent.
    pub fn record(&mut self, v: Verdict)
        ensures
            final(self).frames_learned == if v is TooShort {
                old(self).frames_learned
            } else {
                saturated(old(self).frames_learned, 1)
            },
            final(self).policy_dropped == if v is PolicyRejected {
                saturated(old(self).policy_dropped, 1)
            } else {
                old(self).policy_dropped
            },
            final(self).multicast_sent == match v {
                Verdict::Multicast { sent, skipped } => saturated(old(self).multicast_sent, sent as int),
                _ => old(self).multicast_sent,
            },
            final(self).multicast_skipped == match v {
                Verdict::Multicast { sent, skipped } => saturated(
                    old(self).multicast_skipped,
                    skipped as int,
                ),
                _ => old(self).multicast_skipped,
            },
            final(self).transmit_failures == old(self).transmit_failures,
    {
        match v {
            Verdict::TooShort => {},
            Verdict::PolicyRejected => {
                self.frames_learned = bump(self.frames_learned, 1);
                self.policy_dropped = bump(self.policy_dropped, 1);
            },
            Verdict::Multicast { sent, skipped } => {
                self.frames_learned = bump(self.frames_learned, 1);
                self.multicast_sent = bump(self.multicast_sent, sent);
                self.multicast_skipped = bump(self.multicast_skipped, skipped);
            },
            Verdict::Forwarded | Verdict::Flooded => {
                self.frames_learned = bump(self.frames_learned, 1);
            },
        }
    }

    /// Counts one failed transmission to the node.
    pub fn record_transmit_failure(&mut self)
        ensures
            *final(self) == (NodeStats {
                transmit_failures: saturated(old(self).transmit_failures, 1),
                ..*old(self)
            }),
    {
        self.transmit_failures = bump(self.transmit_failures, 1);
    }
}

/// Reads one received frame: its headers, and the learning of its source in
/// a table of its own.
pub struct ShipPacketParser<'a> {
    packet: &'a [u8],
    switch: SwitchTable,
}

impl<'a> ShipPacketParser<'a> {
    /// The frame this parser reads.
    pub closed spec fn bytes(&self) -> Seq<u8> {
        self.packet@
    }

    /// What its table has learned.
    pub closed spec fn learned(&self) -> Map<Seq<u8>, usize> {
        self.switch@
    }

    pub fn new(packet: &'a [u8]) -> (r: Self)
        ensures
            r.bytes() == packet@,
            r.learned().dom() == Set::<Seq<u8>>::empty(),
    {
        ShipPacketParser { packet, switch: SwitchTable::new() }
    }

    /// The frame's headers.
    pub fn parse(&self) -> (r: Result<ParsedHeaders, DecodeError>)
        ensures
            match r {
                Ok(h) => decode_error(self.bytes()) is None && headers_match(h, self.bytes()),
                Err(e) => decode_error(self.bytes()) == Some(e),
            },
    {
        decode(self.packet)
    }

    /// Learns the frame's source MAC on port `poll_fd` unless it is known.
    pub fn check_switch(&mut self, poll_fd: usize)
        requires
            old(self).bytes().len() >= MAC_PAIR_LEN,
        ensures
            final(self).bytes() == old(self).bytes(),
            final(self).learned() == observed(old(self).learned(), old(self).bytes().subrange(6, 12), poll_fd),
    {
        let src = read_mac(self.packet, 6);
        self.switch.observe(src, poll_fd);
    }

    /// The port the frame's destination MAC was learned on, if it was.
    pub fn destination_port(&self) -> (r: Option<usize>)
        requires
            self.bytes().len() >= MAC_PAIR_LEN,
        ensures
            r == if self.learned().contains_key(self.bytes().subrange(0, 6)) {
                Some(self.learned()[self.bytes().subrange(0, 6)])
            } else {
                None::<usize>
            },
    {
        let dst = read_mac(self.packet, 0);
        self.switch.lookup(&dst)
    }
}

} // verus!
