//! Ethernet, IPv4 and UDP headers: decoding a frame and rewriting its
//! destination with fresh checksums.
use vstd::prelude::*;
use vstd::utf8::{decode_utf8, valid_utf8};
use crate::checksum::{
    be_word_sum, lemma_filled_checksum_verifies, ones_complement, pnet_checksum, pnet_udp_checksum,
    pseudo_header_sum, sum_verifies, word_at, UDP_PROTOCOL,
};

verus! {

/// Length of the Ethernet header.
pub const ETH_HEADER_LEN: usize = 14;

/// Length of the two MAC addresses at the start of every frame.
pub const MAC_PAIR_LEN: usize = 12;

/// EtherType of IPv4.
pub const ETHERTYPE_IPV4: u16 = 0x0800;

/// Length of an IPv4 header without options.
pub const IPV4_MIN_HEADER_LEN: usize = 20;

/// Length of the UDP header.
pub const UDP_HEADER_LEN: usize = 8;

/// Offset in the frame of the IPv4 header checksum.
pub const IPV4_CHECKSUM_AT: usize = 24;

/// Offset in the frame of the IPv4 destination address.
pub const IPV4_DST_AT: usize = 30;

/// Why a frame's IPv4 or UDP header could not be read.
#[derive(Clone, Copy, Debug, PartialEq, Eq, Structural)]
pub enum DecodeError {
    /// A length field holds a value that no header can have.
    Malformed,
    /// The frame ends before a header that it announces.
    Truncated,
}

/// The IPv4 header fields that the switch reads.
#[derive(Clone, Copy, Debug)]
pub struct Ipv4Header {
    pub src: [u8; 4],
    pub dst: [u8; 4],
    pub protocol: u8,
    /// Header length in bytes, from the header-length field.
    pub header_len: usize,
}

/// The UDP header fields, and where the payload lies in the frame.
#[derive(Clone, Copy, Debug)]
pub struct UdpHeader {
    pub src_port: u16,
    pub dst_port: u16,
    /// The UDP length field: header and payload.
    pub length: usize,
    pub payload_start: usize,
    pub payload_end: usize,
}

/// Headers of one frame. `ipv4` is absent when the EtherType is not IPv4,
/// `udp` when the IPv4 protocol is not UDP.
#[derive(Clone, Copy, Debug)]
pub struct ParsedHeaders {
    pub eth_dst: [u8; 6],
    pub eth_src: [u8; 6],
    pub ethertype: u16,
    pub ipv4: Option<Ipv4Header>,
    pub udp: Option<UdpHeader>,
}

/// Big-endian 16-bit value at `i`.
pub open spec fn be16(s: Seq<u8>, i: int) -> int {
    (s[i] as int) * 256 + (s[i + 1] as int)
}

/// The EtherType field says IPv4.
pub open spec fn is_ipv4(raw: Seq<u8>) -> bool {
    raw.len() >= ETH_HEADER_LEN && be16(raw, 12) == ETHERTYPE_IPV4 as int
}

/// IPv4 header length in bytes, as its header-length field declares it.
pub open spec fn ip_header_len(raw: Seq<u8>) -> int {
    (raw[14] % 16) * 4
}

/// Where the UDP header starts.
pub open spec fn udp_start(raw: Seq<u8>) -> int {
    ETH_HEADER_LEN + ip_header_len(raw)
}

/// The UDP length field.
pub open spec fn udp_len(raw: Seq<u8>) -> int {
    be16(raw, udp_start(raw) + 4)
}

/// The IPv4 protocol field.
pub open spec fn ip_protocol(raw: Seq<u8>) -> u8 {
    raw[23]
}

/// What is wrong with the frame's headers, if anything. A frame that is not
/// IPv4, or IPv4 but not UDP, has nothing wrong beyond the headers read.
pub open spec fn decode_error(raw: Seq<u8>) -> Option<DecodeError> {
    if raw.len() < ETH_HEADER_LEN {
        Some(DecodeError::Truncated)
    } else if !is_ipv4(raw) {
        None
    } else if raw.len() < ETH_HEADER_LEN + IPV4_MIN_HEADER_LEN {
        Some(DecodeError::Truncated)
    } else if ip_header_len(raw) < IPV4_MIN_HEADER_LEN {
        Some(DecodeError::Malformed)
    } else if udp_start(raw) > raw.len() {
        Some(DecodeError::Truncated)
    } else if ip_protocol(raw) != UDP_PROTOCOL {
        None
    } else if udp_start(raw) + UDP_HEADER_LEN > raw.len() {
        Some(DecodeError::Truncated)
    } else if udp_len(raw) < UDP_HEADER_LEN {
        Some(DecodeError::Malformed)
    } else if udp_start(raw) + udp_len(raw) > raw.len() {
        Some(DecodeError::Truncated)
    } else {
        None
    }
}

/// A well-formed Ethernet/IPv4/UDP frame.
pub open spec fn is_udp(raw: Seq<u8>) -> bool {
    decode_error(raw) is None && is_ipv4(raw) && ip_protocol(raw) == UDP_PROTOCOL
}

/// The UDP payload of a well-formed UDP frame, bounded by the UDP length field.
pub open spec fn udp_payload(raw: Seq<u8>) -> Seq<u8> {
    raw.subrange(udp_start(raw) + UDP_HEADER_LEN, udp_start(raw) + udp_len(raw))
}

/// `h` holds what the headers of `raw` say.
pub open spec fn headers_match(h: ParsedHeaders, raw: Seq<u8>) -> bool {
    &&& h.eth_dst@ == raw.subrange(0, 6)
    &&& h.eth_src@ == raw.subrange(6, 12)
    &&& h.ethertype as int == be16(raw, 12)
    &&& (h.ipv4 is Some <==> is_ipv4(raw))
    &&& (h.ipv4 matches Some(ip) ==> {
        &&& ip.src@ == raw.subrange(26, 30)
        &&& ip.dst@ == raw.subrange(30, 34)
        &&& ip.protocol == ip_protocol(raw)
        &&& ip.header_len as int == ip_header_len(raw)
    })
    &&& (h.udp is Some <==> is_udp(raw))
    &&& (h.udp matches Some(u) ==> {
        &&& u.src_port as int == be16(raw, udp_start(raw))
        &&& u.dst_port as int == be16(raw, udp_start(raw) + 2)
        &&& u.length as int == udp_len(raw)
        &&& u.payload_start as int == udp_start(raw) + UDP_HEADER_LEN
        &&& u.payload_end as int == udp_start(raw) + udp_len(raw)
    })
}

fn read_be16(raw: &[u8], i: usize) -> (r: u16)
    requires
        i + 1 < raw@.len(),
    ensures
        r as int == be16(raw@, i as int),
{
    (raw[i] as u16) * 256 + (raw[i + 1] as u16)
}

pub(crate) fn read_mac(raw: &[u8], i: usize) -> (r: [u8; 6])
    requires
        i + 6 <= raw@.len(),
    ensures
        r@ == raw@.subrange(i as int, i + 6),
{
    let r = [raw[i], raw[i + 1], raw[i + 2], raw[i + 3], raw[i + 4], raw[i + 5]];
    assert(r@ =~= raw@.subrange(i as int, i + 6));
    r
}

fn read_ipv4(raw: &[u8], i: usize) -> (r: [u8; 4])
    requires
        i + 4 <= raw@.len(),
    ensures
        r@ == raw@.subrange(i as int, i + 4),
{
    let r = [raw[i], raw[i + 1], raw[i + 2], raw[i + 3]];
    assert(r@ =~= raw@.subrange(i as int, i + 4));
    r
}

/// Decodes the Ethernet header and, where present, the IPv4 and UDP headers.
pub fn decode(raw: &[u8]) -> (r: Result<ParsedHeaders, DecodeError>)
    ensures
        match r {
            Ok(h) => decode_error(raw@) is None && headers_match(h, raw@),
            Err(e) => decode_error(raw@) == Some(e),
        },
{
    let len = raw.len();
    if len < ETH_HEADER_LEN {
        return Err(DecodeError::Truncated);
    }
    let eth_dst = read_mac(raw, 0);
    let eth_src = read_mac(raw, 6);
    let ethertype = read_be16(raw, 12);
    if ethertype != ETHERTYPE_IPV4 {
        return Ok(ParsedHeaders { eth_dst, eth_src, ethertype, ipv4: None, udp: None });
    }
    if len < ETH_HEADER_LEN + IPV4_MIN_HEADER_LEN {
        return Err(DecodeError::Truncated);
    }
    let header_len = ((raw[14] % 16) as usize) * 4;
    if header_len < IPV4_MIN_HEADER_LEN {
        return Err(DecodeError::Malformed);
    }
    let start = ETH_HEADER_LEN + header_len;
    if start > len {
        return Err(DecodeError::Truncated);
    }
    let ip = Ipv4Header {
        src: read_ipv4(raw, 26),
        dst: read_ipv4(raw, 30),
        protocol: raw[23],
        header_len,
    };
    if ip.protocol != UDP_PROTOCOL {
        return Ok(ParsedHeaders { eth_dst, eth_src, ethertype, ipv4: Some(ip), udp: None });
    }
    if start + UDP_HEADER_LEN > len {
        return Err(DecodeError::Truncated);
    }
    let length = read_be16(raw, start + 4) as usize;
    if length < UDP_HEADER_LEN {
        return Err(DecodeError::Malformed);
    }
    if start + length > len {
        return Err(DecodeError::Truncated);
    }
    let udp = UdpHeader {
        src_port: read_be16(raw, start),
        dst_port: read_be16(raw, start + 2),
        length,
        payload_start: start + UDP_HEADER_LEN,
        payload_end: start + length,
    };
    Ok(ParsedHeaders { eth_dst, eth_src, ethertype, ipv4: Some(ip), udp: Some(udp) })
}

/// `s` with `b` written from offset `at` on.
pub open spec fn put_bytes(s: Seq<u8>, at: int, b: Seq<u8>) -> Seq<u8> {
    s.subrange(0, at) + b + s.subrange(at + b.len(), s.len() as int)
}

/// The two big-endian bytes of `v`.
pub open spec fn be_bytes(v: u16) -> Seq<u8> {
    seq![(v / 256) as u8, (v % 256) as u8]
}

/// The IPv4 header of a frame, as long as its header-length field says.
pub open spec fn ipv4_header(s: Seq<u8>) -> Seq<u8> {
    s.subrange(ETH_HEADER_LEN as int, udp_start(s))
}

/// The UDP header and payload of a frame, as long as its length field says.
pub open spec fn udp_segment(s: Seq<u8>) -> Seq<u8> {
    s.subrange(udp_start(s), udp_start(s) + udp_len(s))
}

/// The IPv4 header checksum of a frame: its header words, checksum word left out.
pub open spec fn ipv4_checksum_of(s: Seq<u8>) -> u16 {
    ones_complement(be_word_sum(ipv4_header(s), 5))
}

/// The UDP checksum of a frame: the pseudo-header of its addresses, then its
/// UDP segment, checksum word left out.
pub open spec fn udp_checksum_of(s: Seq<u8>) -> u16 {
    ones_complement(
        pseudo_header_sum(s.subrange(26, 30), s.subrange(30, 34), UDP_PROTOCOL as nat, udp_len(s) as nat)
            + be_word_sum(udp_segment(s), 3),
    )
}

/// The frame with new destination addresses and both checksum fields zeroed.
pub open spec fn readdressed(raw: Seq<u8>, mac: [u8; 6], ip: [u8; 4]) -> Seq<u8> {
    let a = put_bytes(put_bytes(raw, 0, mac@), IPV4_DST_AT as int, ip@);
    let b = put_bytes(a, IPV4_CHECKSUM_AT as int, seq![0u8, 0u8]);
    put_bytes(b, udp_start(raw) + 6, seq![0u8, 0u8])
}

/// The rewritten frame: new destination addresses, IPv4 checksum computed
/// first, UDP checksum computed over the result.
pub open spec fn rewritten(raw: Seq<u8>, mac: [u8; 6], ip: [u8; 4]) -> Seq<u8> {
    let z = readdressed(raw, mac, ip);
    let c = put_bytes(z, IPV4_CHECKSUM_AT as int, be_bytes(ipv4_checksum_of(z)));
    put_bytes(c, udp_start(raw) + 6, be_bytes(udp_checksum_of(c)))
}

/// Byte by byte, `put_bytes` reads `b` inside the written range and `s` outside.
pub proof fn lemma_put_bytes(s: Seq<u8>, at: int, b: Seq<u8>)
    requires
        0 <= at,
        at + b.len() <= s.len(),
    ensures
        put_bytes(s, at, b).len() == s.len(),
        forall|k: int|
            0 <= k < s.len() ==> #[trigger] put_bytes(s, at, b)[k] == if at <= k < at + b.len() {
                b[k - at]
            } else {
                s[k]
            },
{
}

/// One byte of `put_bytes`.
pub proof fn lemma_put_byte_at(s: Seq<u8>, at: int, b: Seq<u8>, k: int)
    requires
        0 <= at,
        at + b.len() <= s.len(),
        0 <= k < s.len(),
    ensures
        put_bytes(s, at, b).len() == s.len(),
        put_bytes(s, at, b)[k] == if at <= k < at + b.len() {
            b[k - at]
        } else {
            s[k]
        },
{
}

/// Writing outside `[i, j)` leaves that range as it was.
pub proof fn lemma_put_bytes_keeps(s: Seq<u8>, at: int, b: Seq<u8>, i: int, j: int)
    requires
        0 <= at,
        at + b.len() <= s.len(),
        0 <= i <= j <= s.len(),
        j <= at || at + b.len() <= i,
    ensures
        put_bytes(s, at, b).subrange(i, j) == s.subrange(i, j),
{
    lemma_put_bytes(s, at, b);
    assert(put_bytes(s, at, b).subrange(i, j) =~= s.subrange(i, j));
}

/// The written range reads back as `b`.
pub proof fn lemma_put_bytes_reads(s: Seq<u8>, at: int, b: Seq<u8>)
    requires
        0 <= at,
        at + b.len() <= s.len(),
    ensures
        put_bytes(s, at, b).subrange(at, at + b.len()) == b,
{
    lemma_put_bytes(s, at, b);
    assert(put_bytes(s, at, b).subrange(at, at + b.len()) =~= b);
}

/// A write that misses the header-length field and the UDP length field
/// keeps where the UDP segment lies and how long it is.
pub proof fn lemma_put_bytes_keeps_layout(s: Seq<u8>, at: int, b: Seq<u8>)
    requires
        is_udp(s),
        0 <= at,
        at + b.len() <= s.len(),
        at > 14,
        at + b.len() <= udp_start(s) + 4 || at >= udp_start(s) + 6,
    ensures
        put_bytes(s, at, b)[14] == s[14],
        udp_start(put_bytes(s, at, b)) == udp_start(s),
        udp_len(put_bytes(s, at, b)) == udp_len(s),
{
    lemma_put_bytes(s, at, b);
    let t = put_bytes(s, at, b);
    assert(t[14] == s[14]);
    assert(t[udp_start(s) + 4] == s[udp_start(s) + 4]);
    assert(t[udp_start(s) + 5] == s[udp_start(s) + 5]);
}

/// Where the readdressed frame keeps the original's layout and addresses.
proof fn lemma_readdressed_layout(s: Seq<u8>, mac: [u8; 6], ip: [u8; 4])
    requires
        is_udp(s),
    ensures
        readdressed(s, mac, ip).len() == s.len(),
        is_udp(readdressed(s, mac, ip)),
        udp_start(readdressed(s, mac, ip)) == udp_start(s),
        udp_len(readdressed(s, mac, ip)) == udp_len(s),
        readdressed(s, mac, ip).subrange(26, 30) == s.subrange(26, 30),
        readdressed(s, mac, ip).subrange(30, 34) == ip@,
{
    let a1 = put_bytes(s, 0, mac@);
    let a2 = put_bytes(a1, IPV4_DST_AT as int, ip@);
    let a3 = put_bytes(a2, IPV4_CHECKSUM_AT as int, seq![0u8, 0u8]);
    let a4 = put_bytes(a3, udp_start(s) + 6, seq![0u8, 0u8]);
    lemma_put_bytes(s, 0, mac@);
    assert(a1[12] == s[12] && a1[13] == s[13] && a1[14] == s[14] && a1[23] == s[23]);
    assert(a1[udp_start(s) + 4] == s[udp_start(s) + 4]);
    assert(a1[udp_start(s) + 5] == s[udp_start(s) + 5]);
    lemma_put_bytes_keeps(s, 0, mac@, 26, 30);
    lemma_put_bytes_keeps_layout(a1, IPV4_DST_AT as int, ip@);
    lemma_put_bytes(a1, IPV4_DST_AT as int, ip@);
    assert(a2[12] == s[12] && a2[13] == s[13] && a2[23] == s[23]);
    lemma_put_bytes_keeps(a1, IPV4_DST_AT as int, ip@, 26, 30);
    lemma_put_bytes_reads(a1, IPV4_DST_AT as int, ip@);
    lemma_put_bytes_keeps_layout(a2, IPV4_CHECKSUM_AT as int, seq![0u8, 0u8]);
    lemma_put_bytes(a2, IPV4_CHECKSUM_AT as int, seq![0u8, 0u8]);
    assert(a3[12] == s[12] && a3[13] == s[13] && a3[23] == s[23]);
    lemma_put_bytes_keeps(a2, IPV4_CHECKSUM_AT as int, seq![0u8, 0u8], 26, 30);
    lemma_put_bytes_keeps(a2, IPV4_CHECKSUM_AT as int, seq![0u8, 0u8], 30, 34);
    lemma_put_bytes_keeps_layout(a3, udp_start(s) + 6, seq![0u8, 0u8]);
    lemma_put_bytes(a3, udp_start(s) + 6, seq![0u8, 0u8]);
    assert(a4[12] == s[12] && a4[13] == s[13] && a4[23] == s[23]);
    lemma_put_bytes_keeps(a3, udp_start(s) + 6, seq![0u8, 0u8], 26, 30);
    lemma_put_bytes_keeps(a3, udp_start(s) + 6, seq![0u8, 0u8], 30, 34);
}

/// The two bytes of `v` read back as the word `v`.
pub proof fn lemma_be_bytes_word(v: u16)
    ensures
        (be_bytes(v)[0] as nat) * 256 + (be_bytes(v)[1] as nat) == v as nat,
{
    assert((v / 256) < 256 && (v / 256) * 256 + v % 256 == v) by (nonlinear_arith);
}

/// Bytes of the rewritten frame: the new addresses where they belong, the
/// original elsewhere but in the two checksum fields.
proof fn lemma_rewritten_bytes(raw: Seq<u8>, mac: [u8; 6], ip: [u8; 4])
    requires
        is_udp(raw),
    ensures
        ({
            let out = rewritten(raw, mac, ip);
            &&& out.len() == raw.len()
            &&& udp_start(out) == udp_start(raw)
            &&& udp_len(out) == udp_len(raw)
            &&& is_udp(out)
            &&& forall|k: int|
                0 <= k < raw.len() && !(0 <= k < 6) && !(24 <= k < 26) && !(30 <= k < 34) && !(
                udp_start(raw) + 6 <= k < udp_start(raw) + 8) ==> #[trigger] out[k] == raw[k]
        }),
{
    let us = udp_start(raw);
    let z = readdressed(raw, mac, ip);
    let ck1 = ipv4_checksum_of(z);
    let c = put_bytes(z, IPV4_CHECKSUM_AT as int, be_bytes(ck1));
    let ck2 = udp_checksum_of(c);
    let out = put_bytes(c, us + 6, be_bytes(ck2));
    lemma_readdressed_layout(raw, mac, ip);
    lemma_put_bytes_keeps_layout(z, IPV4_CHECKSUM_AT as int, be_bytes(ck1));
    lemma_put_bytes_keeps_layout(c, us + 6, be_bytes(ck2));
    let a1 = put_bytes(raw, 0, mac@);
    let a2 = put_bytes(a1, IPV4_DST_AT as int, ip@);
    let a3 = put_bytes(a2, IPV4_CHECKSUM_AT as int, seq![0u8, 0u8]);
    assert forall|k: int|
        0 <= k < raw.len() && !(0 <= k < 6) && !(24 <= k < 26) && !(30 <= k < 34) && !(us + 6 <= k
            < us + 8) implies #[trigger] out[k] == raw[k] by {
        lemma_put_byte_at(raw, 0, mac@, k);
        lemma_put_byte_at(a1, IPV4_DST_AT as int, ip@, k);
        lemma_put_byte_at(a2, IPV4_CHECKSUM_AT as int, seq![0u8, 0u8], k);
        lemma_put_byte_at(a3, us + 6, seq![0u8, 0u8], k);
        lemma_put_byte_at(z, IPV4_CHECKSUM_AT as int, be_bytes(ck1), k);
        lemma_put_byte_at(c, us + 6, be_bytes(ck2), k);
    }
    assert(out[12] == raw[12] && out[13] == raw[13] && out[23] == raw[23]);
}

/// The rewritten frame's destination MAC and destination IPv4 address.
proof fn lemma_rewritten_addresses(raw: Seq<u8>, mac: [u8; 6], ip: [u8; 4])
    requires
        is_udp(raw),
    ensures
        rewritten(raw, mac, ip).subrange(0, 6) == mac@,
        rewritten(raw, mac, ip).subrange(30, 34) == ip@,
        rewritten(raw, mac, ip).subrange(26, 30) == raw.subrange(26, 30),
{
    let us = udp_start(raw);
    let z = readdressed(raw, mac, ip);
    let ck1 = ipv4_checksum_of(z);
    let c = put_bytes(z, IPV4_CHECKSUM_AT as int, be_bytes(ck1));
    let ck2 = udp_checksum_of(c);
    lemma_readdressed_layout(raw, mac, ip);
    lemma_put_bytes_keeps_layout(z, IPV4_CHECKSUM_AT as int, be_bytes(ck1));
    let a1 = put_bytes(raw, 0, mac@);
    let a2 = put_bytes(a1, IPV4_DST_AT as int, ip@);
    let a3 = put_bytes(a2, IPV4_CHECKSUM_AT as int, seq![0u8, 0u8]);
    lemma_put_bytes_reads(raw, 0, mac@);
    lemma_put_bytes_keeps(a1, IPV4_DST_AT as int, ip@, 0, 6);
    lemma_put_bytes_keeps(a2, IPV4_CHECKSUM_AT as int, seq![0u8, 0u8], 0, 6);
    lemma_put_bytes_keeps(a3, us + 6, seq![0u8, 0u8], 0, 6);
    lemma_put_bytes_keeps(z, IPV4_CHECKSUM_AT as int, be_bytes(ck1), 0, 6);
    lemma_put_bytes_keeps(c, us + 6, be_bytes(ck2), 0, 6);
    lemma_put_bytes_keeps(z, IPV4_CHECKSUM_AT as int, be_bytes(ck1), 30, 34);
    lemma_put_bytes_keeps(c, us + 6, be_bytes(ck2), 30, 34);
    lemma_put_bytes_keeps(z, IPV4_CHECKSUM_AT as int, be_bytes(ck1), 26, 30);
    lemma_put_bytes_keeps(c, us + 6, be_bytes(ck2), 26, 30);
}

/// The rewritten IPv4 header verifies.
proof fn lemma_rewritten_ipv4_verifies(raw: Seq<u8>, mac: [u8; 6], ip: [u8; 4])
    requires
        is_udp(raw),
    ensures
        sum_verifies(be_word_sum(ipv4_header(rewritten(raw, mac, ip)), -1)),
{
    let us = udp_start(raw);
    let z = readdressed(raw, mac, ip);
    let ck1 = ipv4_checksum_of(z);
    let c = put_bytes(z, IPV4_CHECKSUM_AT as int, be_bytes(ck1));
    let ck2 = udp_checksum_of(c);
    let out = put_bytes(c, us + 6, be_bytes(ck2));
    lemma_readdressed_layout(raw, mac, ip);
    lemma_put_bytes_keeps_layout(z, IPV4_CHECKSUM_AT as int, be_bytes(ck1));
    lemma_put_bytes_keeps_layout(c, us + 6, be_bytes(ck2));
    lemma_put_bytes(z, IPV4_CHECKSUM_AT as int, be_bytes(ck1));
    let hz = ipv4_header(z);
    let hc = ipv4_header(c);
    lemma_put_bytes_keeps(c, us + 6, be_bytes(ck2), ETH_HEADER_LEN as int, us);
    assert(ipv4_header(out) == hc);
    assert forall|i: int| 0 <= i < hz.len() && i != 10 && i != 11 implies hz[i] == hc[i] by {
        assert(hc[i] == c[i + 14]);
    }
    lemma_be_bytes_word(ck1);
    assert(word_at(hc, 5) == ck1 as nat);
    assert(0 + be_word_sum(hz, 5) == be_word_sum(hz, 5));
    lemma_filled_checksum_verifies(hz, hc, 5, 0);
    assert(0 + be_word_sum(hc, -1) == be_word_sum(hc, -1));
}

/// The rewritten UDP segment, with its pseudo-header, verifies.
proof fn lemma_rewritten_udp_verifies(raw: Seq<u8>, mac: [u8; 6], ip: [u8; 4])
    requires
        is_udp(raw),
    ensures
        ({
            let out = rewritten(raw, mac, ip);
            sum_verifies(
                pseudo_header_sum(
                    out.subrange(26, 30),
                    out.subrange(30, 34),
                    UDP_PROTOCOL as nat,
                    udp_len(out) as nat,
                ) + be_word_sum(udp_segment(out), -1),
            )
        }),
{
    let us = udp_start(raw);
    let z = readdressed(raw, mac, ip);
    let ck1 = ipv4_checksum_of(z);
    let c = put_bytes(z, IPV4_CHECKSUM_AT as int, be_bytes(ck1));
    let ck2 = udp_checksum_of(c);
    let out = put_bytes(c, us + 6, be_bytes(ck2));
    lemma_readdressed_layout(raw, mac, ip);
    lemma_put_bytes_keeps_layout(z, IPV4_CHECKSUM_AT as int, be_bytes(ck1));
    lemma_put_bytes_keeps_layout(c, us + 6, be_bytes(ck2));
    lemma_put_bytes(c, us + 6, be_bytes(ck2));
    lemma_put_bytes_keeps(c, us + 6, be_bytes(ck2), 30, 34);
    lemma_put_bytes_keeps(c, us + 6, be_bytes(ck2), 26, 30);
    let sc = udp_segment(c);
    let so = udp_segment(out);
    assert forall|i: int| 0 <= i < sc.len() && i != 6 && i != 7 implies sc[i] == so[i] by {
        assert(sc[i] == c[us + i]);
        assert(so[i] == out[us + i]);
    }
    lemma_be_bytes_word(ck2);
    assert(so[6] == out[us + 6] && so[7] == out[us + 7]);
    assert(word_at(so, 3) == ck2 as nat);
    let base = pseudo_header_sum(
        c.subrange(26, 30),
        c.subrange(30, 34),
        UDP_PROTOCOL as nat,
        udp_len(c) as nat,
    );
    lemma_filled_checksum_verifies(sc, so, 3, base);
}

/// Rewriting a well-formed UDP frame changes no byte but the destination
/// MAC, the destination IPv4 address and the two checksum fields; the UDP
/// payload is kept exactly; and both the IPv4 header and the UDP segment with
/// its pseudo-header verify (their words, checksum included, fold to all ones).
pub proof fn lemma_rewrite_preserves_and_verifies(raw: Seq<u8>, mac: [u8; 6], ip: [u8; 4])
    requires
        is_udp(raw),
    ensures
        ({
            let out = rewritten(raw, mac, ip);
            &&& out.len() == raw.len()
            &&& is_udp(out)
            &&& out.subrange(0, 6) == mac@
            &&& out.subrange(30, 34) == ip@
            &&& forall|k: int|
                0 <= k < raw.len() && !(0 <= k < 6) && !(24 <= k < 26) && !(30 <= k < 34) && !(
                udp_start(raw) + 6 <= k < udp_start(raw) + 8) ==> #[trigger] out[k] == raw[k]
            &&& udp_payload(out) == udp_payload(raw)
            &&& sum_verifies(be_word_sum(ipv4_header(out), -1))
            &&& sum_verifies(
                pseudo_header_sum(
                    out.subrange(26, 30),
                    out.subrange(30, 34),
                    UDP_PROTOCOL as nat,
                    udp_len(out) as nat,
                ) + be_word_sum(udp_segment(out), -1),
            )
        }),
{
    let out = rewritten(raw, mac, ip);
    lemma_rewritten_bytes(raw, mac, ip);
    lemma_rewritten_addresses(raw, mac, ip);
    lemma_rewritten_ipv4_verifies(raw, mac, ip);
    lemma_rewritten_udp_verifies(raw, mac, ip);
    assert(udp_payload(out) =~= udp_payload(raw));
}

fn write_bytes(v: &mut Vec<u8>, at: usize, b: &[u8])
    requires
        at + b@.len() <= old(v)@.len(),
    ensures
        final(v)@ == put_bytes(old(v)@, at as int, b@),
{
    let n = v.len();
    let mut i: usize = 0;
    while i < b.len()
        invariant
            v@.len() == old(v)@.len(),
            n == v@.len(),
            at + b@.len() <= v@.len(),
            i <= b@.len(),
            forall|k: int|
                0 <= k < v@.len() ==> v@[k] == if at <= k < at + i {
                    b@[k - at]
                } else {
                    old(v)@[k]
                },
        decreases b.len() - i,
    {
        v.set(at + i, b[i]);
        i += 1;
    }
    assert(v@ =~= put_bytes(old(v)@, at as int, b@));
}

fn write_be16(v: &mut Vec<u8>, at: usize, x: u16)
    requires
        at + 2 <= old(v)@.len(),
    ensures
        final(v)@ == put_bytes(old(v)@, at as int, be_bytes(x)),
{
    let b = [(x / 256) as u8, (x % 256) as u8];
    assert(b@ =~= be_bytes(x));
    write_bytes(v, at, &b);
}

/// Copies a well-formed Ethernet/IPv4/UDP frame with a new destination MAC and
/// destination IPv4 address and both checksums recomputed; `None` for any
/// other frame.
pub fn rewrite(raw: &[u8], new_eth_dst: [u8; 6], new_ipv4_dst: [u8; 4]) -> (r: Option<Vec<u8>>)
    ensures
        match r {
            Some(v) => is_udp(raw@) && v@ == rewritten(raw@, new_eth_dst, new_ipv4_dst),
            None => !is_udp(raw@),
        },
{
    let h = match decode(raw) {
        Ok(h) => h,
        Err(_) => return None,
    };
    let (ip, udp) = match (h.ipv4, h.udp) {
        (Some(ip), Some(udp)) => (ip, udp),
        _ => return None,
    };
    let ghost s = raw@;
    let start = ETH_HEADER_LEN + ip.header_len;
    let mut out = vstd::slice::slice_to_vec(raw);
    write_bytes(&mut out, 0, &new_eth_dst);
    write_bytes(&mut out, IPV4_DST_AT, &new_ipv4_dst);
    write_be16(&mut out, IPV4_CHECKSUM_AT, 0);
    write_be16(&mut out, start + 6, 0);
    let ghost z = out@;
    proof {
        assert(be_bytes(0) =~= seq![0u8, 0u8]);
        lemma_readdressed_layout(s, new_eth_dst, new_ipv4_dst);
    }
    let ip_check = pnet_checksum(&out.as_slice()[ETH_HEADER_LEN..start], 5);
    write_be16(&mut out, IPV4_CHECKSUM_AT, ip_check);
    let ghost c = out@;
    proof {
        lemma_put_bytes_keeps_layout(z, IPV4_CHECKSUM_AT as int, be_bytes(ip_check));
        lemma_put_bytes_keeps(z, IPV4_CHECKSUM_AT as int, be_bytes(ip_check), 26, 30);
        lemma_put_bytes_keeps(z, IPV4_CHECKSUM_AT as int, be_bytes(ip_check), 30, 34);
    }
    let udp_check = pnet_udp_checksum(&out.as_slice()[start..start + udp.length], ip.src, new_ipv4_dst);
    write_be16(&mut out, start + 6, udp_check);
    Some(out)
}

/// Why a frame hands no text to the sentence parser.
#[derive(Clone, Copy, Debug, PartialEq, Eq, Structural)]
pub enum PayloadError {
    /// Not IPv4, or IPv4 but not UDP.
    NotApplicable,
    /// The IPv4 or UDP header could not be read.
    Decode(DecodeError),
    /// The UDP payload is not UTF-8.
    NotText,
}

/// The text a frame carries: its UDP payload decoded as UTF-8.
pub open spec fn payload_text(raw: Seq<u8>) -> Result<Seq<char>, PayloadError> {
    match decode_error(raw) {
        Some(e) => Err(PayloadError::Decode(e)),
        None => if !is_udp(raw) {
            Err(PayloadError::NotApplicable)
        } else if !valid_utf8(udp_payload(raw)) {
            Err(PayloadError::NotText)
        } else {
            Ok(decode_utf8(udp_payload(raw)))
        },
    }
}

/// Relies on std::str::from_utf8: it accepts exactly the valid UTF-8 byte
/// sequences, and the text it returns is what they encode.
#[verifier::external_body]
fn utf8_text(bytes: &[u8]) -> (r: Option<&str>)
    ensures
        r is Some <==> valid_utf8(bytes@),
        r matches Some(t) ==> t@ == decode_utf8(bytes@),
{
    std::str::from_utf8(bytes).ok()
}

/// Reads the text that a frame carries in its UDP payload.
pub struct PacketParser<'a> {
    packet: &'a [u8],
}

impl<'a> PacketParser<'a> {
    /// The frame this parser reads.
    pub closed spec fn bytes(&self) -> Seq<u8> {
        self.packet@
    }

    pub fn new(packet: &'a [u8]) -> (r: Self)
        ensures
            r.bytes() == packet@,
    {
        PacketParser { packet }
    }

    /// The UDP payload as text, or why there is none.
    pub fn parse_traffic(&self) -> (r: Result<String, PayloadError>)
        ensures
            match r {
                Ok(t) => payload_text(self.bytes()) == Ok::<Seq<char>, PayloadError>(t@),
                Err(e) => payload_text(self.bytes()) == Err::<Seq<char>, PayloadError>(e),
            },
    {
        let h = match decode(self.packet) {
            Ok(h) => h,
            Err(e) => return Err(PayloadError::Decode(e)),
        };
        let udp = match h.udp {
            Some(u) => u,
            None => return Err(PayloadError::NotApplicable),
        };
        let payload = &self.packet[udp.payload_start..udp.payload_end];
        assert(payload@ == udp_payload(self.packet@));
        match utf8_text(payload) {
            Some(t) => Ok(t.to_string()),
            None => Err(PayloadError::NotText),
        }
    }
}

} // verus!
