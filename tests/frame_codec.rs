use ship_switch::frame::{decode, rewrite, DecodeError, PacketParser, PayloadError};

fn udp_frame(dst: [u8; 6], src: [u8; 6], ip_src: [u8; 4], ip_dst: [u8; 4], payload: &[u8]) -> Vec<u8> {
    let mut f = Vec::new();
    f.extend_from_slice(&dst);
    f.extend_from_slice(&src);
    f.extend_from_slice(&[0x08, 0x00]);
    let total = 20 + 8 + payload.len();
    f.extend_from_slice(&[0x45, 0x00, (total >> 8) as u8, total as u8, 0x12, 0x34, 0x40, 0x00, 64, 17, 0xAB, 0xCD]);
    f.extend_from_slice(&ip_src);
    f.extend_from_slice(&ip_dst);
    let ulen = 8 + payload.len();
    f.extend_from_slice(&[0x1F, 0x90, 0x22, 0xB8, (ulen >> 8) as u8, ulen as u8, 0x00, 0x00]);
    f.extend_from_slice(payload);
    f
}

fn ones_sum(words: &[u8]) -> u32 {
    let mut sum: u32 = 0;
    let mut i = 0;
    while i + 1 < words.len() {
        sum += ((words[i] as u32) << 8) | words[i + 1] as u32;
        i += 2;
    }
    if i < words.len() {
        sum += (words[i] as u32) << 8;
    }
    while sum > 0xFFFF {
        sum = (sum >> 16) + (sum & 0xFFFF);
    }
    sum
}

#[test]
fn decode_rejects_short_frames() {
    assert_eq!(decode(&[0u8; 10]).err(), Some(DecodeError::Truncated));
    assert_eq!(decode(&[0u8; 13]).err(), Some(DecodeError::Truncated));
}

#[test]
fn decode_non_ipv4_is_not_applicable() {
    let mut f = vec![0xFFu8; 12];
    f.extend_from_slice(&[0x08, 0x06]);
    f.extend_from_slice(&[0u8; 28]);
    let h = decode(&f).unwrap();
    assert_eq!(h.ethertype, 0x0806);
    assert!(h.ipv4.is_none());
    assert!(h.udp.is_none());
    assert_eq!(h.eth_dst, [0xFF; 6]);
}

#[test]
fn decode_reads_udp_headers() {
    let f = udp_frame([1, 2, 3, 4, 5, 6], [7, 8, 9, 10, 11, 12], [10, 0, 0, 1], [10, 0, 0, 2], b"$IIHDT,33,T*44");
    let h = decode(&f).unwrap();
    assert_eq!(h.eth_dst, [1, 2, 3, 4, 5, 6]);
    assert_eq!(h.eth_src, [7, 8, 9, 10, 11, 12]);
    let ip = h.ipv4.unwrap();
    assert_eq!(ip.src, [10, 0, 0, 1]);
    assert_eq!(ip.dst, [10, 0, 0, 2]);
    assert_eq!(ip.protocol, 17);
    assert_eq!(ip.header_len, 20);
    let u = h.udp.unwrap();
    assert_eq!(u.src_port, 8080);
    assert_eq!(u.dst_port, 8888);
    assert_eq!(u.length, 22);
    assert_eq!(&f[u.payload_start..u.payload_end], b"$IIHDT,33,T*44");
}

#[test]
fn decode_bounds_payload_by_udp_length() {
    let mut f = udp_frame([1; 6], [2; 6], [10, 0, 0, 1], [10, 0, 0, 2], b"abc");
    f.extend_from_slice(&[0u8; 7]);
    let h = decode(&f).unwrap();
    let u = h.udp.unwrap();
    assert_eq!(&f[u.payload_start..u.payload_end], b"abc");
}

#[test]
fn decode_malformed_and_truncated_headers() {
    let mut f = udp_frame([1; 6], [2; 6], [10, 0, 0, 1], [10, 0, 0, 2], b"abc");
    f[14] = 0x44;
    assert_eq!(decode(&f).err(), Some(DecodeError::Malformed));
    let mut g = udp_frame([1; 6], [2; 6], [10, 0, 0, 1], [10, 0, 0, 2], b"abc");
    g[38] = 0;
    g[39] = 4;
    assert_eq!(decode(&g).err(), Some(DecodeError::Malformed));
    let mut t = udp_frame([1; 6], [2; 6], [10, 0, 0, 1], [10, 0, 0, 2], b"abc");
    t[39] = 200;
    assert_eq!(decode(&t).err(), Some(DecodeError::Truncated));
    let short = udp_frame([1; 6], [2; 6], [10, 0, 0, 1], [10, 0, 0, 2], b"");
    assert_eq!(decode(&short[..30]).err(), Some(DecodeError::Truncated));
}

#[test]
fn decode_non_udp_ipv4() {
    let mut f = udp_frame([1; 6], [2; 6], [10, 0, 0, 1], [10, 0, 0, 2], b"abc");
    f[23] = 6;
    let h = decode(&f).unwrap();
    assert_eq!(h.ipv4.unwrap().protocol, 6);
    assert!(h.udp.is_none());
    assert!(rewrite(&f, [9; 6], [10, 0, 0, 9]).is_none());
}

#[test]
fn rewrite_changes_only_destination_and_checksums() {
    let payload = b"$IIHDT,33,T*44";
    let f = udp_frame([0xFF; 6], [0xAA; 6], [192, 168, 0, 1], [192, 168, 0, 255], payload);
    let out = rewrite(&f, [0xBB; 6], [192, 168, 0, 2]).unwrap();
    assert_eq!(out.len(), f.len());
    assert_eq!(&out[0..6], &[0xBB; 6]);
    assert_eq!(&out[30..34], &[192, 168, 0, 2]);
    for k in 0..f.len() {
        let changed = k < 6 || (24..26).contains(&k) || (30..34).contains(&k) || (40..42).contains(&k);
        if !changed {
            assert_eq!(out[k], f[k], "byte {}", k);
        }
    }
    assert_eq!(&out[42..], payload);
    assert_eq!(ones_sum(&out[14..34]), 0xFFFF);
    let mut pseudo = Vec::new();
    pseudo.extend_from_slice(&out[26..34]);
    pseudo.extend_from_slice(&[0, 17, 0, (8 + payload.len()) as u8]);
    pseudo.extend_from_slice(&out[34..]);
    assert_eq!(ones_sum(&pseudo), 0xFFFF);
}

#[test]
fn rewrite_ipv4_checksum_known_value() {
    let mut f = vec![0u8; 14];
    f[12] = 0x08;
    f.extend_from_slice(&[
        0x45, 0x00, 0x00, 0x73, 0x00, 0x00, 0x40, 0x00, 0x40, 0x11, 0x00, 0x00, 0xc0, 0xa8, 0x00, 0x01,
        0xc0, 0xa8, 0x00, 0x09,
    ]);
    f.extend_from_slice(&[0x00, 0x35, 0x00, 0x35, 0x00, 0x08, 0x00, 0x00]);
    let out = rewrite(&f, [0; 6], [0xc0, 0xa8, 0x00, 0xc7]).unwrap();
    assert_eq!(&out[24..26], &[0xb8, 0x61]);
    assert_ne!(&out[40..42], &[0x00, 0x00]);
}

#[test]
fn rewrite_refuses_malformed_frames() {
    assert!(rewrite(&[0u8; 10], [1; 6], [1, 2, 3, 4]).is_none());
    let mut f = udp_frame([1; 6], [2; 6], [10, 0, 0, 1], [10, 0, 0, 2], b"abc");
    f[12] = 0x86;
    f[13] = 0xDD;
    assert!(rewrite(&f, [1; 6], [1, 2, 3, 4]).is_none());
}

#[test]
fn packet_parser_reads_payload_text() {
    let f = udp_frame([1; 6], [2; 6], [10, 0, 0, 1], [10, 0, 0, 2], b"$GPGLL,1,N,2,E,3,A,A*00");
    let p = PacketParser::new(&f);
    assert_eq!(p.parse_traffic().unwrap(), "$GPGLL,1,N,2,E,3,A,A*00");
    let g = udp_frame([1; 6], [2; 6], [10, 0, 0, 1], [10, 0, 0, 2], &[0xC3, 0x28]);
    assert_eq!(PacketParser::new(&g).parse_traffic().err(), Some(PayloadError::NotText));
    let mut h = g.clone();
    h[23] = 6;
    assert_eq!(PacketParser::new(&h).parse_traffic().err(), Some(PayloadError::NotApplicable));
    assert_eq!(
        PacketParser::new(&g[..20]).parse_traffic().err(),
        Some(PayloadError::Decode(DecodeError::Truncated))
    );
}
