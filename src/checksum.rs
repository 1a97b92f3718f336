//! The Internet checksum: 16-bit one's-complement sums over big-endian words.
use vstd::prelude::*;

verus! {

/// The `k`-th big-endian 16-bit word of `s`; a lone last byte is the high half.
pub open spec fn word_at(s: Seq<u8>, k: int) -> nat {
    if 0 <= 2 * k && 2 * k + 1 < s.len() {
        (s[2 * k] as nat) * 256 + (s[2 * k + 1] as nat)
    } else if 0 <= 2 * k && 2 * k < s.len() {
        (s[2 * k] as nat) * 256
    } else {
        0
    }
}

/// Sum of the words `0..n` of `s`, leaving out word `skip`.
pub open spec fn words_sum(s: Seq<u8>, skip: int, n: nat) -> nat
    decreases n,
{
    if n == 0 {
        0
    } else {
        words_sum(s, skip, (n - 1) as nat) + if n - 1 == skip {
            0
        } else {
            word_at(s, n - 1)
        }
    }
}

/// Number of 16-bit words that cover `s`.
pub open spec fn word_count(s: Seq<u8>) -> nat {
    ((s.len() + 1) / 2) as nat
}

/// Sum of all words of `s` but word `skip` (a negative `skip` leaves out none).
pub open spec fn be_word_sum(s: Seq<u8>, skip: int) -> nat {
    words_sum(s, skip, word_count(s))
}

/// End-around carry: the high half is added back onto the low half until
/// the value fits in 16 bits.
pub open spec fn fold16(x: nat) -> nat
    decreases x,
{
    if x < 0x10000 {
        x
    } else {
        fold16(x / 0x10000 + x % 0x10000)
    }
}

/// The checksum that covers a total `sum`: the complement of its folded value.
pub open spec fn ones_complement(sum: nat) -> u16 {
    (0xFFFF - fold16(sum)) as u16
}

/// A total whose folded value is all ones: what a receiver checks.
pub open spec fn sum_verifies(sum: nat) -> bool {
    fold16(sum) == 0xFFFF
}

/// Folding keeps the value modulo 0xFFFF, lands in 16 bits, and keeps a
/// positive total positive.
pub proof fn lemma_fold16(x: nat)
    ensures
        fold16(x) <= 0xFFFF,
        fold16(x) % 0xFFFF == x % 0xFFFF,
        x > 0 ==> fold16(x) > 0,
    decreases x,
{
    if x >= 0x10000 {
        let y = x / 0x10000 + x % 0x10000;
        assert(y % 0xFFFF == x % 0xFFFF) by (nonlinear_arith)
            requires
                y == x / 0x10000 + x % 0x10000,
        {
            assert(x == 0x10000 * (x / 0x10000) + x % 0x10000);
            assert(x == 0xFFFF * (x / 0x10000) + y);
        }
        assert(y > 0 && y < x);
        lemma_fold16(y);
    }
}

/// Adding the complement of the folded sum makes a total that verifies.
pub proof fn lemma_complement_verifies(sum: nat)
    ensures
        sum_verifies(sum + ones_complement(sum) as nat),
{
    lemma_fold16(sum);
    let c = (0xFFFF - fold16(sum)) as nat;
    assert(ones_complement(sum) as nat == c);
    let t = sum + c;
    assert(t > 0);
    assert(t % 0xFFFF == 0) by (nonlinear_arith)
        requires
            t == sum + c,
            c == 0xFFFF - fold16(sum),
            fold16(sum) % 0xFFFF == sum % 0xFFFF,
            fold16(sum) <= 0xFFFF,
    {
    }
    lemma_fold16(t);
}

/// With word `k` left out, the sum does not read that word's bytes.
pub proof fn lemma_words_sum_ignores_skipped(s1: Seq<u8>, s2: Seq<u8>, k: int, n: nat)
    requires
        s1.len() == s2.len(),
        forall|i: int| 0 <= i < s1.len() && i != 2 * k && i != 2 * k + 1 ==> s1[i] == s2[i],
    ensures
        words_sum(s1, k, n) == words_sum(s2, k, n),
    decreases n,
{
    if n > 0 {
        lemma_words_sum_ignores_skipped(s1, s2, k, (n - 1) as nat);
        if n - 1 != k {
            assert(word_at(s1, n - 1) == word_at(s2, n - 1));
        }
    }
}

/// Counting word `k` back in adds that word.
pub proof fn lemma_words_sum_unskip(s: Seq<u8>, k: int, n: nat)
    requires
        0 <= k < n,
    ensures
        words_sum(s, -1, n) == words_sum(s, k, n) + word_at(s, k),
    decreases n,
{
    if n - 1 > k {
        lemma_words_sum_unskip(s, k, (n - 1) as nat);
    } else {
        lemma_words_sum_same_skip_outside(s, k, -1, (n - 1) as nat);
    }
}

/// Two skips outside the words counted give the same sum.
pub proof fn lemma_words_sum_same_skip_outside(s: Seq<u8>, k1: int, k2: int, n: nat)
    requires
        k1 >= n || k1 < 0,
        k2 >= n || k2 < 0,
    ensures
        words_sum(s, k1, n) == words_sum(s, k2, n),
    decreases n,
{
    if n > 0 {
        lemma_words_sum_same_skip_outside(s, k1, k2, (n - 1) as nat);
    }
}

/// A checksum word filled in with the complement of the sum that left it out
/// makes the full sum verify.
pub proof fn lemma_filled_checksum_verifies(h1: Seq<u8>, h2: Seq<u8>, k: int, base: nat)
    requires
        h1.len() == h2.len(),
        0 <= k,
        2 * k + 1 < h1.len(),
        forall|i: int| 0 <= i < h1.len() && i != 2 * k && i != 2 * k + 1 ==> h1[i] == h2[i],
        word_at(h2, k) == ones_complement(base + be_word_sum(h1, k)) as nat,
    ensures
        sum_verifies(base + be_word_sum(h2, -1)),
{
    lemma_words_sum_ignores_skipped(h1, h2, k, word_count(h2));
    lemma_words_sum_unskip(h2, k, word_count(h2));
    lemma_complement_verifies(base + be_word_sum(h1, k));
}

/// Relies on pnet::packet::util::checksum: the complement of the folded sum
/// of the big-endian 16-bit words of `data`, word `skipword` left out.
#[verifier::external_body]
pub(crate) fn pnet_checksum(data: &[u8], skipword: usize) -> (r: u16)
    requires
        0 < data@.len() <= 0xFFFF,
    ensures
        r == ones_complement(be_word_sum(data@, skipword as int)),
{
    pnet::packet::util::checksum(data, skipword)
}

/// Sum of the pseudo-header that UDP over IPv4 checksums: both addresses as
/// two words each, the protocol number and the length.
pub open spec fn pseudo_header_sum(source: Seq<u8>, destination: Seq<u8>, protocol: nat, len: nat) -> nat {
    word_at(source, 0) + word_at(source, 1) + word_at(destination, 0) + word_at(destination, 1)
        + protocol + len
}

/// The IP protocol number of UDP.
pub const UDP_PROTOCOL: u8 = 17;

/// Relies on pnet::packet::util::ipv4_checksum with no extra data, as
/// pnet::packet::udp::ipv4_checksum calls it: the complement of the folded sum
/// of the pseudo-header (source, destination, UDP, the length of `segment`)
/// and the words of `segment` but the checksum word (word 3).
#[verifier::external_body]
pub(crate) fn pnet_udp_checksum(segment: &[u8], source: [u8; 4], destination: [u8; 4]) -> (r: u16)
    requires
        segment@.len() <= 0xFFFF,
    ensures
        r == ones_complement(
            pseudo_header_sum(source@, destination@, UDP_PROTOCOL as nat, segment@.len())
                + be_word_sum(segment@, 3),
        ),
{
    pnet::packet::util::ipv4_checksum(
        segment,
        3,
        &[],
        &source.into(),
        &destination.into(),
        pnet::packet::ip::IpNextHeaderProtocols::Udp,
    )
}

} // verus!
