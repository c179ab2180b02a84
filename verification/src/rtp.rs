//! RTP packet assembly: the 12-byte header, the 12-byte counter nonce, the
//! encrypted Opus payload and the trailing nonce counter, with the
//! sequence, timestamp and nonce counters advancing monotonically modulo
//! their widths.

use vstd::prelude::*;
use crate::crypto::{VoiceCrypto, aead_ct_of};
use crate::wire::{be16, be32, push_be16, push_be32};

verus! {

/// The counters of one voice stream; the socket that carries the packets
/// lives with the caller.
pub struct VoiceUdp {
    pub ssrc: u32,
    pub sequence: u16,
    pub timestamp: u32,
    pub nonce: u32,
}

/// The 12-byte RTP header: version/payload-type bytes, then the sequence,
/// timestamp and SSRC in big-endian form.
pub open spec fn rtp_header_of(u: VoiceUdp) -> Seq<u8> {
    seq![0x80u8, 0x78u8] + be16(u.sequence) + be32(u.timestamp) + be32(u.ssrc)
}

/// A run of zero bytes.
pub open spec fn zeros(n: nat) -> Seq<u8> {
    Seq::new(n, |j: int| 0u8)
}

/// The 12-byte AEAD nonce: the 32-bit counter in the first four bytes,
/// zeroes after.
pub open spec fn nonce_bytes_of(n: u32) -> Seq<u8> {
    be32(n) + seq![0u8, 0u8, 0u8, 0u8, 0u8, 0u8, 0u8, 0u8]
}

/// The bytes of one voice packet: header, ciphertext-and-tag of the
/// payload under the counter nonce with the header as associated data,
/// then the nonce counter.
pub open spec fn rtp_packet_of(u: VoiceUdp, key: Seq<u8>, payload: Seq<u8>) -> Seq<u8> {
    rtp_header_of(u) + aead_ct_of(key, nonce_bytes_of(u.nonce), rtp_header_of(u), payload) + be32(
        u.nonce,
    )
}

/// The counters after one packet: sequence up one modulo 2^16, timestamp
/// up 960 modulo 2^32, nonce up one modulo 2^32.
pub open spec fn advanced(u: VoiceUdp) -> VoiceUdp {
    VoiceUdp {
        ssrc: u.ssrc,
        sequence: (((u.sequence + 1) % 0x10000) as u16),
        timestamp: (((u.timestamp + 960) % 0x100000000) as u32),
        nonce: (((u.nonce + 1) % 0x100000000) as u32),
    }
}

/// The counters after `n` packets.
pub open spec fn advanced_n(u: VoiceUdp, n: nat) -> VoiceUdp
    decreases n,
{
    if n == 0 {
        u
    } else {
        advanced(advanced_n(u, (n - 1) as nat))
    }
}

/// Across any send sequence from the initial counters, the n-th packet
/// goes out with sequence `n mod 2^16`, timestamp `960·n mod 2^32` and
/// nonce `n mod 2^32`: three strictly increasing sequences modulo their
/// widths, the timestamp stepping by exactly 960.
pub proof fn lemma_counter_trajectory(u: VoiceUdp, n: nat)
    requires
        u.sequence == 0,
        u.timestamp == 0,
        u.nonce == 0,
    ensures
        advanced_n(u, n).sequence == n % 0x10000,
        advanced_n(u, n).timestamp == (n * 960) % 0x100000000,
        advanced_n(u, n).nonce == n % 0x100000000,
    decreases n,
{
    if n > 0 {
        let m = (n - 1) as nat;
        lemma_counter_trajectory(u, m);
        vstd::arithmetic::div_mod::lemma_add_mod_noop(m as int, 1int, 0x10000int);
        vstd::arithmetic::div_mod::lemma_add_mod_noop(m as int * 960, 960int, 0x100000000int);
        vstd::arithmetic::div_mod::lemma_add_mod_noop(m as int, 1int, 0x100000000int);
    }
}

impl VoiceUdp {
    /// Fresh counters for a stream: everything starts at zero.
    pub fn new(ssrc: u32) -> (r: Self)
        ensures
            r.ssrc == ssrc,
            r.sequence == 0,
            r.timestamp == 0,
            r.nonce == 0,
    {
        VoiceUdp { ssrc, sequence: 0, timestamp: 0, nonce: 0 }
    }

    /// Builds the encrypted packet for one Opus frame and advances the
    /// counters; the caller puts the bytes on the wire.
    pub fn send_opus(&mut self, payload: &[u8], crypto: &VoiceCrypto) -> (r: Vec<u8>)
        requires
            payload@.len() < 0x100000000,
        ensures
            r@ == rtp_packet_of(*old(self), crypto@, payload@),
            *final(self) == advanced(*old(self)),
    {
        let mut header: Vec<u8> = Vec::new();
        header.push(0x80);
        header.push(0x78);
        push_be16(&mut header, self.sequence);
        push_be32(&mut header, self.timestamp);
        push_be32(&mut header, self.ssrc);
        assert(header@ =~= rtp_header_of(*self));

        let mut nonce: Vec<u8> = Vec::new();
        push_be32(&mut nonce, self.nonce);
        let mut i: usize = 0;
        while i < 8
            invariant
                4 <= nonce@.len() == 4 + i,
                i <= 8,
                nonce@ == be32(self.nonce) + zeros(i as nat),
                self == old(self),
            decreases 8 - i,
        {
            nonce.push(0u8);
            proof {
                assert(nonce@ =~= be32(self.nonce) + zeros((i + 1) as nat));
            }
            i += 1;
        }
        assert(nonce@ =~= nonce_bytes_of(self.nonce));

        let encrypted = crypto.encrypt(payload, nonce.as_slice(), header.as_slice());

        let mut packet: Vec<u8> = Vec::new();
        packet.extend_from_slice(header.as_slice());
        packet.extend_from_slice(encrypted.as_slice());
        push_be32(&mut packet, self.nonce);
        assert(packet@ =~= rtp_packet_of(*self, crypto@, payload@));

        self.sequence = self.sequence.wrapping_add(1);
        self.timestamp = self.timestamp.wrapping_add(960);
        self.nonce = self.nonce.wrapping_add(1);
        assert(*self == advanced(*old(self)));
        packet
    }
}

/// The 74-byte IP discovery request: type 1, length 70, the SSRC, zeroes.
pub fn build_discovery_packet(ssrc: u32) -> (r: Vec<u8>)
    ensures
        r@.len() == 74,
        r@.subrange(0, 2) == be16(1),
        r@.subrange(2, 4) == be16(70),
        r@.subrange(4, 8) == be32(ssrc),
        forall|k: int| 8 <= k < 74 ==> r@[k] == 0,
{
    let mut r: Vec<u8> = Vec::new();
    push_be16(&mut r, 1);
    push_be16(&mut r, 70);
    push_be32(&mut r, ssrc);
    let mut i: usize = 8;
    while i < 74
        invariant
            8 <= i <= 74,
            r@.len() == i,
            r@.subrange(0, 8) == be16(1) + be16(70) + be32(ssrc),
            forall|k: int| 8 <= k < i ==> r@[k] == 0,
        decreases 74 - i,
    {
        r.push(0);
        proof {
            assert(r@.subrange(0, 8) =~= be16(1) + be16(70) + be32(ssrc));
        }
        i += 1;
    }
    proof {
        let head = r@.subrange(0, 8);
        assert(head == be16(1) + be16(70) + be32(ssrc));
        assert(r@.subrange(0, 2) =~= head.subrange(0, 2));
        assert(r@.subrange(2, 4) =~= head.subrange(2, 4));
        assert(r@.subrange(4, 8) =~= head.subrange(4, 8));
        assert(head.subrange(0, 2) =~= be16(1));
        assert(head.subrange(2, 4) =~= be16(70));
        assert(head.subrange(4, 8) =~= be32(ssrc));
    }
    r
}

/// The first index in `[from, to)` holding a non-zero byte, or `to`.
pub open spec fn first_nonzero(s: Seq<u8>, from: int, to: int) -> int
    decreases to - from,
{
    if from >= to {
        to
    } else if s[from] != 0 {
        from
    } else {
        first_nonzero(s, from + 1, to)
    }
}

proof fn lemma_first_nonzero_at(s: Seq<u8>, from: int, to: int, lo: int)
    requires
        from <= lo <= to,
        forall|k: int| from <= k < lo ==> s[k] == 0,
        lo < to ==> s[lo] != 0,
    ensures
        first_nonzero(s, from, to) == lo,
    decreases to - from,
{
    if from < lo {
        lemma_first_nonzero_at(s, from + 1, to, lo);
    }
}

/// One past the last index in `[from, to)` holding a non-zero byte, or
/// `from`.
pub open spec fn last_nonzero_end(s: Seq<u8>, from: int, to: int) -> int
    decreases to - from,
{
    if to <= from {
        from
    } else if s[to - 1] != 0 {
        to
    } else {
        last_nonzero_end(s, from, to - 1)
    }
}

proof fn lemma_last_nonzero_end_at(s: Seq<u8>, from: int, to: int, hi: int)
    requires
        from <= hi <= to,
        forall|k: int| hi <= k < to ==> s[k] == 0,
        hi > from ==> s[hi - 1] != 0,
    ensures
        last_nonzero_end(s, from, to) == hi,
    decreases to - from,
{
    if hi < to {
        lemma_last_nonzero_end_at(s, from, to - 1, hi);
    }
}

/// The NUL-trimmed address region of a discovery answer of length `len`:
/// offset 8 up to the final two bytes, leading and trailing zero bytes
/// dropped.
pub open spec fn discovery_text_range(s: Seq<u8>, len: int) -> (int, int) {
    let lo = first_nonzero(s, 8, len - 2);
    (lo, last_nonzero_end(s, lo, len - 2))
}

/// Reads a discovery answer: the external address is the NUL-trimmed text
/// at offset 8 up to the final two bytes, which carry the port. It
/// succeeds exactly when the answer is long enough and that text is
/// valid UTF-8.
pub fn parse_discovery_response(res: &Vec<u8>, len: usize) -> (r: Option<(String, u16)>)
    requires
        len <= res.len(),
    ensures
        len < 10 ==> r is None,
        len >= 10 ==> ({
            let (lo, hi) = discovery_text_range(res@, len as int);
            &&& (r is Some <==> vstd::utf8::valid_utf8(res@.subrange(lo, hi)))
            &&& (r matches Some((ip, port)) ==> ip@ == vstd::utf8::decode_utf8(
                res@.subrange(lo, hi),
            ) && port == crate::wire::be16_value(res@[len - 2], res@[len - 1]))
        }),
{
    if len < 10 {
        return None;
    }
    let mut lo: usize = 8;
    while lo < len - 2 && res[lo] == 0
        invariant
            8 <= lo <= len - 2,
            len <= res.len(),
            10 <= len,
            forall|k: int| 8 <= k < lo ==> res@[k] == 0,
        decreases len - lo,
    {
        lo += 1;
    }
    proof {
        lemma_first_nonzero_at(res@, 8, len - 2, lo as int);
    }
    let mut hi: usize = len - 2;
    while hi > lo && res[hi - 1] == 0
        invariant
            lo <= hi <= len - 2,
            len <= res.len(),
            10 <= len,
            forall|k: int| hi <= k < len - 2 ==> res@[k] == 0,
        decreases hi,
    {
        hi -= 1;
    }
    proof {
        lemma_last_nonzero_end_at(res@, lo as int, len - 2, hi as int);
    }
    let text_bytes = crate::wire::vec_range(res, lo, hi);
    let ip = match crate::track::string_from_utf8(text_bytes) {
        Some(s) => s,
        None => {
            return None;
        },
    };
    let port = crate::wire::read_be16(res, len - 2);
    Some((ip, port))
}

/// One 20 ms frame of Opus silence; five of these close a stream.
pub fn silence_frame() -> (r: Vec<u8>)
    ensures
        r@ == seq![0xf8u8, 0xffu8, 0xfeu8],
{
    let mut v: Vec<u8> = Vec::new();
    v.push(0xf8);
    v.push(0xff);
    v.push(0xfe);
    assert(v@ =~= seq![0xf8u8, 0xffu8, 0xfeu8]);
    v
}

} // verus!
