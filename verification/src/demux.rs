//! Streaming WebM/Opus demuxer: an incremental EBML parser that selects the
//! audio track and emits the Opus payload of each of its SimpleBlocks.
//!
//! `decode` consumes bytes from the front of a buffer and returns one frame,
//! or `None` when the buffer holds no complete next frame yet; a skip that
//! spans reads is carried in `skip_len`.

use vstd::prelude::*;

verus! {

pub const EBML_HEADER: u64 = 0x1A45DFA3;

pub const SEGMENT: u64 = 0x18538067;

pub const CLUSTER: u64 = 0x1F43B675;

pub const TRACKS: u64 = 0x1654AE6B;

pub const TRACK_ENTRY: u64 = 0xAE;

pub const TRACK_NUMBER: u64 = 0xD7;

pub const TRACK_TYPE: u64 = 0x83;

pub const SIMPLE_BLOCK: u64 = 0xA3;

pub const CODEC_PRIVATE: u64 = 0x63A2;

pub const VOID: u64 = 0xEC;

/// 256 to the n-th power.
pub open spec fn pow_256(n: int) -> int
    decreases n,
{
    if n <= 0 {
        1
    } else {
        256 * pow_256(n - 1)
    }
}

proof fn lemma_pow256_pos(n: int)
    ensures
        pow_256(n) >= 1,
    decreases n,
{
    if n > 0 {
        lemma_pow256_pos(n - 1);
    }
}

proof fn lemma_pow256_le(a: int, b: int)
    requires
        a <= b,
    ensures
        pow_256(a) <= pow_256(b),
    decreases b - a,
{
    if a < b {
        lemma_pow256_le(a, b - 1);
        lemma_pow256_pos(b - 1);
    }
}

/// The width in bytes a VINT's first byte declares: the position of its
/// marker bit; 9 stands for "no marker", which no valid VINT has.
pub open spec fn vint_width_of(first: u8) -> int {
    if first >= 0x80 {
        1
    } else if first >= 0x40 {
        2
    } else if first >= 0x20 {
        3
    } else if first >= 0x10 {
        4
    } else if first >= 0x08 {
        5
    } else if first >= 0x04 {
        6
    } else if first >= 0x02 {
        7
    } else if first >= 0x01 {
        8
    } else {
        9
    }
}

/// The mask selecting the value bits below the marker bit.
pub open spec fn vint_mask_of(first: u8) -> u8 {
    if first >= 0x80 {
        0x7f
    } else if first >= 0x40 {
        0x3f
    } else if first >= 0x20 {
        0x1f
    } else if first >= 0x10 {
        0x0f
    } else if first >= 0x08 {
        0x07
    } else if first >= 0x04 {
        0x03
    } else if first >= 0x02 {
        0x01
    } else {
        0x00
    }
}

/// Big-endian accumulation of bytes onto an initial value.
pub open spec fn vint_acc(init: int, bytes: Seq<u8>) -> int
    decreases bytes.len(),
{
    if bytes.len() == 0 {
        init
    } else {
        vint_acc(init * 256 + bytes[0], bytes.drop_first())
    }
}

proof fn lemma_vint_acc_bound(init: int, bytes: Seq<u8>, k: int)
    requires
        0 <= init < pow_256(k),
        k >= 0,
    ensures
        0 <= vint_acc(init, bytes) < pow_256(k + bytes.len()),
    decreases bytes.len(),
{
    if bytes.len() == 0 {
        lemma_pow256_le(k, k + bytes.len());
    } else {
        lemma_vint_acc_bound(init * 256 + bytes[0], bytes.drop_first(), k + 1);
    }
}

proof fn lemma_vint_acc_push(init: int, s: Seq<u8>, b: u8)
    ensures
        vint_acc(init, s.push(b)) == vint_acc(init, s) * 256 + b,
    decreases s.len(),
{
    reveal_with_fuel(vint_acc, 3);
    if s.len() == 0 {
        assert(s.push(b)[0] == b);
        assert(s.push(b).drop_first() =~= Seq::<u8>::empty());
    } else {
        assert(s.push(b)[0] == s[0]);
        assert(s.push(b).drop_first() =~= s.drop_first().push(b));
        lemma_vint_acc_push(init * 256 + s[0], s.drop_first(), b);
    }
}

/// What `read_vint` yields on a byte sequence: the value and width of the
/// leading VINT, or nothing when the first byte has no marker in its eight
/// bits (declared width over 8) or the buffer is shorter than the width.
pub open spec fn vint_parse(buf: Seq<u8>, keep_marker: bool) -> Option<(u64, int)> {
    if buf.len() == 0 {
        None
    } else {
        let w = vint_width_of(buf[0]);
        if w > 8 || buf.len() < w {
            None
        } else {
            let first: u8 = if keep_marker {
                buf[0]
            } else {
                buf[0] & vint_mask_of(buf[0])
            };
            Some(((vint_acc(first as int, buf.subrange(1, w)) as u64), w))
        }
    }
}

/// Big-endian accumulation of bytes into a 64-bit value, wrapping on
/// overflow as repeated shift-and-or does.
pub open spec fn be_uint_wrap(bytes: Seq<u8>) -> u64
    decreases bytes.len(),
{
    if bytes.len() == 0 {
        0u64
    } else {
        (be_uint_wrap(bytes.drop_last()) << 8) | (bytes.last() as u64)
    }
}

/// The demuxer's state between reads.
#[derive(Clone, Debug)]
pub struct WebmOpusDemuxer {
    pub current_track_number: Option<u64>,
    pub pending_track_number: u64,
    pub pending_track_type: u64,
    pub skip_len: u64,
}

/// The outcome of one decode call: the state after it, what remains of the
/// buffer, and the frame it emitted, if any.
#[verifier::ext_equal]
pub struct StepResult {
    pub state: WebmOpusDemuxer,
    pub rest: Seq<u8>,
    pub frame: Option<Seq<u8>>,
}

/// The outcome when the buffer does not yet hold what the next element
/// needs: nothing is consumed and no frame is emitted.
pub open spec fn need_more(st: WebmOpusDemuxer, src: Seq<u8>) -> StepResult {
    StepResult { state: st, rest: src, frame: None }
}

/// What one decode call does to state `st` and buffer `src`: elements are
/// walked from the front until a frame of the selected track is emitted,
/// more input is needed, or the buffer runs out.
pub open spec fn demux_step(st: WebmOpusDemuxer, src: Seq<u8>) -> StepResult
    decreases src.len(), 1int,
{
    if st.skip_len > 0 {
        if src.len() >= st.skip_len {
            demux_step(
                WebmOpusDemuxer { skip_len: 0u64, ..st },
                src.skip(st.skip_len as int),
            )
        } else {
            StepResult {
                state: WebmOpusDemuxer { skip_len: (st.skip_len - src.len()) as u64, ..st },
                rest: Seq::<u8>::empty(),
                frame: None,
            }
        }
    } else {
        let idp = vint_parse(src, true);
        let sp = vint_parse(src.skip(idp.unwrap().1), false);
        if idp is None || sp is None {
            need_more(st, src)
        } else {
            demux_element(st, src, idp.unwrap().0, idp.unwrap().1, sp.unwrap().0, sp.unwrap().1)
        }
    }
}

/// Handles one element whose ID and size VINTs have been read.
pub open spec fn demux_element(
    st: WebmOpusDemuxer,
    src: Seq<u8>,
    id: u64,
    id_len: int,
    size_u: u64,
    size_len: int,
) -> StepResult
    recommends
        vint_parse(src, true) == Some((id, id_len)),
        vint_parse(src.skip(id_len), false) == Some((size_u, size_len)),
    decreases src.len(), 0int,
        when 2 <= id_len + size_len <= src.len()
{
    let size = size_u as int;
    let header = id_len + size_len;
    if id == EBML_HEADER || id == SEGMENT || id == CLUSTER || id == TRACKS || id == TRACK_ENTRY {
        let st2 = if id == TRACK_ENTRY {
            WebmOpusDemuxer { pending_track_number: 0u64, pending_track_type: 0u64, ..st }
        } else {
            st
        };
        demux_step(st2, src.skip(header))
    } else if id == TRACK_NUMBER {
        if src.len() < header + size {
            need_more(st, src)
        } else {
            let num = be_uint_wrap(src.subrange(header, header + size));
            demux_step(
                WebmOpusDemuxer { pending_track_number: num, ..st },
                src.skip(header + size),
            )
        }
    } else if id == TRACK_TYPE {
        if src.len() < header + size {
            need_more(st, src)
        } else {
            let typ = be_uint_wrap(src.subrange(header, header + size));
            let st2 = if typ == 2 {
                WebmOpusDemuxer {
                    pending_track_type: typ,
                    current_track_number: Some(st.pending_track_number),
                    ..st
                }
            } else {
                WebmOpusDemuxer { pending_track_type: typ, ..st }
            };
            demux_step(st2, src.skip(header + size))
        }
    } else if id == CODEC_PRIVATE {
        if src.len() < header + size {
            need_more(st, src)
        } else {
            demux_step(st, src.skip(header + size))
        }
    } else if id == SIMPLE_BLOCK {
        if src.len() < header + size {
            need_more(st, src)
        } else {
            let tp = vint_parse(src.skip(header), false);
            if tp matches Some((track_num, track_len)) && st.current_track_number == Some(
                track_num,
            ) && size >= track_len + 3 {
                StepResult {
                    state: st,
                    rest: src.skip(header + size),
                    frame: Some(src.subrange(header + tp.unwrap().1 + 3, header + size)),
                }
            } else {
                demux_step(st, src.skip(header + size))
            }
        }
    } else {
        demux_step(WebmOpusDemuxer { skip_len: size_u, ..st }, src.skip(header))
    }
}

/// Removes the first `n` bytes of `v`.
pub fn drop_front(v: &mut Vec<u8>, n: usize)
    requires
        n <= old(v).len(),
    ensures
        final(v)@ == old(v)@.skip(n as int),
{
    let tail = v.split_off(n);
    *v = tail;
    assert(final(v)@ =~= old(v)@.skip(n as int));
}

/// Reads `count` bytes at `start` as a big-endian integer, wrapping at 64
/// bits as the accumulation does.
fn read_uint_be(src: &Vec<u8>, start: usize, count: usize) -> (r: u64)
    requires
        start + count <= src.len(),
    ensures
        r == be_uint_wrap(src@.subrange(start as int, start as int + count as int)),
{
    let mut num: u64 = 0;
    let mut i: usize = 0;
    proof {
        assert(src@.subrange(start as int, start as int) =~= Seq::<u8>::empty());
    }
    while i < count
        invariant
            i <= count,
            start + count <= src.len(),
            num == be_uint_wrap(src@.subrange(start as int, start as int + i as int)),
        decreases count - i,
    {
        proof {
            let pre = src@.subrange(start as int, start as int + i as int + 1);
            assert(pre.drop_last() =~= src@.subrange(start as int, start as int + i as int));
            assert(pre.last() == src@[start as int + i as int]);
        }
        num = (num << 8) | (src[start + i] as u64);
        i += 1;
    }
    num
}

impl WebmOpusDemuxer {
    /// The state of a fresh demuxer: no track selected, nothing to skip.
    pub open spec fn initial() -> Self {
        WebmOpusDemuxer {
            current_track_number: None,
            pending_track_number: 0,
            pending_track_type: 0,
            skip_len: 0,
        }
    }

    pub fn new() -> (r: Self)
        ensures
            r == Self::initial(),
    {
        WebmOpusDemuxer {
            current_track_number: None,
            pending_track_number: 0,
            pending_track_type: 0,
            skip_len: 0,
        }
    }

    /// Reads the VINT at the front of `buf`: widths 1 through 8 are
    /// accepted, a declared width over 8 is rejected.
    pub fn read_vint(buf: &[u8], keep_marker: bool) -> (r: Option<(u64, usize)>)
        ensures
            match r {
                Some((val, width)) => {
                    &&& vint_parse(buf@, keep_marker) == Some((val, width as int))
                    &&& 1 <= width <= 8
                    &&& width <= buf@.len()
                },
                None => vint_parse(buf@, keep_marker) is None,
            },
            buf@.len() > 0 && vint_width_of(buf@[0]) > 8 ==> r is None,
    {
        if buf.len() == 0 {
            return None;
        }
        let first: u8 = buf[0];
        let width: usize = if first >= 0x80 {
            1
        } else if first >= 0x40 {
            2
        } else if first >= 0x20 {
            3
        } else if first >= 0x10 {
            4
        } else if first >= 0x08 {
            5
        } else if first >= 0x04 {
            6
        } else if first >= 0x02 {
            7
        } else if first >= 0x01 {
            8
        } else {
            9
        };
        if width > 8 || buf.len() < width {
            return None;
        }
        let mask: u8 = if first >= 0x80 {
            0x7f
        } else if first >= 0x40 {
            0x3f
        } else if first >= 0x20 {
            0x1f
        } else if first >= 0x10 {
            0x0f
        } else if first >= 0x08 {
            0x07
        } else if first >= 0x04 {
            0x03
        } else if first >= 0x02 {
            0x01
        } else {
            0x00
        };
        let first_val: u8 = if keep_marker {
            first
        } else {
            first & mask
        };
        let mut val: u64 = first_val as u64;
        let mut i: usize = 1;
        proof {
            assert(buf@.subrange(1, 1) =~= Seq::<u8>::empty());
            reveal_with_fuel(pow_256, 2);
        }
        while i < width
            invariant
                1 <= i <= width,
                width <= 8,
                width <= buf@.len(),
                val as int == vint_acc(first_val as int, buf@.subrange(1, i as int)),
                val < pow_256(i as int),
            decreases width - i,
        {
            proof {
                reveal_with_fuel(pow_256, 9);
                lemma_pow256_le(i as int + 1, 8);
                lemma_vint_acc_push(first_val as int, buf@.subrange(1, i as int), buf@[i as int]);
                assert(buf@.subrange(1, i as int + 1) =~= buf@.subrange(1, i as int).push(
                    buf@[i as int],
                ));
            }
            val = val * 256 + (buf[i] as u64);
            i += 1;
        }
        proof {
            reveal_with_fuel(pow_256, 2);
            lemma_vint_acc_bound(first_val as int, buf@.subrange(1, width as int), 1);
        }
        Some((val, width))
    }
}

/// A decode step never grows the buffer, and consumes part of it whenever
/// it emits a frame.
pub proof fn lemma_demux_step_consumes(st: WebmOpusDemuxer, src: Seq<u8>)
    ensures
        demux_step(st, src).rest.len() <= src.len(),
        demux_step(st, src).frame is Some ==> demux_step(st, src).rest.len() < src.len(),
    decreases src.len(), 1int,
{
    if st.skip_len > 0 {
        if src.len() >= st.skip_len {
            lemma_demux_step_consumes(
                WebmOpusDemuxer { skip_len: 0u64, ..st },
                src.skip(st.skip_len as int),
            );
        }
    } else {
        let idp = vint_parse(src, true);
        let sp = vint_parse(src.skip(idp.unwrap().1), false);
        if idp is Some && sp is Some {
            lemma_demux_element_consumes(
                st,
                src,
                idp.unwrap().0,
                idp.unwrap().1,
                sp.unwrap().0,
                sp.unwrap().1,
            );
        }
    }
}

proof fn lemma_demux_element_consumes(
    st: WebmOpusDemuxer,
    src: Seq<u8>,
    id: u64,
    id_len: int,
    size_u: u64,
    size_len: int,
)
    requires
        2 <= id_len + size_len <= src.len(),
    ensures
        demux_element(st, src, id, id_len, size_u, size_len).rest.len() <= src.len(),
        demux_element(st, src, id, id_len, size_u, size_len).frame is Some ==> demux_element(
            st,
            src,
            id,
            id_len,
            size_u,
            size_len,
        ).rest.len() < src.len(),
    decreases src.len(), 0int,
{
    let size = size_u as int;
    let header = id_len + size_len;
    if id == EBML_HEADER || id == SEGMENT || id == CLUSTER || id == TRACKS || id == TRACK_ENTRY {
        let st2 = if id == TRACK_ENTRY {
            WebmOpusDemuxer { pending_track_number: 0u64, pending_track_type: 0u64, ..st }
        } else {
            st
        };
        lemma_demux_step_consumes(st2, src.skip(header));
    } else if id == TRACK_NUMBER {
        if src.len() >= header + size {
            let num = be_uint_wrap(src.subrange(header, header + size));
            lemma_demux_step_consumes(
                WebmOpusDemuxer { pending_track_number: num, ..st },
                src.skip(header + size),
            );
        }
    } else if id == TRACK_TYPE {
        if src.len() >= header + size {
            let typ = be_uint_wrap(src.subrange(header, header + size));
            let st2 = if typ == 2 {
                WebmOpusDemuxer {
                    pending_track_type: typ,
                    current_track_number: Some(st.pending_track_number),
                    ..st
                }
            } else {
                WebmOpusDemuxer { pending_track_type: typ, ..st }
            };
            lemma_demux_step_consumes(st2, src.skip(header + size));
        }
    } else if id == CODEC_PRIVATE {
        if src.len() >= header + size {
            lemma_demux_step_consumes(st, src.skip(header + size));
        }
    } else if id == SIMPLE_BLOCK {
        if src.len() >= header + size {
            let tp = vint_parse(src.skip(header), false);
            if tp matches Some((track_num, track_len)) && st.current_track_number == Some(
                track_num,
            ) && size >= track_len + 3 {
            } else {
                lemma_demux_step_consumes(st, src.skip(header + size));
            }
        }
    } else {
        lemma_demux_step_consumes(WebmOpusDemuxer { skip_len: size_u, ..st }, src.skip(header));
    }
}

/// All frames that decode calls will emit from state `st` and buffer `src`
/// before asking for more input, in order.
pub open spec fn demux_frames(st: WebmOpusDemuxer, src: Seq<u8>) -> Seq<Seq<u8>>
    decreases src.len(),
        via demux_frames_decreases
{
    let step = demux_step(st, src);
    match step.frame {
        Some(f) => seq![f] + demux_frames(step.state, step.rest),
        None => Seq::<Seq<u8>>::empty(),
    }
}

#[via_fn]
proof fn demux_frames_decreases(st: WebmOpusDemuxer, src: Seq<u8>) {
    lemma_demux_step_consumes(st, src);
}

/// The Opus payloads of the selected track's SimpleBlocks, collected by
/// walking every complete element from the front of `src` under state `st`,
/// in stream order.
pub open spec fn opus_payloads(st: WebmOpusDemuxer, src: Seq<u8>) -> Seq<Seq<u8>>
    decreases src.len(), 1int,
{
    if st.skip_len > 0 {
        if src.len() >= st.skip_len {
            opus_payloads(WebmOpusDemuxer { skip_len: 0u64, ..st }, src.skip(st.skip_len as int))
        } else {
            Seq::<Seq<u8>>::empty()
        }
    } else {
        let idp = vint_parse(src, true);
        let sp = vint_parse(src.skip(idp.unwrap().1), false);
        if idp is None || sp is None {
            Seq::<Seq<u8>>::empty()
        } else {
            opus_payloads_element(
                st,
                src,
                idp.unwrap().0,
                idp.unwrap().1,
                sp.unwrap().0,
                sp.unwrap().1,
            )
        }
    }
}

/// The payloads contributed from one element onwards.
pub open spec fn opus_payloads_element(
    st: WebmOpusDemuxer,
    src: Seq<u8>,
    id: u64,
    id_len: int,
    size_u: u64,
    size_len: int,
) -> Seq<Seq<u8>>
    decreases src.len(), 0int,
        when 2 <= id_len + size_len <= src.len()
{
    let size = size_u as int;
    let header = id_len + size_len;
    if id == EBML_HEADER || id == SEGMENT || id == CLUSTER || id == TRACKS || id == TRACK_ENTRY {
        let st2 = if id == TRACK_ENTRY {
            WebmOpusDemuxer { pending_track_number: 0u64, pending_track_type: 0u64, ..st }
        } else {
            st
        };
        opus_payloads(st2, src.skip(header))
    } else if id == TRACK_NUMBER {
        if src.len() < header + size {
            Seq::<Seq<u8>>::empty()
        } else {
            let num = be_uint_wrap(src.subrange(header, header + size));
            opus_payloads(
                WebmOpusDemuxer { pending_track_number: num, ..st },
                src.skip(header + size),
            )
        }
    } else if id == TRACK_TYPE {
        if src.len() < header + size {
            Seq::<Seq<u8>>::empty()
        } else {
            let typ = be_uint_wrap(src.subrange(header, header + size));
            let st2 = if typ == 2 {
                WebmOpusDemuxer {
                    pending_track_type: typ,
                    current_track_number: Some(st.pending_track_number),
                    ..st
                }
            } else {
                WebmOpusDemuxer { pending_track_type: typ, ..st }
            };
            opus_payloads(st2, src.skip(header + size))
        }
    } else if id == CODEC_PRIVATE {
        if src.len() < header + size {
            Seq::<Seq<u8>>::empty()
        } else {
            opus_payloads(st, src.skip(header + size))
        }
    } else if id == SIMPLE_BLOCK {
        if src.len() < header + size {
            Seq::<Seq<u8>>::empty()
        } else {
            let tp = vint_parse(src.skip(header), false);
            if tp matches Some((track_num, track_len)) && st.current_track_number == Some(
                track_num,
            ) && size >= track_len + 3 {
                seq![src.subrange(header + tp.unwrap().1 + 3, header + size)] + opus_payloads(
                    st,
                    src.skip(header + size),
                )
            } else {
                opus_payloads(st, src.skip(header + size))
            }
        }
    } else {
        opus_payloads(WebmOpusDemuxer { skip_len: size_u, ..st }, src.skip(header))
    }
}

/// The frames that decode calls emit are exactly the selected track's
/// SimpleBlock payloads, in stream order.
pub proof fn lemma_frames_are_payloads(st: WebmOpusDemuxer, src: Seq<u8>)
    ensures
        demux_frames(st, src) == opus_payloads(st, src),
    decreases src.len(), 1int,
{
    lemma_demux_step_consumes(st, src);
    if st.skip_len > 0 {
        if src.len() >= st.skip_len {
            let st2 = WebmOpusDemuxer { skip_len: 0u64, ..st };
            let src2 = src.skip(st.skip_len as int);
            assert(demux_step(st, src) == demux_step(st2, src2));
            assert(demux_frames(st, src) == demux_frames(st2, src2));
            lemma_frames_are_payloads(st2, src2);
        } else {
            assert(demux_step(st, src).frame is None);
        }
    } else {
        let idp = vint_parse(src, true);
        let sp = vint_parse(src.skip(idp.unwrap().1), false);
        if idp is None || sp is None {
            assert(demux_step(st, src).frame is None);
        } else {
            lemma_frames_are_payloads_element(
                st,
                src,
                idp.unwrap().0,
                idp.unwrap().1,
                sp.unwrap().0,
                sp.unwrap().1,
            );
        }
    }
}

proof fn lemma_frames_are_payloads_element(
    st: WebmOpusDemuxer,
    src: Seq<u8>,
    id: u64,
    id_len: int,
    size_u: u64,
    size_len: int,
)
    requires
        2 <= id_len + size_len <= src.len(),
        vint_parse(src, true) == Some((id, id_len)),
        vint_parse(src.skip(id_len), false) == Some((size_u, size_len)),
        st.skip_len == 0,
    ensures
        demux_frames(st, src) == opus_payloads_element(st, src, id, id_len, size_u, size_len),
    decreases src.len(), 0int,
{
    let size = size_u as int;
    let header = id_len + size_len;
    assert(demux_step(st, src) == demux_element(st, src, id, id_len, size_u, size_len));
    if id == EBML_HEADER || id == SEGMENT || id == CLUSTER || id == TRACKS || id == TRACK_ENTRY {
        let st2 = if id == TRACK_ENTRY {
            WebmOpusDemuxer { pending_track_number: 0u64, pending_track_type: 0u64, ..st }
        } else {
            st
        };
        assert(demux_frames(st, src) == demux_frames(st2, src.skip(header)));
        lemma_frames_are_payloads(st2, src.skip(header));
    } else if id == TRACK_NUMBER {
        if src.len() < header + size {
            assert(demux_step(st, src).frame is None);
        } else {
            let num = be_uint_wrap(src.subrange(header, header + size));
            let st2 = WebmOpusDemuxer { pending_track_number: num, ..st };
            assert(demux_frames(st, src) == demux_frames(st2, src.skip(header + size)));
            lemma_frames_are_payloads(st2, src.skip(header + size));
        }
    } else if id == TRACK_TYPE {
        if src.len() < header + size {
            assert(demux_step(st, src).frame is None);
        } else {
            let typ = be_uint_wrap(src.subrange(header, header + size));
            let st2 = if typ == 2 {
                WebmOpusDemuxer {
                    pending_track_type: typ,
                    current_track_number: Some(st.pending_track_number),
                    ..st
                }
            } else {
                WebmOpusDemuxer { pending_track_type: typ, ..st }
            };
            assert(demux_frames(st, src) == demux_frames(st2, src.skip(header + size)));
            lemma_frames_are_payloads(st2, src.skip(header + size));
        }
    } else if id == CODEC_PRIVATE {
        if src.len() < header + size {
            assert(demux_step(st, src).frame is None);
        } else {
            assert(demux_frames(st, src) == demux_frames(st, src.skip(header + size)));
            lemma_frames_are_payloads(st, src.skip(header + size));
        }
    } else if id == SIMPLE_BLOCK {
        if src.len() < header + size {
            assert(demux_step(st, src).frame is None);
        } else {
            let tp = vint_parse(src.skip(header), false);
            if tp matches Some((track_num, track_len)) && st.current_track_number == Some(
                track_num,
            ) && size >= track_len + 3 {
                let f = src.subrange(header + tp.unwrap().1 + 3, header + size);
                assert(demux_step(st, src).frame == Some(f));
                assert(demux_frames(st, src) == seq![f] + demux_frames(
                    st,
                    src.skip(header + size),
                ));
                lemma_frames_are_payloads(st, src.skip(header + size));
            } else {
                assert(demux_frames(st, src) == demux_frames(st, src.skip(header + size)));
                lemma_frames_are_payloads(st, src.skip(header + size));
            }
        }
    } else {
        let st2 = WebmOpusDemuxer { skip_len: size_u, ..st };
        assert(demux_frames(st, src) == demux_frames(st2, src.skip(header)));
        lemma_frames_are_payloads(st2, src.skip(header));
    }
}

impl WebmOpusDemuxer {
    /// Consumes elements from the front of `src` and returns the next Opus
    /// frame of the selected track, or `None` when the buffer holds no
    /// complete next frame; state, buffer and result are exactly what
    /// `demux_step` dictates.
    #[verifier::rlimit(100)]
    #[verifier::spinoff_prover]
    pub fn decode(&mut self, src: &mut Vec<u8>) -> (r: Option<Vec<u8>>)
        ensures
            ({
                let step = demux_step(*old(self), old(src)@);
                &&& *final(self) == step.state
                &&& final(src)@ == step.rest
                &&& match r {
                    Some(f) => step.frame == Some(f@),
                    None => step.frame is None,
                }
            }),
    {
        loop
            invariant
                demux_step(*old(self), old(src)@) == demux_step(*self, src@),
            decreases src@.len(),
        {
            let ghost st0 = *self;
            let ghost buf0 = src@;
            if self.skip_len > 0 {
                if (src.len() as u64) >= self.skip_len {
                    let n = self.skip_len as usize;
                    drop_front(src, n);
                    self.skip_len = 0;
                    proof {
                        assert(demux_step(st0, buf0) == demux_step(*self, src@));
                    }
                } else {
                    self.skip_len = self.skip_len - (src.len() as u64);
                    src.clear();
                    proof {
                        assert(src@ =~= Seq::<u8>::empty());
                        assert(demux_step(st0, buf0) == StepResult {
                            state: *self,
                            rest: src@,
                            frame: None,
                        });
                    }
                    return None;
                }
            }
            let ghost st1 = *self;
            let ghost buf1 = src@;
            let (id, id_len) = match Self::read_vint(src.as_slice(), true) {
                Some(v) => v,
                None => {
                    proof {
                        assert(demux_step(st1, buf1) == need_more(st1, buf1));
                    }
                    return None;
                },
            };
            let size_slice = vstd::slice::slice_subrange(src.as_slice(), id_len, src.len());
            proof {
                assert(size_slice@ =~= src@.skip(id_len as int));
            }
            let (size_u, size_len) = match Self::read_vint(size_slice, false) {
                Some(v) => v,
                None => {
                    proof {
                        assert(demux_step(st1, buf1) == need_more(st1, buf1));
                    }
                    return None;
                },
            };
            let header = id_len + size_len;
            let enough: bool = if src.len() < header {
                false
            } else {
                ((src.len() - header) as u64) >= size_u
            };
            if id == EBML_HEADER || id == SEGMENT || id == CLUSTER || id == TRACKS || id
                == TRACK_ENTRY {
                drop_front(src, header);
                if id == TRACK_ENTRY {
                    self.pending_track_number = 0;
                    self.pending_track_type = 0;
                }
                proof {
                    assert(st1.skip_len == 0);
                    assert(vint_parse(buf1, true) == Some((id, id_len as int)));
                    assert(vint_parse(buf1.skip(id_len as int), false) == Some((
                        size_u,
                        size_len as int,
                    )));
                    assert(2 <= id_len + size_len <= buf1.len());
                    assert(demux_step(st1, buf1) == demux_element(
                        st1,
                        buf1,
                        id,
                        id_len as int,
                        size_u,
                        size_len as int,
                    ));
                    assert(demux_step(st1, buf1) == demux_step(*self, src@));
                }
            } else if id == TRACK_NUMBER {
                if !enough {
                    proof {
                        assert(demux_step(st1, buf1) == need_more(st1, buf1));
                    }
                    return None;
                }
                let count = size_u as usize;
                let num = read_uint_be(src, header, count);
                self.pending_track_number = num;
                drop_front(src, header + count);
                proof {
                    assert(demux_step(st1, buf1) == demux_step(*self, src@));
                }
            } else if id == TRACK_TYPE {
                if !enough {
                    proof {
                        assert(demux_step(st1, buf1) == need_more(st1, buf1));
                    }
                    return None;
                }
                let count = size_u as usize;
                let typ = read_uint_be(src, header, count);
                self.pending_track_type = typ;
                if typ == 2 {
                    self.current_track_number = Some(self.pending_track_number);
                }
                drop_front(src, header + count);
                proof {
                    assert(demux_step(st1, buf1) == demux_step(*self, src@));
                }
            } else if id == CODEC_PRIVATE {
                if !enough {
                    proof {
                        assert(demux_step(st1, buf1) == need_more(st1, buf1));
                    }
                    return None;
                }
                let count = size_u as usize;
                drop_front(src, header + count);
                proof {
                    assert(demux_step(st1, buf1) == demux_step(*self, src@));
                }
            } else if id == SIMPLE_BLOCK {
                if !enough {
                    proof {
                        assert(demux_step(st1, buf1) == need_more(st1, buf1));
                    }
                    return None;
                }
                let count = size_u as usize;
                let inner = vstd::slice::slice_subrange(src.as_slice(), header, src.len());
                proof {
                    assert(inner@ =~= src@.skip(header as int));
                }
                match Self::read_vint(inner, false) {
                    None => {
                        drop_front(src, header + count);
                        proof {
                            assert(demux_step(st1, buf1) == demux_step(*self, src@));
                        }
                    },
                    Some((track_num, track_len)) => {
                        let selected: bool = match self.current_track_number {
                            Some(t) => t == track_num,
                            None => false,
                        };
                        if selected && count >= track_len + 3 {
                            let frame = crate::wire::vec_range(
                                src,
                                header + track_len + 3,
                                header + count,
                            );
                            drop_front(src, header + count);
                            proof {
                                assert(demux_step(st1, buf1) == StepResult {
                                    state: *self,
                                    rest: src@,
                                    frame: Some(frame@),
                                });
                            }
                            return Some(frame);
                        } else {
                            drop_front(src, header + count);
                            proof {
                                assert(demux_step(st1, buf1) == demux_step(*self, src@));
                            }
                        }
                    },
                }
            } else {
                drop_front(src, header);
                self.skip_len = size_u;
                proof {
                    assert(demux_step(st1, buf1) == demux_step(*self, src@));
                }
            }
        }
    }
}

} // verus!
