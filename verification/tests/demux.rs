//! Demuxer behaviour on concrete streams.

use aelira::demux::WebmOpusDemuxer;

/// TrackEntry header, TrackNumber 1, TrackType 2 (audio): selects track 1.
fn track_selection_bytes() -> Vec<u8> {
    vec![
        0xae, 0x86, // TrackEntry, declared size 6 (container: header only)
        0xd7, 0x81, 0x01, // TrackNumber = 1
        0x83, 0x81, 0x02, // TrackType = 2
    ]
}

/// A SimpleBlock of the given track with a two-byte payload.
fn simple_block(track_vint: u8, payload: &[u8]) -> Vec<u8> {
    let content_len = 4 + payload.len();
    let mut v = vec![0xa3, 0x80 | (content_len as u8)];
    v.push(track_vint);
    v.extend_from_slice(&[0x00, 0x00, 0x00]); // flags + timestamp delta
    v.extend_from_slice(payload);
    v
}

#[test]
fn emits_selected_track_payloads_in_order() {
    let mut demux = WebmOpusDemuxer::new();
    let mut src = track_selection_bytes();
    src.extend_from_slice(&simple_block(0x81, &[0xaa, 0xbb]));
    src.extend_from_slice(&simple_block(0x81, &[0xcc]));
    let first = demux.decode(&mut src).unwrap();
    assert_eq!(first, vec![0xaa, 0xbb]);
    let second = demux.decode(&mut src).unwrap();
    assert_eq!(second, vec![0xcc]);
    assert_eq!(demux.decode(&mut src), None);
    assert!(src.is_empty());
}

#[test]
fn other_tracks_are_skipped() {
    let mut demux = WebmOpusDemuxer::new();
    let mut src = track_selection_bytes();
    src.extend_from_slice(&simple_block(0x82, &[0x11, 0x22])); // track 2
    src.extend_from_slice(&simple_block(0x81, &[0x33, 0x44])); // track 1
    let frame = demux.decode(&mut src).unwrap();
    assert_eq!(frame, vec![0x33, 0x44]);
}

#[test]
fn short_simple_block_is_skipped_not_errored() {
    let mut demux = WebmOpusDemuxer::new();
    let mut src = track_selection_bytes();
    // Block of the selected track, but only 3 content bytes: shorter than
    // the track VINT plus three header bytes.
    src.extend_from_slice(&[0xa3, 0x83, 0x81, 0x00, 0x00]);
    src.extend_from_slice(&simple_block(0x81, &[0x55]));
    let frame = demux.decode(&mut src).unwrap();
    assert_eq!(frame, vec![0x55]);
}

#[test]
fn needs_more_input_consumes_nothing_mid_element() {
    let mut demux = WebmOpusDemuxer::new();
    let mut src = track_selection_bytes();
    let block = simple_block(0x81, &[0x66, 0x77]);
    let (head, tail) = block.split_at(4);
    src.extend_from_slice(head);
    assert_eq!(demux.decode(&mut src), None);
    src.extend_from_slice(tail);
    let frame = demux.decode(&mut src).unwrap();
    assert_eq!(frame, vec![0x66, 0x77]);
}

#[test]
fn containers_are_entered_not_skipped() {
    let mut demux = WebmOpusDemuxer::new();
    let mut src: Vec<u8> = Vec::new();
    // EBML header and Segment as containers, sizes ignored.
    src.extend_from_slice(&[0x1a, 0x45, 0xdf, 0xa3, 0x84]);
    src.extend_from_slice(&[0x18, 0x53, 0x80, 0x67, 0x84]);
    src.extend_from_slice(&track_selection_bytes());
    src.extend_from_slice(&simple_block(0x81, &[0x01]));
    let frame = demux.decode(&mut src).unwrap();
    assert_eq!(frame, vec![0x01]);
}

#[test]
fn void_elements_are_skipped_across_reads() {
    let mut demux = WebmOpusDemuxer::new();
    let mut src = track_selection_bytes();
    src.extend_from_slice(&[0xec, 0x84, 0x00, 0x00]); // Void of 4, 2 present
    assert_eq!(demux.decode(&mut src), None);
    assert!(src.is_empty());
    // The remaining two skip bytes arrive with the next read.
    let mut more = vec![0x00, 0x00];
    more.extend_from_slice(&simple_block(0x81, &[0x09]));
    let frame = demux.decode(&mut more).unwrap();
    assert_eq!(frame, vec![0x09]);
}

#[test]
fn vint_widths_one_through_eight() {
    assert_eq!(WebmOpusDemuxer::read_vint(&[0x81], false), Some((1, 1)));
    assert_eq!(WebmOpusDemuxer::read_vint(&[0x81], true), Some((0x81, 1)));
    assert_eq!(WebmOpusDemuxer::read_vint(&[0x40, 0x02], false), Some((2, 2)));
    assert_eq!(WebmOpusDemuxer::read_vint(&[0x20, 0x00, 0x03], false), Some((3, 3)));
    assert_eq!(
        WebmOpusDemuxer::read_vint(&[0x01, 0, 0, 0, 0, 0, 0, 0x07], false),
        Some((7, 8))
    );
}

#[test]
fn vint_width_over_eight_is_rejected() {
    assert_eq!(WebmOpusDemuxer::read_vint(&[0x00, 0xff], false), None);
    assert_eq!(WebmOpusDemuxer::read_vint(&[0x00], true), None);
}

#[test]
fn vint_needs_all_its_bytes() {
    assert_eq!(WebmOpusDemuxer::read_vint(&[], false), None);
    assert_eq!(WebmOpusDemuxer::read_vint(&[0x40], false), None);
}
