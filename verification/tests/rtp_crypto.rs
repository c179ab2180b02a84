//! RTP assembly and AEAD behaviour on concrete values.

use aelira::crypto::VoiceCrypto;
use aelira::rtp::{VoiceUdp, build_discovery_packet, parse_discovery_response, silence_frame};
use aelira::voice::send_silence;

fn test_crypto() -> VoiceCrypto {
    VoiceCrypto::new(&[7u8; 32])
}

#[test]
fn rtp_sequence_counters_across_three_sends() {
    let crypto = test_crypto();
    let mut udp = VoiceUdp::new(0x12345678);
    let expected_seq: [u16; 3] = [0x0000, 0x0001, 0x0002];
    let expected_ts: [u32; 3] = [0x00000000, 0x000003c0, 0x00000780];
    let expected_nonce: [u32; 3] = [0, 1, 2];
    for k in 0..3 {
        let packet = udp.send_opus(&[1, 2, 3], &crypto);
        assert_eq!(packet[0], 0x80);
        assert_eq!(packet[1], 0x78);
        assert_eq!(u16::from_be_bytes([packet[2], packet[3]]), expected_seq[k]);
        assert_eq!(
            u32::from_be_bytes([packet[4], packet[5], packet[6], packet[7]]),
            expected_ts[k]
        );
        assert_eq!(
            u32::from_be_bytes([packet[8], packet[9], packet[10], packet[11]]),
            0x12345678
        );
        let n = packet.len();
        assert_eq!(
            u32::from_be_bytes([packet[n - 4], packet[n - 3], packet[n - 2], packet[n - 1]]),
            expected_nonce[k]
        );
        // header + ciphertext-with-tag + nonce counter
        assert_eq!(n, 12 + 3 + 16 + 4);
    }
}

#[test]
fn counters_wrap_without_gap() {
    let crypto = test_crypto();
    let mut udp = VoiceUdp::new(1);
    udp.sequence = 0xffff;
    udp.timestamp = u32::MAX - 959;
    udp.nonce = u32::MAX;
    udp.send_opus(&[0], &crypto);
    assert_eq!(udp.sequence, 0);
    assert_eq!(udp.timestamp, 0);
    assert_eq!(udp.nonce, 0);
    udp.send_opus(&[0], &crypto);
    assert_eq!(udp.sequence, 1);
    assert_eq!(udp.timestamp, 960);
    assert_eq!(udp.nonce, 1);
}

#[test]
fn aead_round_trip() {
    let crypto = test_crypto();
    let nonce = [9u8; 12];
    let aad = [3u8, 1, 4, 1, 5];
    let plain = [10u8, 20, 30, 40];
    let ct = crypto.encrypt(&plain, &nonce, &aad);
    assert_eq!(ct.len(), plain.len() + 16);
    assert_ne!(&ct[..plain.len()], &plain[..], "ciphertext differs from plaintext");
    let back = crypto.decrypt(&ct, &nonce, &aad).unwrap();
    assert_eq!(back, plain.to_vec());
}

#[test]
fn aead_rejects_tampering() {
    let crypto = test_crypto();
    let nonce = [0u8; 12];
    let aad = [1u8];
    let mut ct = crypto.encrypt(&[5, 6, 7], &nonce, &aad);
    ct[0] ^= 1;
    assert_eq!(crypto.decrypt(&ct, &nonce, &aad), None);
    let good = crypto.encrypt(&[5, 6, 7], &nonce, &aad);
    assert_eq!(crypto.decrypt(&good, &nonce, &[9u8]), None, "other associated data");
}

#[test]
fn encryption_packet_decrypts_with_header_as_aad() {
    let crypto = test_crypto();
    let mut udp = VoiceUdp::new(42);
    let payload = [0xf8u8, 0xff, 0xfe];
    let packet = udp.send_opus(&payload, &crypto);
    let header = &packet[..12];
    let ct = &packet[12..packet.len() - 4];
    let mut nonce = [0u8; 12];
    nonce[..4].copy_from_slice(&packet[packet.len() - 4..]);
    let back = crypto.decrypt(ct, &nonce, header).unwrap();
    assert_eq!(back, payload.to_vec());
}

#[test]
fn silence_frame_bytes() {
    assert_eq!(silence_frame(), vec![0xf8, 0xff, 0xfe]);
}

#[test]
fn five_silence_packets_close_a_stream() {
    let crypto = test_crypto();
    let mut udp = VoiceUdp::new(42);
    udp.send_opus(&[1], &crypto);
    let packets = send_silence(&mut udp, &crypto);
    assert_eq!(packets.len(), 5);
    assert_eq!(udp.sequence, 6);
    assert_eq!(udp.nonce, 6);
    assert_eq!(udp.timestamp, 6 * 960);
    for (k, p) in packets.iter().enumerate() {
        assert_eq!(u16::from_be_bytes([p[2], p[3]]) as usize, 1 + k);
        assert_eq!(p.len(), 12 + 3 + 16 + 4);
    }
}

#[test]
fn discovery_request_layout() {
    let packet = build_discovery_packet(0xa1b2c3d4);
    assert_eq!(packet.len(), 74);
    assert_eq!(&packet[0..2], &[0x00, 0x01]);
    assert_eq!(&packet[2..4], &[0x00, 0x46]);
    assert_eq!(&packet[4..8], &[0xa1, 0xb2, 0xc3, 0xd4]);
    assert!(packet[8..].iter().all(|b| *b == 0));
}

#[test]
fn discovery_response_parses_nul_trimmed_address() {
    let mut res = vec![0u8; 74];
    res[8..17].copy_from_slice(b"192.0.2.1");
    res[72] = 0x1f;
    res[73] = 0x90;
    let (ip, port) = parse_discovery_response(&res, 74).unwrap();
    assert_eq!(ip, "192.0.2.1");
    assert_eq!(port, 8080);
}

#[test]
fn discovery_response_rejects_bad_text_and_short_answers() {
    let mut res = vec![0u8; 74];
    res[8] = 0xff; // not UTF-8
    res[9] = 0xfe;
    assert_eq!(parse_discovery_response(&res, 74), None);
    assert_eq!(parse_discovery_response(&vec![0u8; 9], 9), None);
}
