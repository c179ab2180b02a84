//! Session registry, player mutation and voice handshake behaviour.

use aelira::session::{PlayerUpdatePayload, SessionManager, UpdatePlayerTrack, VoiceState};
use aelira::track::{DecodedInfo, encode_track};
use aelira::voice::{VoiceAction, VoiceEvent, VoiceSessionState, voice_gateway_url};

fn empty_body() -> PlayerUpdatePayload {
    PlayerUpdatePayload { track: None, encoded_track: None, volume: None, paused: None, voice: None }
}

fn sample_info() -> DecodedInfo {
    DecodedInfo {
        title: "t".to_string(),
        author: "a".to_string(),
        length: 1000,
        identifier: "id".to_string(),
        is_stream: false,
        uri: None,
        artwork_url: None,
        isrc: None,
        source_name: "local".to_string(),
        position: 0,
    }
}

#[test]
fn generated_ids_are_sixteen_alphanumerics() {
    let mut mgr = SessionManager::new();
    let a = mgr.create("1".to_string(), "c".to_string());
    let b = mgr.create("2".to_string(), "c".to_string());
    for id in [&a, &b] {
        assert_eq!(id.chars().count(), 16);
        assert!(id.chars().all(|c| c.is_ascii_alphanumeric()));
    }
    assert_ne!(a, b, "live sessions get distinct ids");
    assert!(mgr.lookup(&a).is_some());
    assert!(mgr.lookup(&b).is_some());
}

#[test]
fn session_resume() {
    let mut mgr = SessionManager::new();
    let ready = mgr.establish_session(None, "7".to_string(), "client".to_string());
    assert_eq!(ready.op, "ready");
    assert!(!ready.resumed);
    let s = ready.session_id.clone();

    let again = mgr.establish_session(Some(s.clone()), "7".to_string(), "client".to_string());
    assert!(again.resumed);
    assert_eq!(again.session_id, s);

    let unknown = mgr.establish_session(
        Some("0000000000000000".to_string()),
        "7".to_string(),
        "client".to_string(),
    );
    assert!(!unknown.resumed);
    assert_ne!(unknown.session_id, s);
}

#[test]
fn patch_then_get_observes_paused() {
    let mut mgr = SessionManager::new();
    let id = mgr.create("7".to_string(), "c".to_string());
    let si = mgr.lookup(&id).unwrap();
    let mut body = empty_body();
    body.paused = Some(true);
    let (eff, snapshot) = mgr.patch_player(si, "42".to_string(), &body);
    assert!(snapshot.paused);
    assert!(!eff.play);
    let player = mgr.get_player(si, "42".to_string());
    assert!(player.paused, "a GET after the PATCH sees paused=true");
    assert_eq!(player.volume, 100);
}

#[test]
fn player_create_and_voice_setup() {
    let mut mgr = SessionManager::new();
    let id = mgr.create("123".to_string(), "c".to_string());
    let si = mgr.lookup(&id).unwrap();
    let mut body = empty_body();
    body.voice = Some(VoiceState {
        token: "T".to_string(),
        endpoint: "e".to_string(),
        session_id: "sid".to_string(),
    });
    let (eff, player) = mgr.patch_player(si, "42".to_string(), &body);
    assert!(eff.connect);
    let info = player.connection.unwrap();
    assert_eq!(info.guild_id, "42");
    assert_eq!(info.user_id, "123");
    assert_eq!(voice_gateway_url(&info.endpoint), "wss://e/?v=8");

    let mut conn = info.open();
    assert_eq!(conn.state, VoiceSessionState::Connecting);
    assert_eq!(conn.heartbeat_interval_ms, 30000);
    let actions = conn.handle_event(VoiceEvent::SocketOpen);
    assert_eq!(actions.len(), 1);
    match &actions[0] {
        VoiceAction::SendIdentify(p) => {
            assert_eq!(p.op, 0);
            assert_eq!(p.server_id, "42");
            assert_eq!(p.user_id, "123");
            assert_eq!(p.session_id, "sid");
            assert_eq!(p.token, "T");
        },
        _ => panic!("expected IDENTIFY"),
    }
    assert_eq!(conn.state, VoiceSessionState::AwaitReady);

    // Re-sending the same credentials does not reconnect.
    let (eff2, _) = mgr.patch_player(si, "42".to_string(), &body);
    assert!(!eff2.connect);
}

#[test]
fn voice_handshake_sequence() {
    let mut mgr = SessionManager::new();
    let id = mgr.create("9".to_string(), "c".to_string());
    let si = mgr.lookup(&id).unwrap();
    let mut body = empty_body();
    body.voice = Some(VoiceState {
        token: "tok".to_string(),
        endpoint: "host".to_string(),
        session_id: "vs".to_string(),
    });
    let (_, player) = mgr.patch_player(si, "g".to_string(), &body);
    let mut conn = player.connection.unwrap().open();
    conn.handle_event(VoiceEvent::SocketOpen);

    let actions = conn.handle_event(VoiceEvent::Hello { heartbeat_interval_ms: 41250 });
    assert!(actions.is_empty());
    assert_eq!(conn.heartbeat_interval_ms, 41250);

    let actions = conn.handle_event(VoiceEvent::Ready {
        ssrc: 777,
        ip: "1.2.3.4".to_string(),
        port: 50000,
    });
    assert_eq!(conn.state, VoiceSessionState::AwaitSession);
    assert_eq!(conn.ssrc, 777);
    match &actions[0] {
        VoiceAction::OpenUdp { ssrc, ip, port } => {
            assert_eq!(*ssrc, 777);
            assert_eq!(ip, "1.2.3.4");
            assert_eq!(*port, 50000);
        },
        _ => panic!("expected UDP setup"),
    }

    let actions = conn.handle_event(VoiceEvent::IpDiscovered {
        ip: "5.6.7.8".to_string(),
        port: 60000,
    });
    match &actions[0] {
        VoiceAction::SendSelectProtocol(p) => {
            assert_eq!(p.op, 1);
            assert_eq!(p.protocol, "udp");
            assert_eq!(p.address, "5.6.7.8");
            assert_eq!(p.port, 60000);
            assert_eq!(p.mode, "aead_aes256_gcm_rtpsize");
        },
        _ => panic!("expected SELECT_PROTOCOL"),
    }

    let actions = conn.handle_event(VoiceEvent::SessionDescription { secret_key: vec![5u8; 32] });
    assert!(actions.is_empty());
    assert_eq!(conn.state, VoiceSessionState::Ready);
    assert_eq!(conn.secret_key.as_deref(), Some(&[5u8; 32][..]));

    let actions = conn.handle_event(VoiceEvent::HeartbeatTick { now_ms: 123456 });
    match &actions[0] {
        VoiceAction::SendHeartbeat { op, timestamp_ms } => {
            assert_eq!(*op, 3);
            assert_eq!(*timestamp_ms, 123456);
        },
        _ => panic!("expected heartbeat"),
    }

    let speaking = conn.set_speaking(true);
    assert_eq!(speaking.op, 5);
    assert_eq!(speaking.speaking, 1);
    assert_eq!(speaking.delay, 0);
    assert_eq!(speaking.ssrc, 777);

    conn.handle_event(VoiceEvent::SocketClosed);
    assert_eq!(conn.state, VoiceSessionState::Closed);
    assert_eq!(conn.token, "tok", "credentials survive the close");
}

#[test]
fn patch_with_encoded_track_starts_playback() {
    let mut mgr = SessionManager::new();
    let id = mgr.create("1".to_string(), "c".to_string());
    let si = mgr.lookup(&id).unwrap();
    let encoded = encode_track(&sample_info()).unwrap();
    let mut body = empty_body();
    body.encoded_track = Some(encoded.clone());
    let (eff, player) = mgr.patch_player(si, "g".to_string(), &body);
    assert!(eff.play);
    let track = player.track.unwrap();
    assert_eq!(track.encoded, encoded);
    assert_eq!(track.info, sample_info());
}

#[test]
fn patch_with_bad_encoded_track_is_ignored() {
    let mut mgr = SessionManager::new();
    let id = mgr.create("1".to_string(), "c".to_string());
    let si = mgr.lookup(&id).unwrap();
    let mut body = empty_body();
    body.encoded_track = Some("???".to_string());
    let (eff, player) = mgr.patch_player(si, "g".to_string(), &body);
    assert!(!eff.play);
    assert!(player.track.is_none());
}

#[test]
fn patch_with_identifier_defers_resolution() {
    let mut mgr = SessionManager::new();
    let id = mgr.create("1".to_string(), "c".to_string());
    let si = mgr.lookup(&id).unwrap();
    let mut body = empty_body();
    body.track = Some(UpdatePlayerTrack {
        encoded: None,
        identifier: Some("local:./a.webm".to_string()),
    });
    let (eff, player) = mgr.patch_player(si, "g".to_string(), &body);
    assert!(!eff.play);
    assert_eq!(eff.resolve_identifier.as_deref(), Some("local:./a.webm"));
    assert!(player.track.is_none());

    // The deferred half commits once resolution finished.
    let encoded = encode_track(&sample_info()).unwrap();
    let track = aelira::track::DecodedTrack { encoded: encoded.clone(), info: sample_info() };
    assert!(mgr.commit_resolved(&id, &"g".to_string(), &track));
    let player = mgr.get_player(si, "g".to_string());
    assert_eq!(player.track.unwrap().encoded, encoded);

    // Unknown session or player: nothing happens.
    assert!(!mgr.commit_resolved(&"0000000000000000".to_string(), &"g".to_string(), &track));
    assert!(!mgr.commit_resolved(&id, &"other".to_string(), &track));
}

#[test]
fn delete_player() {
    let mut mgr = SessionManager::new();
    let id = mgr.create("1".to_string(), "c".to_string());
    let si = mgr.lookup(&id).unwrap();
    mgr.get_player(si, "g".to_string());
    assert_eq!(mgr.list_players(si).len(), 1);
    assert!(mgr.remove_player(si, &"g".to_string()));
    assert_eq!(mgr.list_players(si).len(), 0);
    assert!(!mgr.remove_player(si, &"g".to_string()));
}
