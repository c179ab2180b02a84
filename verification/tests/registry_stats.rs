//! Source dispatch, stats counters, route planner and request helpers.

use aelira::api::{check_auth, decode_tracks, encode_tracks, parse_version_component,
    restore_plus, session_update_ack, split_first, user_id_all_numeric, SessionUpdatePayload};
use aelira::playback::{choose_pipeline, map_mime_to_hint, pacer_step, barrier_exhausted,
    AudioContainer, FrameRead, Level, PacerDecision, PipelineKind};
use aelira::routeplanner::RoutePlannerManager;
use aelira::session::{PlayerUpdatePayload, SessionManager};
use aelira::sources::{LocalSource, SourceManager, clean_identifier, local_resolve};
use aelira::stats::{StatsManager, count_players, player_updates};
use aelira::track::{decode_track, encode_track};

fn registry_with_local() -> SourceManager {
    let mut mgr = SourceManager::new();
    let local = LocalSource;
    mgr.register(local.name(), local.priority(), local.search_terms(), local.patterns());
    mgr
}

#[test]
fn plan_routes_local_scheme_through_pattern_and_prefix() {
    let mgr = registry_with_local();
    let plan = mgr.resolution_plan("local:./a.webm", false);
    assert!(!plan.try_local_first);
    assert_eq!(plan.try_sources, vec!["local".to_string()]);
    let (source, query) = plan.search.unwrap();
    assert_eq!(source, "local");
    assert_eq!(query, "./a.webm");
}

#[test]
fn plan_prefers_local_for_existing_paths() {
    let mgr = registry_with_local();
    let plan = mgr.resolution_plan("./a.webm", true);
    assert!(plan.try_local_first);
    assert!(plan.try_sources.is_empty());
    assert!(plan.search.is_none());
}

#[test]
fn plan_without_scheme_or_path_falls_through() {
    let mgr = registry_with_local();
    let plan = mgr.resolution_plan("some words", false);
    assert!(!plan.try_local_first);
    assert!(plan.try_sources.is_empty());
    assert!(plan.search.is_none());
}

#[test]
fn short_prefix_is_no_search_term() {
    let mgr = registry_with_local();
    let plan = mgr.resolution_plan("x:query", false);
    assert!(plan.search.is_none(), "one-character prefixes are not search terms");
}

#[test]
fn clean_identifier_strips_schemes() {
    assert_eq!(clean_identifier("local:./a.webm"), "./a.webm");
    assert_eq!(clean_identifier("file:/tmp/x"), "/tmp/x");
    assert_eq!(clean_identifier("./plain"), "./plain");
}

#[test]
fn local_track_metadata_round_trips() {
    let track = local_resolve(&"./a.webm".to_string(), &"a.webm".to_string(), 5000).unwrap();
    assert_eq!(track.info.source_name, "local");
    assert_eq!(track.info.identifier, "./a.webm");
    assert_eq!(track.info.uri.as_deref(), Some("./a.webm"));
    assert_eq!(track.info.title, "a.webm");
    assert_eq!(track.info.author, "unknown");
    assert!(track.info.length > 0);
    let decoded = decode_track(&track.encoded).unwrap();
    assert_eq!(decoded.info, track.info);
}

#[test]
fn api_request_counters() {
    let mut stats = StatsManager::new();
    stats.increment_api_request("/v4/loadtracks");
    stats.increment_api_request("/v4/loadtracks");
    stats.increment_api_request("/v4/info");
    let counts = stats._get_api_stats();
    assert_eq!(counts.len(), 2);
    assert_eq!(counts[0], ("/v4/loadtracks".to_string(), 2));
    assert_eq!(counts[1], ("/v4/info".to_string(), 1));
    stats._increment_api_error("/v4/loadtracks");
    stats.set_players(3);
    stats.set_playing_players(1);
    assert_eq!(stats.players, 3);
    assert_eq!(stats.playing_players, 1);
}

#[test]
fn gauges_count_playing_players() {
    let mut mgr = SessionManager::new();
    let id = mgr.create("1".to_string(), "c".to_string());
    let si = mgr.lookup(&id).unwrap();
    let encoded = encode_track(&aelira::track::DecodedInfo {
        title: "t".to_string(),
        author: "a".to_string(),
        length: 1,
        identifier: "i".to_string(),
        is_stream: false,
        uri: None,
        artwork_url: None,
        isrc: None,
        source_name: "local".to_string(),
        position: 0,
    })
    .unwrap();
    let mut body = PlayerUpdatePayload {
        track: None,
        encoded_track: Some(encoded),
        volume: None,
        paused: None,
        voice: None,
    };
    mgr.patch_player(si, "42".to_string(), &body);
    assert_eq!(count_players(&mgr), (1, 1));

    body.encoded_track = None;
    body.paused = Some(true);
    mgr.patch_player(si, "42".to_string(), &body);
    assert_eq!(count_players(&mgr), (1, 0));
}

#[test]
fn one_hz_fanout_has_one_update_per_playing_guild() {
    let mut mgr = SessionManager::new();
    let id = mgr.create("1".to_string(), "c".to_string());
    let si = mgr.lookup(&id).unwrap();
    mgr.get_player(si, "idle".to_string());
    let encoded = encode_track(&aelira::track::DecodedInfo {
        title: "t".to_string(),
        author: "a".to_string(),
        length: 1,
        identifier: "i".to_string(),
        is_stream: false,
        uri: None,
        artwork_url: None,
        isrc: None,
        source_name: "local".to_string(),
        position: 0,
    })
    .unwrap();
    let body = PlayerUpdatePayload {
        track: None,
        encoded_track: Some(encoded),
        volume: None,
        paused: None,
        voice: None,
    };
    mgr.patch_player(si, "42".to_string(), &body);
    let players = mgr.list_players(si);
    let frames = player_updates(&players, 999);
    assert_eq!(frames.len(), 1, "only the playing guild gets an update");
    assert_eq!(frames[0].op, "playerUpdate");
    assert_eq!(frames[0].guild_id, "42");
    assert_eq!(frames[0].time, 999);
    assert_eq!(frames[0].ping, -1);
}

#[test]
fn invalid_patterns_are_dropped_at_registration() {
    let mut mgr = SourceManager::new();
    mgr.register(
        "broken".to_string(),
        5,
        Vec::new(),
        vec!["(".to_string(), "^ok:".to_string()],
    );
    let plan = mgr.resolution_plan("ok:thing", false);
    assert_eq!(plan.try_sources, vec!["broken".to_string()], "only the valid pattern routes");
    let plan = mgr.resolution_plan("(", false);
    assert!(plan.try_sources.is_empty());
}

#[test]
fn route_planner_status() {
    let mut rp = RoutePlannerManager::new();
    let empty = rp.get_status();
    assert!(empty.class.is_none() && empty.details.is_none());

    rp.banned_ips.push(("1.2.3.4".to_string(), 123));
    let status = rp.get_status();
    assert_eq!(status.class.as_deref(), Some("RotatingIpRoutePlanner"));
    let details = status.details.unwrap();
    assert_eq!(details.failing_addresses.len(), 1);
    assert_eq!(details.failing_addresses[0].address, "1.2.3.4");
    assert_eq!(details.failing_addresses[0].timestamp, 123);
    assert_eq!(details.ip_block.kind, "Inet4Address");
    assert_eq!(details.ip_block.size, "1");
    assert_eq!(details.current_address, "0.0.0.0");

    rp.unmark_address(&"9.9.9.9".to_string());
    assert_eq!(rp.banned_ips.len(), 1);
    rp.unmark_address(&"1.2.3.4".to_string());
    assert!(rp.banned_ips.is_empty());
    rp.unmark_address(&"1.2.3.4".to_string());
    assert!(rp.banned_ips.is_empty(), "a repeated unmark changes nothing");

    rp.banned_ips.push(("a".to_string(), 1));
    rp.banned_ips.push(("b".to_string(), 2));
    rp.unmark_all_addresses();
    assert!(rp.banned_ips.is_empty());
}

#[test]
fn auth_and_user_id_checks() {
    assert!(check_auth(&None, &None));
    assert!(check_auth(&None, &Some("anything".to_string())));
    assert!(check_auth(&Some("pw".to_string()), &Some("pw".to_string())));
    assert!(!check_auth(&Some("pw".to_string()), &Some("other".to_string())));
    assert!(!check_auth(&Some("pw".to_string()), &None));

    assert!(user_id_all_numeric("1234567890"));
    assert!(user_id_all_numeric(""));
    assert!(!user_id_all_numeric("12a4"));
}

#[test]
fn session_update_ack_defaults() {
    let body = SessionUpdatePayload { resuming: None, timeout: None };
    assert_eq!(session_update_ack(&body), (false, 60));
    let body = SessionUpdatePayload { resuming: Some(true), timeout: Some(5) };
    assert_eq!(session_update_ack(&body), (true, 5));
}

#[test]
fn restore_plus_rewrites_spaces() {
    assert_eq!(restore_plus("a b c"), "a+b+c");
    assert_eq!(restore_plus("abc"), "abc");
}

#[test]
fn batch_decode_and_encode() {
    let info = aelira::track::DecodedInfo {
        title: "t".to_string(),
        author: "a".to_string(),
        length: 9,
        identifier: "x".to_string(),
        is_stream: true,
        uri: None,
        artwork_url: None,
        isrc: None,
        source_name: "local".to_string(),
        position: 4,
    };
    let encodeds = encode_tracks(&vec![info.clone(), info.clone()]).unwrap();
    assert_eq!(encodeds.len(), 2);
    let decodeds = decode_tracks(&encodeds).unwrap();
    assert_eq!(decodeds.len(), 2);
    assert_eq!(decodeds[0].info, info);
    assert!(decode_tracks(&vec!["bad!".to_string()]).is_err());
}

#[test]
fn version_component_parsing() {
    assert_eq!(parse_version_component("123"), 123);
    assert_eq!(parse_version_component("0"), 0);
    assert_eq!(parse_version_component(""), 0);
    assert_eq!(parse_version_component("1a"), 0);
    assert_eq!(parse_version_component("99999999999"), 0);
    let (major, rest) = split_first("1.2.3", '.');
    let (minor, patch) = split_first(&rest, '.');
    assert_eq!((major.as_str(), minor.as_str(), patch.as_str()), ("1", "2", "3"));
    let (whole, empty) = split_first("nodots", '.');
    assert_eq!(whole, "nodots");
    assert!(empty.is_empty());
}

#[test]
fn playback_decisions() {
    assert_eq!(map_mime_to_hint("audio/ogg"), Some(AudioContainer::Ogg));
    assert_eq!(map_mime_to_hint("video/webm"), Some(AudioContainer::Webm));
    assert_eq!(map_mime_to_hint("text/plain"), None);
    assert_eq!(AudioContainer::Flac.extension(), "flac");

    assert_eq!(choose_pipeline("webm/opus", true), PipelineKind::WebmOpus);
    assert_eq!(choose_pipeline("audio/mpeg", true), PipelineKind::PcmTranscode);
    assert_eq!(choose_pipeline("audio/mpeg", false), PipelineKind::WebmOpus);

    match pacer_step(FrameRead::Frame(vec![1, 2])) {
        PacerDecision::Send(f) => assert_eq!(f, vec![1, 2]),
        PacerDecision::Stop => panic!("a frame is sent"),
    }
    assert!(matches!(pacer_step(FrameRead::EndOfStream), PacerDecision::Stop));
    assert!(matches!(pacer_step(FrameRead::ReadError), PacerDecision::Stop));
    assert!(!barrier_exhausted(50));
    assert!(barrier_exhausted(51));

    assert_eq!(Level::Warn.label(), "WARN");
    assert_eq!(Level::Debug.label(), "DEBUG");
}
