use letraspip::config::AppConfig;
use letraspip::desktop::{
    desktop_currently_playing, desktop_full_player, is_desktop_active, parse_track_from_json,
    DesktopAction, DesktopAnswer, DesktopBody, DesktopEvent, DesktopPoller, DesktopQuery,
    DesktopState, Device, Diagnosis, RawImage, RawTrack,
};
use letraspip::spotify::SpotifyClient;
use letraspip::types::{AlbumInfo, ImageInfo, TrackInfo};

fn some(s: &str) -> Option<String> {
    Some(s.to_string())
}

fn empty_raw() -> RawTrack {
    RawTrack {
        id: None,
        name: None,
        artists: None,
        album_name: None,
        images: None,
        duration_ms: None,
    }
}

fn unknown_track() -> TrackInfo {
    TrackInfo {
        id: String::new(),
        name: "Unknown".to_string(),
        artist: "Unknown Artist".to_string(),
        album: AlbumInfo { name: "Unknown Album".to_string(), images: Vec::new() },
        duration_ms: 0,
        is_playing: true,
        progress_ms: 0,
    }
}

fn device(device_type: &str, is_active: bool) -> Device {
    Device { name: "d".to_string(), device_type: device_type.to_string(), is_active }
}

fn query(query: DesktopQuery, delay_ms: u64) -> DesktopAction {
    DesktopAction::Query { query, delay_ms }
}

fn answer(answer: DesktopAnswer, now: u64) -> DesktopEvent {
    DesktopEvent::Answer { answer, now }
}

#[test]
fn missing_fields_get_placeholders() {
    assert_eq!(parse_track_from_json(empty_raw()), unknown_track());
}

#[test]
fn raw_track_keeps_what_it_names_and_images_with_a_url() {
    let raw = RawTrack {
        id: some("id"),
        name: some("Song"),
        artists: Some(vec!["First".to_string(), "Second".to_string()]),
        album_name: some("Album"),
        images: Some(vec![
            RawImage { url: some("a"), width: Some(640), height: Some(4294967296 + 7) },
            RawImage { url: None, width: Some(1), height: Some(1) },
            RawImage { url: some("b"), width: None, height: None },
        ]),
        duration_ms: Some(1234),
    };
    assert_eq!(
        parse_track_from_json(raw),
        TrackInfo {
            id: "id".to_string(),
            name: "Song".to_string(),
            artist: "First, Second".to_string(),
            album: AlbumInfo {
                name: "Album".to_string(),
                images: vec![
                    ImageInfo { url: "a".to_string(), width: Some(640), height: Some(7) },
                    ImageInfo { url: "b".to_string(), width: None, height: None },
                ],
            },
            duration_ms: 1234,
            is_playing: true,
            progress_ms: 0,
        }
    );
}

#[test]
fn artists_of_a_raw_track_are_joined() {
    let with = |artists: Option<Vec<&str>>| {
        let mut raw = empty_raw();
        raw.artists = artists.map(|v| v.iter().map(|s| s.to_string()).collect());
        parse_track_from_json(raw).artist
    };
    assert_eq!(with(Some(vec!["A", "B"])), "A, B");
    assert_eq!(with(Some(vec!["A"])), "A");
    assert_eq!(with(Some(vec!["A", "B", "C"])), "A, B, C");
    assert_eq!(with(Some(vec![])), "Unknown Artist");
    assert_eq!(with(None), "Unknown Artist");
}

#[test]
fn desktop_answers_are_judged_by_status_and_body() {
    assert_eq!(
        desktop_currently_playing(200, DesktopBody::Document(empty_raw())),
        DesktopAnswer::Found(unknown_track())
    );
    assert_eq!(desktop_currently_playing(200, DesktopBody::Empty), DesktopAnswer::Empty);
    assert_eq!(desktop_currently_playing(200, DesktopBody::Malformed), DesktopAnswer::Empty);
    assert_eq!(
        desktop_currently_playing(204, DesktopBody::Document(empty_raw())),
        DesktopAnswer::Empty
    );
    assert_eq!(
        desktop_currently_playing(500, DesktopBody::Document(empty_raw())),
        DesktopAnswer::Empty
    );
    let document = || DesktopBody::Document(empty_raw());
    assert_eq!(desktop_full_player(200, document(), true), DesktopAnswer::Found(unknown_track()));
    assert_eq!(desktop_full_player(200, document(), false), DesktopAnswer::Empty);
    assert_eq!(desktop_full_player(204, document(), true), DesktopAnswer::Empty);
    assert_eq!(desktop_full_player(200, DesktopBody::Malformed, false), DesktopAnswer::Fault);
    assert_eq!(desktop_full_player(200, DesktopBody::Empty, true), DesktopAnswer::Fault);
    assert_eq!(desktop_full_player(204, DesktopBody::Empty, false), DesktopAnswer::Empty);
}

#[test]
fn first_active_device_decides() {
    assert!(is_desktop_active(&vec![device("Smartphone", false), device("Computer", true)]));
    assert!(!is_desktop_active(&vec![device("Smartphone", true), device("Computer", true)]));
    assert!(!is_desktop_active(&vec![device("Computer", false)]));
    assert!(!is_desktop_active(&vec![device("computer", true)]));
    assert!(!is_desktop_active(&Vec::new()));
}

#[test]
fn diagnosis_looks_for_any_active_computer() {
    let devices = vec![device("Smartphone", true), device("Computer", true)];
    assert_eq!(SpotifyClient::diagnose_desktop_204(&devices, 204), Diagnosis::DesktopSilent);
    assert_eq!(SpotifyClient::diagnose_desktop_204(&devices, 200), Diagnosis::DesktopAnswers);
    assert_eq!(SpotifyClient::diagnose_desktop_204(&vec![device("Computer", false)], 204), Diagnosis::NoActiveDesktop);
    assert_eq!(SpotifyClient::diagnose_desktop_204(&Vec::new(), 200), Diagnosis::NoActiveDesktop);
}

#[test]
fn first_poll_wakes_the_player_up() {
    let mut p = DesktopPoller::new();
    assert_eq!(p.step(DesktopEvent::Begin), DesktopAction::WakeUp);
    assert_eq!(
        p.step(DesktopEvent::Awake),
        query(DesktopQuery::CurrentlyPlaying, 0)
    );
    assert_eq!(
        p.step(answer(DesktopAnswer::Found(unknown_track()), 77)),
        DesktopAction::Track(unknown_track())
    );
    assert_eq!(
        p.desktop_state(),
        DesktopState { is_warmed_up: true, last_successful_call: Some(77), consecutive_204s: 0 }
    );
    assert_eq!(
        p.step(DesktopEvent::Begin),
        query(DesktopQuery::CurrentlyPlaying, 0)
    );
}

#[test]
fn silent_player_is_retried_with_growing_delays() {
    let mut p = DesktopPoller::new();
    p.step(DesktopEvent::Begin);
    p.step(DesktopEvent::Awake);
    assert_eq!(
        p.step(answer(DesktopAnswer::Empty, 1)),
        query(DesktopQuery::FullPlayer, 150)
    );
    assert_eq!(
        p.step(answer(DesktopAnswer::Fault, 2)),
        query(DesktopQuery::CurrentlyPlaying, 200)
    );
    assert_eq!(
        p.step(answer(DesktopAnswer::Empty, 3)),
        query(DesktopQuery::CurrentlyPlaying, 400)
    );
    assert_eq!(
        p.step(answer(DesktopAnswer::Empty, 4)),
        query(DesktopQuery::CurrentlyPlaying, 600)
    );
    assert_eq!(p.step(answer(DesktopAnswer::Empty, 5)), DesktopAction::Nothing);
    assert_eq!(
        p.desktop_state(),
        DesktopState { is_warmed_up: true, last_successful_call: None, consecutive_204s: 1 }
    );
}

#[test]
fn player_is_woken_up_again_after_more_than_three_empty_answers() {
    let mut p = DesktopPoller::new();
    p.step(DesktopEvent::Begin);
    p.step(DesktopEvent::Awake);
    for round in 0..2 {
        if round > 0 {
            assert_eq!(
                p.step(DesktopEvent::Begin),
                query(DesktopQuery::CurrentlyPlaying, 0)
            );
        }
        p.step(answer(DesktopAnswer::Empty, 1));
        p.step(answer(DesktopAnswer::Empty, 1));
        p.step(answer(DesktopAnswer::Found(unknown_track()), 9));
        assert_eq!(p.desktop_state().consecutive_204s, 0);
    }
    for _ in 0..2 {
        p.step(DesktopEvent::Begin);
        p.step(answer(DesktopAnswer::Empty, 1));
        p.step(answer(DesktopAnswer::Empty, 1));
    }
    assert_eq!(p.desktop_state().consecutive_204s, 4);
    assert_eq!(p.step(DesktopEvent::Begin), DesktopAction::WakeUp);
    p.step(DesktopEvent::Awake);
    assert_eq!(p.desktop_state().consecutive_204s, 0);
}

#[test]
fn reports_out_of_turn_end_the_desktop_poll() {
    let mut p = DesktopPoller::new();
    assert_eq!(p.step(DesktopEvent::Awake), DesktopAction::Nothing);
    assert_eq!(
        p.step(answer(DesktopAnswer::Found(unknown_track()), 1)),
        DesktopAction::Nothing
    );
    assert_eq!(p.desktop_state().last_successful_call, None);
    p.step(DesktopEvent::Begin);
    assert_eq!(p.step(answer(DesktopAnswer::Empty, 1)), DesktopAction::Nothing);
}

#[test]
fn client_polls_a_desktop_player_by_the_same_steps() {
    let mut c = SpotifyClient::new(AppConfig::default());
    assert_eq!(c.get_current_track_desktop(DesktopEvent::Begin), DesktopAction::WakeUp);
    assert_eq!(
        c.get_current_track_desktop(DesktopEvent::Awake),
        query(DesktopQuery::CurrentlyPlaying, 0)
    );
    assert_eq!(
        c.get_current_track_desktop(answer(DesktopAnswer::Empty, 3)),
        query(DesktopQuery::FullPlayer, 150)
    );
    assert_eq!(
        c.get_current_track_desktop(answer(DesktopAnswer::Found(unknown_track()), 4)),
        DesktopAction::Track(unknown_track())
    );
    assert_eq!(
        c.desktop_state(),
        DesktopState { is_warmed_up: true, last_successful_call: Some(4), consecutive_204s: 0 }
    );
}

#[test]
fn player_is_asked_to_seek_to_its_own_position() {
    assert_eq!(SpotifyClient::force_player_refresh(200, Some(1234)), Some(1234));
    assert_eq!(SpotifyClient::force_player_refresh(200, None), None);
    assert_eq!(SpotifyClient::force_player_refresh(204, Some(1234)), None);
}
