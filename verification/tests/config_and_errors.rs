use letraspip::config::AppConfig;
use letraspip::types::{AlbumInfo, AppError, Track, TrackInfo};

#[test]
fn built_in_configuration() {
    let c = AppConfig::default();
    assert_eq!(c.spotify.client_id, "your_client_id");
    assert_eq!(c.spotify.client_secret, "your_client_secret");
    assert_eq!(c.spotify.redirect_uri, "http://localhost:8080/callback");
    assert_eq!(c.spotify.polling_interval_ms, 100);
    assert_eq!(c.lyrics.lrclib_base_url, "https://lrclib.net/api");
    assert_eq!(c.lyrics.cache_duration_hours, 24);
    assert_eq!(c.lyrics.fallback_sources, vec!["lrclib".to_string()]);
    assert_eq!(c.ui.font_family, "Segoe UI");
    assert_eq!(c.ui.font_size, 16);
    assert_eq!(c.ui.theme, "dark");
    assert_eq!(c.ui.window_position, None);
    assert_eq!(c.ui.window_size, Some((800, 600)));
    assert_eq!(c.clone(), c);
}

#[test]
fn first_setting_wins_over_its_alternative() {
    let some = |s: &str| Some(s.to_string());
    let c = AppConfig::from_settings(some("a"), some("b"), None, some("d"), some("e"));
    assert_eq!(c.spotify.client_id, "a");
    assert_eq!(c.spotify.client_secret, "d");
    assert_eq!(c.spotify.redirect_uri, "e");
    let c = AppConfig::from_settings(None, some("b"), some("c"), None, None);
    assert_eq!(c.spotify.client_id, "b");
    assert_eq!(c.spotify.client_secret, "c");
    assert_eq!(c.spotify.redirect_uri, "http://localhost:8080/callback");
}

#[test]
fn errors_describe_themselves() {
    let s = |t: &str| t.to_string();
    assert_eq!(AppError::Spotify(s("x")).message(), "Spotify API error: x");
    assert_eq!(AppError::LyricsNotFound.message(), "Lyrics not found");
    assert_eq!(AppError::Cache(s("x")).message(), "Cache error: x");
    assert_eq!(AppError::Config(s("x")).message(), "Configuration error: x");
    assert_eq!(AppError::Io(s("x")).message(), "IO error: x");
    assert_eq!(AppError::Json(s("")).message(), "JSON error: ");
    assert_eq!(AppError::Anyhow(s("x")).message(), "Anyhow error: x");
    assert_eq!(AppError::Cache(s("x")).clone(), AppError::Cache(s("x")));
}

#[test]
fn reduced_track_names_the_album() {
    let t = TrackInfo {
        id: "i".to_string(),
        name: "n".to_string(),
        artist: "a".to_string(),
        album: AlbumInfo { name: "al".to_string(), images: Vec::new() },
        duration_ms: 9,
        is_playing: true,
        progress_ms: 4,
    };
    assert_eq!(
        Track::of(&t),
        Track {
            name: "n".to_string(),
            artist: "a".to_string(),
            album: "al".to_string(),
            progress_ms: 4,
            duration_ms: 9,
        }
    );
    assert_eq!(t.clone(), t);
}
