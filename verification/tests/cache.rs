use letraspip::cache::{is_lyrics_file, lyrics_cache_key, track_key, CacheManager, CachedLyrics};
use letraspip::config::AppConfig;
use letraspip::types::{LyricsBlock, LyricsData, LyricsQuality, OffsetAnchor, TrackOffsetData};

fn lyrics(tag: &str) -> LyricsData {
    LyricsData {
        blocks: vec![LyricsBlock { start: 0, end: 2000, text: tag.to_string() }],
        source: "lrclib".to_string(),
        quality: LyricsQuality::High,
        confidence: 95,
        cached_at: 1,
    }
}

fn cache() -> CacheManager {
    CacheManager::new(&AppConfig::default())
}

fn record(id: &str, global_offset: i32, last_modified: i64) -> TrackOffsetData {
    TrackOffsetData {
        anchors: vec![OffsetAnchor { timestamp: 10, offset: 1 }],
        global_offset,
        track_id: id.to_string(),
        last_modified,
    }
}

#[test]
fn lyrics_key_is_lowercase_with_underscores() {
    assert_eq!(lyrics_cache_key("Daft Punk", "One More Time"), "daft_punk_one_more_time");
    assert_eq!(lyrics_cache_key("", ""), "_");
    assert_eq!(lyrics_cache_key("ÀB  c", "x_y"), "àb__c_x_y");
}

#[test]
fn offset_key_joins_artist_and_title_with_a_dash() {
    assert_eq!(track_key("Daft Punk", "One More Time"), "Daft Punk - One More Time");
    assert_eq!(track_key("", ""), " - ");
}

#[test]
fn lyrics_files_are_json_files_other_than_the_corrections() {
    assert!(is_lyrics_file("daft_punk_one_more_time.json"));
    assert!(is_lyrics_file(".json"));
    assert!(is_lyrics_file("xoffsets.json"));
    assert!(!is_lyrics_file("offsets.json"));
    assert!(!is_lyrics_file("notes.txt"));
    assert!(!is_lyrics_file("json"));
    assert!(!is_lyrics_file("a.JSON"));
    assert!(!is_lyrics_file(""));
}

#[test]
fn stored_lyrics_expire_after_the_configured_time() {
    let mut c = cache();
    let entry = c.store_lyrics("A", "T", lyrics("x"), 1_000);
    assert_eq!(entry, CachedLyrics { data: lyrics("x"), expires_at: 1_000 + 86_400_000 });
    assert_eq!(c.get_lyrics("A", "T", 1_000), Some(lyrics("x")));
    assert_eq!(c.get_lyrics("a", "t", 86_400_999), Some(lyrics("x")));
    assert_eq!(c.get_lyrics("A", "T", 86_401_000), None);
    assert_eq!(c.get_lyrics("A", "T", 1_000), None);
}

#[test]
fn configured_hours_set_the_expiry() {
    let mut config = AppConfig::default();
    config.lyrics.cache_duration_hours = 2;
    let mut c = CacheManager::new(&config);
    assert_eq!(c.store_lyrics("A", "T", lyrics("x"), -5).expires_at, 7_199_995);
    config.lyrics.cache_duration_hours = 0;
    let mut c = CacheManager::new(&config);
    c.store_lyrics("A", "T", lyrics("x"), 10);
    assert_eq!(c.get_lyrics("A", "T", 10), None);
}

#[test]
fn storing_again_replaces_the_entry() {
    let mut c = cache();
    c.store_lyrics("A", "T", lyrics("old"), 0);
    c.store_lyrics("A", "T", lyrics("new"), 0);
    assert_eq!(c.get_lyrics("A", "T", 1), Some(lyrics("new")));
}

#[test]
fn memory_drops_the_entry_used_least_recently() {
    let mut c = cache();
    for i in 0..50 {
        c.store_lyrics("A", &format!("t{}", i), lyrics("x"), 0);
    }
    assert_eq!(c.get_lyrics("A", "t0", 1), Some(lyrics("x")));
    c.store_lyrics("A", "t50", lyrics("x"), 0);
    assert_eq!(c.get_lyrics("A", "t1", 1), None);
    assert_eq!(c.get_lyrics("A", "t0", 1), Some(lyrics("x")));
    assert_eq!(c.get_lyrics("A", "t2", 1), Some(lyrics("x")));
    assert_eq!(c.get_lyrics("A", "t50", 1), Some(lyrics("x")));
}

#[test]
fn entry_from_the_backing_store_is_taken_in_while_fresh() {
    let mut c = cache();
    let entry = CachedLyrics { data: lyrics("disk"), expires_at: 100 };
    assert_eq!(c.load_lyrics_from_disk("A", "T", entry.clone(), 100), None);
    assert_eq!(c.get_lyrics("A", "T", 0), None);
    assert_eq!(c.load_lyrics_from_disk("A", "T", entry, 99), Some(lyrics("disk")));
    assert_eq!(c.get_lyrics("A", "T", 99), Some(lyrics("disk")));
}

#[test]
fn clearing_drops_lyrics_and_keeps_corrections() {
    let mut c = cache();
    c.store_lyrics("A", "T", lyrics("x"), 0);
    c.store_track_offset("A", "T", record("A:T", 5, 1));
    c.clear_lyrics_cache();
    assert_eq!(c.get_lyrics("A", "T", 0), None);
    assert_eq!(c.get_track_offset("A", "T"), Some(record("A:T", 5, 1)));
}

#[test]
fn corrections_are_stored_by_artist_and_title() {
    let mut c = cache();
    assert_eq!(c.get_track_offset("A", "T"), None);
    c.store_track_offset("A", "T", record("A:T", 5, 1));
    c.store_track_offset("A", "U", record("A:U", 6, 2));
    c.store_track_offset("A", "T", record("A:T", 7, 3));
    assert_eq!(c.get_track_offset("A", "T"), Some(record("A:T", 7, 3)));
    assert_eq!(c.get_track_offset("a", "t"), None);
    assert_eq!(
        c.save_offset_cache(),
        vec![("A - T".to_string(), record("A:T", 7, 3)), ("A - U".to_string(), record("A:U", 6, 2))]
    );
}

#[test]
fn global_offset_update_creates_or_changes_the_record() {
    let mut c = cache();
    c.update_global_offset("A", "T", 40, 9);
    assert_eq!(
        c.get_track_offset("A", "T"),
        Some(TrackOffsetData {
            anchors: Vec::new(),
            global_offset: 40,
            track_id: "A - T".to_string(),
            last_modified: 9,
        })
    );
    c.store_track_offset("A", "U", record("A:U", 6, 2));
    c.update_global_offset("A", "U", -1, 10);
    assert_eq!(c.get_track_offset("A", "U"), Some(record("A:U", -1, 10)));
}

#[test]
fn loading_replaces_the_corrections_and_the_later_of_two_stays() {
    let mut c = cache();
    c.store_track_offset("gone", "gone", record("x", 1, 1));
    c.init(vec![
        ("k".to_string(), record("first", 1, 1)),
        ("l".to_string(), record("other", 2, 2)),
        ("k".to_string(), record("second", 3, 3)),
    ]);
    assert_eq!(c.get_track_offset("gone", "gone"), None);
    assert_eq!(
        c.save_offset_cache(),
        vec![("k".to_string(), record("second", 3, 3)), ("l".to_string(), record("other", 2, 2))]
    );
}
