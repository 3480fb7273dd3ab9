use letraspip::cache::CacheManager;
use letraspip::config::AppConfig;
use letraspip::sync_engine::{adjusted_progress, find_current_block_index, SyncEngine};
use letraspip::types::{
    AlbumInfo, LyricsBlock, LyricsData, LyricsQuality, OffsetAnchor, TrackInfo, TrackOffsetData,
};

fn track(id: &str, progress_ms: u64, is_playing: bool) -> TrackInfo {
    TrackInfo {
        id: id.to_string(),
        name: format!("Song {}", id),
        artist: "Artist".to_string(),
        album: AlbumInfo { name: "Album".to_string(), images: Vec::new() },
        duration_ms: 200000,
        is_playing,
        progress_ms,
    }
}

fn block(start: u64, end: u64, text: &str) -> LyricsBlock {
    LyricsBlock { start, end, text: text.to_string() }
}

fn timeline() -> LyricsData {
    LyricsData {
        blocks: vec![block(1000, 3000, "a"), block(3000, 6000, "b"), block(6000, 11000, "c")],
        source: "lrclib".to_string(),
        quality: LyricsQuality::High,
        confidence: 95,
        cached_at: 0,
    }
}

fn engine() -> SyncEngine {
    SyncEngine::new(CacheManager::new(&AppConfig::default()))
}

fn engine_with_lyrics(progress_ms: u64) -> SyncEngine {
    let mut e = engine();
    e.update_track(track("1", progress_ms, true));
    e.fetch_and_cache_lyrics("Artist", "Song 1", timeline(), 0);
    e
}

#[test]
fn index_follows_the_position() {
    let blocks = timeline().blocks;
    assert_eq!(find_current_block_index(&blocks, 0), 0);
    assert_eq!(find_current_block_index(&blocks, 999), 0);
    assert_eq!(find_current_block_index(&blocks, 1000), 0);
    assert_eq!(find_current_block_index(&blocks, 2999), 0);
    assert_eq!(find_current_block_index(&blocks, 3000), 1);
    assert_eq!(find_current_block_index(&blocks, 6000), 2);
    assert_eq!(find_current_block_index(&blocks, 10999), 2);
    assert_eq!(find_current_block_index(&blocks, 11000), 2);
    assert_eq!(find_current_block_index(&blocks, u64::MAX), 2);
    assert_eq!(find_current_block_index(&Vec::new(), 5), -1);
}

#[test]
fn index_is_the_first_line_that_covers_or_else_the_last() {
    let blocks = vec![block(0, 2000, "a"), block(1000, 5000, "b"), block(8000, 9000, "c")];
    assert_eq!(find_current_block_index(&blocks, 1500), 0);
    assert_eq!(find_current_block_index(&blocks, 2500), 1);
    assert_eq!(find_current_block_index(&blocks, 6000), 2);
}

#[test]
fn correction_shifts_the_position_and_stops_at_zero() {
    assert_eq!(adjusted_progress(1000, 500), 1500);
    assert_eq!(adjusted_progress(1000, -500), 500);
    assert_eq!(adjusted_progress(1000, -1000), 0);
    assert_eq!(adjusted_progress(1000, -1001), 0);
    assert_eq!(adjusted_progress(0, i32::MIN), 0);
    assert_eq!(adjusted_progress(3000000000, i32::MIN), 852516352);
    assert_eq!(adjusted_progress(u64::MAX, 1), u64::MAX);
    assert_eq!(adjusted_progress(u64::MAX - 5, 5), u64::MAX);
}

#[test]
fn new_engine_shows_nothing() {
    let mut e = engine();
    let s = e.get_state();
    assert_eq!(s.current_track, None);
    assert_eq!(s.lyrics, None);
    assert_eq!(s.current_block_index, -1);
    assert_eq!(s.global_offset, 0);
    assert!(!s.is_paused);
    assert!(!s.user_has_scrolled);
}

#[test]
fn two_snapshots_in_a_row_are_identical() {
    let mut e = engine_with_lyrics(3500);
    e.adjust_offset(-700, 10, 20);
    let first = e.get_state();
    let second = e.get_state();
    assert_eq!(first, second);
    assert_eq!(first.current_block_index, 0);
}

#[test]
fn snapshot_recomputes_the_index_from_the_track_progress() {
    let mut e = engine_with_lyrics(3500);
    assert_eq!(e.get_state().current_block_index, 1);
    assert!(!e.update_track(track("1", 7000, true)));
    assert_eq!(e.get_state().current_block_index, 2);
}

#[test]
fn track_change_clears_lyrics_index_and_scroll_flag() {
    let mut e = engine_with_lyrics(3500);
    e.set_user_scrolled(true);
    e.adjust_offset(300, 0, 0);
    assert_eq!(e.get_state().current_block_index, 1);
    assert!(e.update_track(track("2", 100, false)));
    let s = e.get_state();
    assert_eq!(s.current_track, Some(track("2", 100, false)));
    assert_eq!(s.lyrics, None);
    assert_eq!(s.current_block_index, -1);
    assert_eq!(s.global_offset, 0);
    assert!(s.is_paused);
    assert!(!s.user_has_scrolled);
}

#[test]
fn track_change_reloads_the_cached_correction() {
    let mut e = engine();
    e.update_track(track("1", 0, true));
    assert_eq!(e.adjust_offset(450, 0, 0), 450);
    e.update_track(track("2", 0, true));
    assert_eq!(e.get_state().global_offset, 0);
    e.update_track(track("1", 0, true));
    assert_eq!(e.get_state().global_offset, 450);
}

#[test]
fn same_track_keeps_lyrics_and_correction() {
    let mut e = engine_with_lyrics(0);
    e.adjust_offset(120, 0, 0);
    e.set_user_scrolled(true);
    assert!(!e.update_track(track("1", 6500, false)));
    let s = e.get_state();
    assert_eq!(s.lyrics, Some(timeline()));
    assert_eq!(s.global_offset, 120);
    assert!(s.is_paused);
    assert!(s.user_has_scrolled);
    assert_eq!(s.current_block_index, 2);
}

#[test]
fn progress_moves_the_index_with_the_correction() {
    let mut e = engine_with_lyrics(0);
    assert_eq!(e.current_block_index(), -1);
    e.update_progress(2900, 100);
    assert_eq!(e.current_block_index(), 0);
    e.update_progress(3000, 200);
    assert_eq!(e.current_block_index(), 1);
    e.adjust_offset(-200, 0, 0);
    e.update_progress(3100, 5000);
    assert_eq!(e.current_block_index(), 0);
    e.update_progress(3200, 5001);
    assert_eq!(e.current_block_index(), 1);
}

#[test]
fn progress_without_lines_leaves_the_index() {
    let mut e = engine();
    e.update_track(track("1", 0, true));
    e.update_progress(5000, 1);
    assert_eq!(e.current_block_index(), -1);
    let mut empty = timeline();
    empty.blocks = Vec::new();
    e.fetch_and_cache_lyrics("Artist", "Song 1", empty, 0);
    e.update_progress(5000, 2);
    assert_eq!(e.current_block_index(), -1);
}

#[test]
fn progress_within_the_lock_window_is_ignored() {
    let mut e = engine_with_lyrics(3500);
    assert_eq!(e.adjust_offset(0, 1000, 0), 0);
    assert_eq!(e.current_block_index(), 1);
    e.update_progress(7000, 1000);
    assert_eq!(e.current_block_index(), 1);
    e.update_progress(7000, 5999);
    assert_eq!(e.current_block_index(), 1);
    e.update_progress(100, 3000);
    assert_eq!(e.current_block_index(), 1);
}

#[test]
fn progress_after_the_lock_window_is_taken_in() {
    let mut e = engine_with_lyrics(3500);
    e.adjust_offset(0, 1000, 0);
    e.update_progress(7000, 5999);
    assert_eq!(e.current_block_index(), 1);
    e.update_progress(7000, 6000);
    assert_eq!(e.current_block_index(), 2);
}

#[test]
fn reset_offset_leaves_an_open_window_open() {
    let mut e = engine_with_lyrics(3500);
    e.adjust_offset(10, 1000, 0);
    e.reset_offset(0);
    e.update_progress(7000, 2000);
    assert_eq!(e.current_block_index(), 1);
}

#[test]
fn adjust_offset_adds_and_stores_the_correction() {
    let mut e = engine_with_lyrics(3500);
    assert_eq!(e.adjust_offset(-600, 0, 77), -600);
    assert_eq!(e.adjust_offset(100, 0, 78), -500);
    let s = e.get_state();
    assert_eq!(s.global_offset, -500);
    assert_eq!(s.current_block_index, 1);
    assert_eq!(
        e.get_cache().get_track_offset("Artist", "Song 1"),
        Some(TrackOffsetData {
            anchors: Vec::new(),
            global_offset: -500,
            track_id: "Artist:Song 1".to_string(),
            last_modified: 78,
        })
    );
}

#[test]
fn adjust_offset_without_a_track_changes_nothing() {
    let mut e = engine();
    assert_eq!(e.adjust_offset(500, 0, 0), 0);
    assert_eq!(e.get_state().global_offset, 0);
    e.update_progress(1, 1);
    assert!(e.get_cache().save_offset_cache().is_empty());
}

#[test]
fn reset_offset_zeroes_the_correction_and_opens_no_window() {
    let mut e = engine_with_lyrics(3500);
    e.adjust_offset(-3000, 0, 1);
    assert_eq!(e.get_state().current_block_index, 0);
    assert_eq!(e.reset_offset(2), 0);
    let s = e.get_state();
    assert_eq!(s.global_offset, 0);
    assert_eq!(s.current_block_index, 1);
    assert_eq!(e.get_cache().get_track_offset("Artist", "Song 1").unwrap().global_offset, 0);
    assert_eq!(e.get_cache().get_track_offset("Artist", "Song 1").unwrap().last_modified, 2);
    assert_eq!(engine().reset_offset(0), 0);
}

#[test]
fn fetched_lyrics_become_current_and_resolve_no_line() {
    let mut e = engine();
    e.update_track(track("1", 3500, true));
    let entry = e.fetch_and_cache_lyrics("Artist", "Song 1", timeline(), 1000);
    assert_eq!(entry.data, timeline());
    assert_eq!(entry.expires_at, 1000 + 24 * 3600 * 1000);
    e.update_track(track("2", 0, true));
    assert_eq!(e.fetch_lyrics("Artist", "Song 2", 2000), None);
    assert_eq!(e.fetch_lyrics("artist", "song 1", 2000), Some(timeline()));
    e.update_progress(0, 0);
    e.update_track(track("2", 3500, true));
    assert_eq!(e.get_state().current_block_index, 1);
}

#[test]
fn stale_lyrics_are_not_fetched_from_memory() {
    let mut e = engine();
    let entry = e.fetch_and_cache_lyrics("Artist", "Song", timeline(), 0);
    assert_eq!(e.fetch_lyrics("Artist", "Song", entry.expires_at - 1), Some(timeline()));
    assert_eq!(e.fetch_lyrics("Artist", "Song", entry.expires_at), None);
    assert_eq!(e.fetch_lyrics("Artist", "Song", 0), None);
}

#[test]
fn lyrics_from_the_backing_store_are_taken_in_while_fresh() {
    let mut e = engine();
    let mut other = engine();
    let entry = other.fetch_and_cache_lyrics("Artist", "Song", timeline(), 0);
    assert_eq!(e.fetch_cached_lyrics("Artist", "Song", entry.clone(), entry.expires_at), None);
    assert_eq!(e.get_state().lyrics, None);
    assert_eq!(e.fetch_cached_lyrics("Artist", "Song", entry.clone(), 5), Some(timeline()));
    assert_eq!(e.get_state().lyrics, Some(timeline()));
    assert_eq!(e.fetch_lyrics("Artist", "Song", 6), Some(timeline()));
}

#[test]
fn clearing_the_lyrics_cache_keeps_the_current_timeline() {
    let mut e = engine_with_lyrics(0);
    e.clear_lyrics_cache();
    assert_eq!(e.fetch_lyrics("Artist", "Song 1", 0), None);
    assert_eq!(e.get_state().lyrics, Some(timeline()));
}

#[test]
fn stored_corrections_are_read_at_start() {
    let mut e = engine();
    let record = TrackOffsetData {
        anchors: Vec::new(),
        global_offset: 90,
        track_id: "Artist:Song 1".to_string(),
        last_modified: 3,
    };
    e.initialize(vec![("Artist - Song 1".to_string(), record.clone())]);
    e.update_track(track("1", 0, true));
    assert_eq!(e.get_state().global_offset, 90);
    assert_eq!(e.get_cache().save_offset_cache(), vec![("Artist - Song 1".to_string(), record)]);
}

#[test]
fn adjustment_keeps_the_anchors_on_record_and_only_reset_clears_them() {
    let anchors = vec![
        OffsetAnchor { timestamp: 1000, offset: 50 },
        OffsetAnchor { timestamp: 5000, offset: -100 },
    ];
    let mut e = engine();
    e.initialize(vec![(
        "Artist - Song 1".to_string(),
        TrackOffsetData {
            anchors: anchors.clone(),
            global_offset: 20,
            track_id: "Artist:Song 1".to_string(),
            last_modified: 1,
        },
    )]);
    e.update_track(track("1", 0, true));
    assert_eq!(e.adjust_offset(30, 0, 2), 50);
    assert_eq!(
        e.get_cache().get_track_offset("Artist", "Song 1"),
        Some(TrackOffsetData {
            anchors: anchors.clone(),
            global_offset: 50,
            track_id: "Artist:Song 1".to_string(),
            last_modified: 2,
        })
    );
    assert_eq!(e.adjust_offset(-5, 0, 3), 45);
    assert_eq!(e.get_cache().get_track_offset("Artist", "Song 1").unwrap().anchors, anchors);
    assert_eq!(e.reset_offset(4), 0);
    assert_eq!(
        e.get_cache().get_track_offset("Artist", "Song 1"),
        Some(TrackOffsetData {
            anchors: Vec::new(),
            global_offset: 0,
            track_id: "Artist:Song 1".to_string(),
            last_modified: 4,
        })
    );
}

#[test]
fn adjustment_without_a_track_takes_any_delta() {
    let mut e = engine();
    assert_eq!(e.adjust_offset(i32::MAX, u64::MAX, 0), 0);
    assert_eq!(e.adjust_offset(i32::MIN, u64::MAX, 0), 0);
    assert_eq!(e.get_state().global_offset, 0);
}
