use letraspip::config::AppConfig;
use letraspip::lyrics::{
    convert_result_to_lyrics_data, LrclibSearchResult, LyricsClient, SearchAction, SearchReply,
    SearchStage,
};
use letraspip::types::{AppError, LyricsBlock, LyricsData, LyricsQuality};

fn candidate(
    artist: &str,
    title: &str,
    instrumental: bool,
    synced: Option<&str>,
    plain: Option<&str>,
) -> LrclibSearchResult {
    LrclibSearchResult {
        id: 7,
        name: title.to_string(),
        track_name: title.to_string(),
        artist_name: artist.to_string(),
        album_name: "Album".to_string(),
        instrumental,
        synced_lyrics: synced.map(|s| s.to_string()),
        plain_lyrics: plain.map(|s| s.to_string()),
    }
}

fn data(blocks: Vec<LyricsBlock>, source: &str, quality: LyricsQuality, confidence: u32, at: i64) -> LyricsData {
    LyricsData { blocks, source: source.to_string(), quality, confidence, cached_at: at }
}

fn block(start: u64, end: u64, text: &str) -> LyricsBlock {
    LyricsBlock { start, end, text: text.to_string() }
}

fn client() -> LyricsClient {
    LyricsClient::new(&AppConfig::default())
}

fn found(action: SearchAction) -> LyricsData {
    match action {
        SearchAction::Found(l) => l,
        SearchAction::Query { url, .. } => panic!("query {}", url),
        SearchAction::NotFound => panic!("not found"),
    }
}

fn query(action: SearchAction) -> String {
    query_of(action).1
}

fn query_of(action: SearchAction) -> (SearchStage, String) {
    match action {
        SearchAction::Query { stage, url } => (stage, url),
        _ => panic!("no query"),
    }
}

#[test]
fn search_starts_with_the_exact_query() {
    assert_eq!(
        query(client().search_lyrics("Daft Punk", "Harder, Better & Faster/Stronger é")),
        "https://lrclib.net/api/search?artist_name=Daft%20Punk&track_name=Harder%2C%20Better%20%26%20Faster%2FStronger%20%C3%A9"
    );
    assert_eq!(
        query(client().search_lyrics("a-b_c.d~e", "")),
        "https://lrclib.net/api/search?artist_name=a-b_c.d~e&track_name="
    );
}

#[test]
fn exact_query_ends_the_search_with_its_first_candidate() {
    let reply = SearchReply::Results(vec![
        candidate("A", "T", false, Some("[00:01.00]one"), None),
        candidate("A", "T", false, Some("[00:02.00]two"), None),
    ]);
    assert_eq!(
        found(client().search_exact("A", "T", reply, 55)),
        data(vec![block(1000, 6000, "one")], "lrclib", LyricsQuality::High, 95, 55)
    );
}

#[test]
fn exact_query_without_lyrics_leads_to_the_free_text_query() {
    let c = client();
    let url = "https://lrclib.net/api/search?q=daft%20punk one%20more%20time";
    assert_eq!(
        query(c.search_exact("Daft Punk (Official)", "One More Time - Remastered", SearchReply::Failed, 0)),
        url
    );
    assert_eq!(
        query(c.search_exact("Daft Punk", "One More Time", SearchReply::Results(Vec::new()), 0)),
        url
    );
    let empty = SearchReply::Results(vec![
        candidate("A", "T", false, None, None),
        candidate("A", "T", false, Some("[00:02.00]second is not looked at"), None),
    ]);
    assert_eq!(query(c.search_exact("Daft Punk", "One More Time", empty, 0)), url);
}

#[test]
fn free_text_query_ends_the_search_with_the_best_match() {
    let reply = SearchReply::Results(vec![
        candidate("Someone", "Other Song", false, Some("[00:01.00]wrong"), None),
        candidate("Daft Punk", "One More Time", false, Some("[00:03.00]right"), None),
        candidate("Daft Punk", "One More Time", true, None, None),
    ]);
    assert_eq!(
        found(client().search_fuzzy("daft punk", "one more time", reply, 9)),
        data(vec![block(3000, 8000, "right")], "lrclib", LyricsQuality::High, 95, 9)
    );
}

#[test]
fn search_without_results_ends_by_the_title() {
    let c = client();
    assert_eq!(
        found(c.search_fuzzy("A", "Main Theme", SearchReply::Failed, 4)),
        data(Vec::new(), "detected", LyricsQuality::Instrumental, 90, 4)
    );
    assert!(matches!(c.search_fuzzy("A", "Love", SearchReply::Failed, 4), SearchAction::NotFound));
    assert!(matches!(
        c.search_fuzzy("A", "Love", SearchReply::Results(Vec::new()), 4),
        SearchAction::NotFound
    ));
    let useless = SearchReply::Results(vec![candidate("A", "Love", false, None, Some("  "))]);
    assert!(matches!(c.search_fuzzy("A", "Love", useless, 4), SearchAction::NotFound));
    let instrumental_only = SearchReply::Results(vec![candidate("A", "Intro", true, None, None)]);
    assert_eq!(
        found(c.search_fuzzy("A", "Intro", instrumental_only, 4)),
        data(Vec::new(), "detected", LyricsQuality::Instrumental, 90, 4)
    );
}

#[test]
fn instrumental_candidate_gives_an_empty_timeline() {
    let c = candidate("A", "T", true, Some("[00:01.00]ignored"), Some("ignored"));
    assert_eq!(
        convert_result_to_lyrics_data(&c, 3),
        Ok(Some(data(Vec::new(), "lrclib", LyricsQuality::Instrumental, 100, 3)))
    );
}

#[test]
fn synced_text_comes_before_plain_text() {
    let c = candidate("A", "T", false, Some("[00:01.00]synced"), Some("plain"));
    assert_eq!(
        convert_result_to_lyrics_data(&c, 3),
        Ok(Some(data(vec![block(1000, 6000, "synced")], "lrclib", LyricsQuality::High, 95, 3)))
    );
}

#[test]
fn plain_text_is_used_where_synced_text_gives_no_line() {
    let c = candidate("A", "T", false, Some("no tags\n  "), Some("one\ntwo"));
    assert_eq!(
        convert_result_to_lyrics_data(&c, 3),
        Ok(Some(data(
            vec![block(0, 4000, "one"), block(4000, 8000, "two")],
            "lrclib",
            LyricsQuality::Low,
            70,
            3
        )))
    );
    let blank_synced = candidate("A", "T", false, Some(" \n "), Some("one"));
    assert_eq!(
        convert_result_to_lyrics_data(&blank_synced, 3),
        Ok(Some(data(vec![block(0, 4000, "one")], "lrclib", LyricsQuality::Low, 70, 3)))
    );
}

#[test]
fn plain_text_of_metadata_only_gives_an_empty_low_timeline() {
    let c = candidate("A", "T", false, None, Some("[ar:x]\n[ti:y]"));
    assert_eq!(
        convert_result_to_lyrics_data(&c, 3),
        Ok(Some(data(Vec::new(), "lrclib", LyricsQuality::Low, 70, 3)))
    );
}

#[test]
fn candidate_without_text_gives_nothing() {
    assert_eq!(convert_result_to_lyrics_data(&candidate("A", "T", false, None, None), 3), Ok(None));
    assert_eq!(
        convert_result_to_lyrics_data(&candidate("A", "T", false, Some(""), Some(" \n\t")), 3),
        Ok(None)
    );
}

#[test]
fn ended_search_gives_its_timeline_or_says_that_there_is_none() {
    let c = client();
    assert_eq!(c.search_lyrics("A", "T").outcome(), None);
    assert_eq!(
        c.search_fuzzy("A", "Love", SearchReply::Failed, 4).outcome(),
        Some(Err(AppError::LyricsNotFound))
    );
    assert_eq!(
        c.search_fuzzy("A", "Outro", SearchReply::Failed, 4).outcome(),
        Some(Ok(data(Vec::new(), "detected", LyricsQuality::Instrumental, 90, 4)))
    );
}

#[test]
fn queries_carry_their_stage_and_replies_are_judged_by_it() {
    let c = client();
    let (first, _) = query_of(c.search_lyrics("A", "Love"));
    assert_eq!(first, SearchStage::Exact);
    let (second, url) = query_of(c.search_reply(first, "A", "Love", SearchReply::Failed, 1));
    assert_eq!(second, SearchStage::Fuzzy);
    assert_eq!(url, "https://lrclib.net/api/search?q=a love");
    let results = || SearchReply::Results(vec![candidate("A", "Love", false, None, Some("la"))]);
    assert_eq!(
        found(c.search_reply(SearchStage::Exact, "A", "Love", results(), 1)),
        data(vec![block(0, 4000, "la")], "lrclib", LyricsQuality::Low, 70, 1)
    );
    assert_eq!(
        found(c.search_reply(SearchStage::Fuzzy, "A", "Love", results(), 1)),
        data(vec![block(0, 4000, "la")], "lrclib", LyricsQuality::Low, 70, 1)
    );
    assert!(matches!(
        c.search_reply(second, "A", "Love", SearchReply::Failed, 1),
        SearchAction::NotFound
    ));
}
