use letraspip::lyrics::{best_match, LrclibSearchResult};
use letraspip::similarity::{calculate_similarity_score, string_similarity, MatchScore, Similarity};

fn sim(shared: u64, total: u64) -> Similarity {
    Similarity { shared, total }
}

fn candidate(artist: &str, title: &str, instrumental: bool) -> LrclibSearchResult {
    LrclibSearchResult {
        id: 1,
        name: title.to_string(),
        track_name: title.to_string(),
        artist_name: artist.to_string(),
        album_name: String::new(),
        instrumental,
        synced_lyrics: None,
        plain_lyrics: None,
    }
}

#[test]
fn jaccard_index_of_bigram_sets() {
    assert_eq!(string_similarity("night", "nacht"), Some(sim(1, 7)));
    assert_eq!(string_similarity("abc", "abc"), Some(sim(2, 2)));
    assert_eq!(string_similarity("abc", "xyz"), Some(sim(0, 4)));
    assert_eq!(string_similarity("aaaa", "aa"), Some(sim(1, 1)));
    assert_eq!(string_similarity("abab", "ba"), Some(sim(1, 2)));
}

#[test]
fn texts_without_bigrams_have_similarity_zero() {
    assert_eq!(string_similarity("", ""), Some(sim(0, 0)));
    assert_eq!(string_similarity("a", "a"), Some(sim(0, 0)));
    assert_eq!(string_similarity("a", "ab"), Some(sim(0, 1)));
}

#[test]
fn bigrams_are_pairs_of_characters_not_of_bytes() {
    assert_eq!(string_similarity("éa", "éa"), Some(sim(1, 1)));
    assert_eq!(string_similarity("éa", "èa"), Some(sim(0, 2)));
}

#[test]
fn score_compares_lowercase_forms() {
    let score = calculate_similarity_score("DAFT punk", "One More Time", "daft PUNK", "one more time");
    assert_eq!(score, Some(MatchScore { title: sim(11, 11), artist: sim(8, 8) }));
}

#[test]
fn title_weighs_more_than_artist() {
    let a = MatchScore { title: sim(9, 10), artist: sim(5, 10) };
    let b = MatchScore { title: sim(6, 10), artist: sim(9, 10) };
    assert!(a.at_least(&b));
    assert!(!b.at_least(&a));
}

#[test]
fn equal_scores_are_each_at_least_the_other() {
    let a = MatchScore { title: sim(3, 10), artist: sim(7, 10) };
    let b = MatchScore { title: sim(6, 10), artist: sim(0, 10) };
    assert!(a.at_least(&b));
    assert!(b.at_least(&a));
    let zero = MatchScore { title: sim(0, 0), artist: sim(0, 0) };
    let also_zero = MatchScore { title: sim(0, 5), artist: sim(0, 9) };
    assert!(zero.at_least(&also_zero));
    assert!(also_zero.at_least(&zero));
    assert!(a.at_least(&zero));
    assert!(!zero.at_least(&a));
}

#[test]
fn scores_at_the_bound_do_not_overflow() {
    let big = MatchScore { title: sim(2147483648, 2147483648), artist: sim(2147483648, 2147483648) };
    let less = MatchScore { title: sim(2147483647, 2147483648), artist: sim(2147483648, 2147483648) };
    assert!(big.at_least(&less));
    assert!(!less.at_least(&big));
}

#[test]
fn best_match_maximises_the_weighted_score() {
    let results = vec![
        candidate("Daft Punk", "Around the World", false),
        candidate("Daft Punk", "One More Time", false),
        candidate("Someone", "One More Time", false),
    ];
    assert_eq!(best_match(&results, "daft punk", "one more time"), Some(1));
    assert_eq!(best_match(&results, "someone", "one more time"), Some(2));
}

#[test]
fn best_match_passes_over_instrumentals() {
    let results = vec![
        candidate("Daft Punk", "One More Time", true),
        candidate("Daft Punk", "One More", false),
    ];
    assert_eq!(best_match(&results, "Daft Punk", "One More Time"), Some(1));
    let only = vec![candidate("Daft Punk", "One More Time", true)];
    assert_eq!(best_match(&only, "Daft Punk", "One More Time"), None);
    assert_eq!(best_match(&Vec::new(), "Daft Punk", "One More Time"), None);
}

#[test]
fn best_match_takes_the_last_of_equal_scores() {
    let results = vec![
        candidate("A", "Song", false),
        candidate("A", "Song", false),
        candidate("zzz", "qqq", false),
    ];
    assert_eq!(best_match(&results, "A", "Song"), Some(1));
}
