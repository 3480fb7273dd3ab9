use letraspip::lyrics::{
    build_blocks, clean_search_term, entry_from_captures, insert_entry, is_likely_instrumental,
    is_metadata_line, parse_lrc, parse_number, plain_lyrics_to_blocks,
};
use letraspip::types::LyricsBlock;

fn block(start: u64, end: u64, text: &str) -> LyricsBlock {
    LyricsBlock { start, end, text: text.to_string() }
}

#[test]
fn lrc_lines_become_blocks_until_the_next_start() {
    let blocks = parse_lrc("[00:01.50]Hello\n[00:04.00]World").unwrap();
    assert_eq!(blocks, vec![block(1500, 4000, "Hello"), block(4000, 9000, "World")]);
}

#[test]
fn adjacent_timestamps_are_clamped_to_the_minimum_duration() {
    let blocks = parse_lrc("[00:10.00]one\n[00:11.00]two\n[00:20.00]three").unwrap();
    assert_eq!(
        blocks,
        vec![block(10000, 12000, "one"), block(11000, 20000, "two"), block(20000, 25000, "three")]
    );
    for b in &blocks {
        assert!(b.end >= b.start + 2000);
    }
}

#[test]
fn three_digit_fractions_are_milliseconds() {
    let blocks = parse_lrc("[01:02.345]a\n[01:02.34]b").unwrap();
    assert_eq!(blocks[0], block(62340, 64340, "b"));
    assert_eq!(blocks[1], block(62345, 67345, "a"));
}

#[test]
fn lines_are_sorted_by_time_and_equal_times_keep_their_order() {
    let blocks = parse_lrc("[00:30.00]late\n[00:05.00]first\n[00:05.00]second\n").unwrap();
    assert_eq!(
        blocks,
        vec![block(5000, 7000, "first"), block(5000, 30000, "second"), block(30000, 35000, "late")]
    );
}

#[test]
fn metadata_and_empty_lines_are_left_out() {
    let text = "[ar:Someone]\n[ti:Song]\n[00:01.00]\n[00:02.00]   \n[00:03.00][note]\njust text\n[00:04.00] Sing \r\n[length:03:20]\n";
    let blocks = parse_lrc(text).unwrap();
    assert_eq!(blocks, vec![block(4000, 9000, "Sing")]);
}

#[test]
fn text_without_tags_gives_no_blocks() {
    assert!(parse_lrc("").unwrap().is_empty());
    assert!(parse_lrc("no tags here\nnor here").unwrap().is_empty());
    assert!(parse_lrc("[0:01.00]one digit of minutes").unwrap().is_empty());
}

#[test]
fn tag_is_found_anywhere_in_the_line() {
    let blocks = parse_lrc("intro [00:07.25] words").unwrap();
    assert_eq!(blocks, vec![block(7250, 12250, "words")]);
}

#[test]
fn digits_outside_ascii_count_as_zero() {
    let blocks = parse_lrc("[\u{0661}\u{0662}:30.00]x").unwrap();
    assert_eq!(blocks, vec![block(30000, 35000, "x")]);
}

#[test]
fn plain_lines_get_four_seconds_each() {
    let blocks = plain_lyrics_to_blocks("  first  \n\n[ar:x]\nsecond\n[chorus]\nthird").unwrap();
    assert_eq!(
        blocks,
        vec![block(0, 4000, "first"), block(4000, 8000, "second"), block(8000, 12000, "third")]
    );
    assert!(plain_lyrics_to_blocks("").unwrap().is_empty());
}

#[test]
fn metadata_lines_are_recognised() {
    assert!(is_metadata_line("[ar:Artist]"));
    assert!(is_metadata_line("[AR:Artist] trailing"));
    assert!(is_metadata_line("[Offset:+120] x"));
    assert!(is_metadata_line("[tool:x"));
    assert!(is_metadata_line("[anything at all]"));
    assert!(is_metadata_line("[]"));
    assert!(is_metadata_line(""));
    assert!(!is_metadata_line("["));
    assert!(!is_metadata_line("hello [world]"));
    assert!(!is_metadata_line("[hello] world"));
    assert!(!is_metadata_line(" [ar:x]"));
}

#[test]
fn numbers_parse_as_unsigned_decimal_or_zero() {
    assert_eq!(parse_number("0"), 0);
    assert_eq!(parse_number("07"), 7);
    assert_eq!(parse_number("+12"), 12);
    assert_eq!(parse_number("18446744073709551615"), u64::MAX);
    assert_eq!(parse_number("18446744073709551616"), 0);
    assert_eq!(parse_number("99999999999999999999999"), 0);
    assert_eq!(parse_number(""), 0);
    assert_eq!(parse_number("+"), 0);
    assert_eq!(parse_number("-1"), 0);
    assert_eq!(parse_number("1a"), 0);
    assert_eq!(parse_number("١٢"), 0);
}

#[test]
fn captures_of_another_shape_give_no_entry() {
    let some = |s: &str| Some(s.to_string());
    let good = vec![some("[01:02.50] hi "), some("01"), some("02"), some("50"), some(" hi ")];
    assert_eq!(entry_from_captures(&good), Some((62500, "hi".to_string())));
    let three = vec![some("x"), some("01"), some("02"), some("505"), some("hi")];
    assert_eq!(entry_from_captures(&three), Some((62505, "hi".to_string())));
    let short = vec![some("x"), some("1"), some("02"), some("50"), some("hi")];
    assert_eq!(entry_from_captures(&short), None);
    let missing = vec![some("x"), some("01"), None, some("50"), some("hi")];
    assert_eq!(entry_from_captures(&missing), None);
    let fewer = vec![some("x"), some("01"), some("02"), some("50")];
    assert_eq!(entry_from_captures(&fewer), None);
    let empty = vec![some("x"), some("01"), some("02"), some("50"), some("   ")];
    assert_eq!(entry_from_captures(&empty), None);
    let meta = vec![some("x"), some("01"), some("02"), some("50"), some("[by:me]")];
    assert_eq!(entry_from_captures(&meta), None);
}

#[test]
fn entries_are_inserted_behind_those_not_later() {
    let mut entries: Vec<(u64, String)> = Vec::new();
    insert_entry(&mut entries, 5, "a".to_string());
    insert_entry(&mut entries, 1, "b".to_string());
    insert_entry(&mut entries, 5, "c".to_string());
    insert_entry(&mut entries, 3, "d".to_string());
    let got: Vec<(u64, &str)> = entries.iter().map(|(t, s)| (*t, s.as_str())).collect();
    assert_eq!(got, vec![(1, "b"), (3, "d"), (5, "a"), (5, "c")]);
}

#[test]
fn blocks_are_built_from_entries_as_given() {
    let blocks = build_blocks(vec![(0, "a".to_string()), (1000, "b".to_string())]);
    assert_eq!(blocks, vec![block(0, 2000, "a"), block(1000, 6000, "b")]);
    assert!(build_blocks(Vec::new()).is_empty());
}

#[test]
fn search_terms_are_made_plain() {
    assert_eq!(clean_search_term("  Song Title (Live at Wembley)  "), "song title");
    assert_eq!(clean_search_term("Song [Deluxe] Name"), "song name");
    assert_eq!(clean_search_term("Heroes - Remastered 2017"), "heroes");
    assert_eq!(clean_search_term("One More Time - Remix by X"), "one more time");
    assert_eq!(clean_search_term("Artist feat. Someone Else"), "artist");
    assert_eq!(clean_search_term("Artist ft. Someone"), "artist");
    assert_eq!(clean_search_term("PLAIN"), "plain");
    assert_eq!(clean_search_term("(all in parentheses)"), "");
}

#[test]
fn instrumental_titles_are_recognised() {
    assert!(is_likely_instrumental("Song (Instrumental)"));
    assert!(is_likely_instrumental("KARAOKE version"));
    assert!(is_likely_instrumental("Intro"));
    assert!(is_likely_instrumental("Main Theme"));
    assert!(is_likely_instrumental("Lost in the post"));
    assert!(is_likely_instrumental("Suite No. 1"));
    assert!(!is_likely_instrumental("Love Song"));
    assert!(!is_likely_instrumental(""));
}
