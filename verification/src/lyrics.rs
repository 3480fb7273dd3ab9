//! Lyric timelines: parsing time-coded and plain text, and choosing among
//! the candidates that a lyrics index returns.
use vstd::prelude::*;
use vstd::utf8::encode_utf8;
use crate::config::AppConfig;
use crate::encoding::{percent_encoded, url_encode};
use crate::patterns::{
    captures_of, find_captures, group_views, pattern_valid, replace_matches, replaced_all,
};
use crate::similarity::{calculate_similarity_score, match_score, MatchScore};
use crate::text::{
    chars_of, contains_text, has_infix, has_prefix, lines, lines_of, lowercase, opt_text,
    starts_with, text_views, trim, trim_bounds, trimmed,
};
use crate::types::{
    block_models, lyrics_model, AppError, BlockModel, LyricsBlock, LyricsData, LyricsModel,
    LyricsQuality,
};

verus! {

/// How long the last line of a timeline lasts, in milliseconds.
pub const LAST_LINE_MS: u64 = 5000;

/// The least duration of a line, in milliseconds.
pub const MIN_LINE_MS: u64 = 2000;

/// The duration given to each line of plain text, in milliseconds.
pub const PLAIN_LINE_MS: u64 = 4000;

/// The greatest time that a time tag can name: 99 minutes, 99 seconds and
/// 999 milliseconds.
pub const MAX_TAG_MS: u64 = 6039999;

/// The pattern of a time-coded line: a tag `[mm:ss.cc]` or `[mm:ss.ccc]`
/// and the text after it.
pub open spec fn lrc_pattern() -> Seq<char> {
    "\\[(\\d{2}):(\\d{2})\\.(\\d{2,3})\\](.*)"@
}

/// Whether a character is one of the digits `0` to `9`.
pub open spec fn is_digit(c: char) -> bool {
    '0' <= c <= '9'
}

/// The number that a text of digits writes in base ten.
pub open spec fn digits_value(s: Seq<char>) -> nat
    decreases s.len(),
{
    if s.len() == 0 {
        0
    } else {
        digits_value(s.drop_last()) * 10 + (s.last() as nat - '0' as nat) as nat
    }
}

/// The digits of a number text: the text without an optional leading `+`.
pub open spec fn unsigned_part(s: Seq<char>) -> Seq<char> {
    if s.len() > 0 && s[0] == '+' {
        s.drop_first()
    } else {
        s
    }
}

/// The number that a text writes, or 0 where it writes none that fits 64
/// bits: a number is an optional `+` and at least one digit.
pub open spec fn number_or_zero(s: Seq<char>) -> nat {
    let d = unsigned_part(s);
    if d.len() > 0 && (forall|i: int| 0 <= i < d.len() ==> is_digit(#[trigger] d[i]))
        && digits_value(d) <= u64::MAX {
        digits_value(d)
    } else {
        0
    }
}

/// A longer text of digits writes a number that is at least as large.
pub proof fn lemma_digits_value_monotonic(s: Seq<char>, k: int)
    requires
        0 <= k <= s.len(),
        forall|i: int| 0 <= i < s.len() ==> is_digit(#[trigger] s[i]),
    ensures
        digits_value(s.subrange(0, k)) <= digits_value(s),
    decreases s.len() - k,
{
    if k == s.len() {
        assert(s.subrange(0, k) =~= s);
    } else {
        lemma_digits_value_monotonic(s.drop_last(), k);
        assert(s.drop_last().subrange(0, k) =~= s.subrange(0, k));
        assert(is_digit(s.last()));
    }
}

/// A text of at most three digits writes a number below 1000, and one of
/// at most two digits a number below 100.
pub proof fn lemma_digits_value_small(s: Seq<char>)
    requires
        s.len() <= 3,
        forall|i: int| 0 <= i < s.len() ==> is_digit(#[trigger] s[i]),
    ensures
        digits_value(s) <= 999,
        s.len() <= 2 ==> digits_value(s) <= 99,
        s.len() <= 1 ==> digits_value(s) <= 9,
        s.len() == 0 ==> digits_value(s) == 0,
    decreases s.len(),
{
    if s.len() > 0 {
        lemma_digits_value_small(s.drop_last());
        assert(is_digit(s.last()));
    }
}

/// The number that a text writes, or 0 where it writes none.
pub fn parse_number(s: &str) -> (r: u64)
    ensures
        r == number_or_zero(s@),
{
    let chars = chars_of(s);
    let n = chars.len();
    let first: usize = if n > 0 && chars[0] == '+' {
        1
    } else {
        0
    };
    let ghost d = unsigned_part(s@);
    assert(d =~= chars@.subrange(first as int, n as int));
    if first == n {
        return 0;
    }
    let mut value: u64 = 0;
    let mut i: usize = first;
    while i < n
        invariant
            first <= i <= n == chars.len(),
            d == chars@.subrange(first as int, n as int),
            d == unsigned_part(s@),
            forall|k: int| 0 <= k < i - first ==> is_digit(#[trigger] d[k]),
            value == digits_value(d.subrange(0, i - first)),
        decreases n - i,
    {
        let c = chars[i];
        assert(d[i - first] == c);
        if c < '0' || c > '9' {
            assert(!is_digit(d[i - first]));
            return 0;
        }
        let digit: u64 = (c as u64) - ('0' as u64);
        let ghost next = d.subrange(0, i - first + 1);
        proof {
            assert(next.drop_last() =~= d.subrange(0, i - first));
            assert(next.last() == c);
        }
        assert(digits_value(next) == value * 10 + digit);
        if value > (u64::MAX - digit) / 10 {
            proof {
                assert(digits_value(next) > u64::MAX);
                if forall|k: int| 0 <= k < d.len() ==> is_digit(#[trigger] d[k]) {
                    lemma_digits_value_monotonic(d, i - first + 1);
                    assert(digits_value(d) > u64::MAX);
                }
                assert(number_or_zero(s@) == 0);
            }
            return 0;
        }
        value = value * 10 + digit;
        i += 1;
    }
    assert(d.subrange(0, d.len() as int) =~= d);
    value
}

/// Whether a line of text is metadata and no lyric: it starts, in lowercase,
/// with one of the known tags, or it is one bracketed tag, or it is empty.
pub open spec fn is_metadata(text: Seq<char>) -> bool {
    let lower = lowercase(text);
    ||| starts_with(lower, "[ar:"@)
    ||| starts_with(lower, "[ti:"@)
    ||| starts_with(lower, "[al:"@)
    ||| starts_with(lower, "[by:"@)
    ||| starts_with(lower, "[offset:"@)
    ||| starts_with(lower, "[length:"@)
    ||| starts_with(lower, "[tool:"@)
    ||| starts_with(lower, "[ve:"@)
    ||| starts_with(lower, "[re:"@)
    ||| (text.len() > 0 && text[0] == '[' && text.last() == ']')
    ||| text.len() == 0
}

/// Whether a line of text is metadata and no lyric.
pub fn is_metadata_line(text: &str) -> (r: bool)
    ensures
        r == is_metadata(text@),
{
    let lowered = text.to_lowercase();
    let lower = chars_of(lowered.as_str());
    let chars = chars_of(text);
    let n = chars.len();
    has_prefix(&lower, "[ar:") || has_prefix(&lower, "[ti:") || has_prefix(&lower, "[al:")
        || has_prefix(&lower, "[by:") || has_prefix(&lower, "[offset:") || has_prefix(
        &lower,
        "[length:",
    ) || has_prefix(&lower, "[tool:") || has_prefix(&lower, "[ve:") || has_prefix(&lower, "[re:")
        || (n > 0 && chars[0] == '[' && chars[n - 1] == ']') || n == 0
}

/// A time in milliseconds with the text that starts there.
pub type Entry = (u64, Seq<char>);

/// Views of a list of timed texts, in order.
pub open spec fn entry_views(entries: Seq<(u64, String)>) -> Seq<Entry> {
    Seq::new(entries.len(), |i: int| (entries[i].0, entries[i].1@))
}

/// The time that the three fields of a tag name: minutes, seconds, and a
/// fraction that two digits give in hundredths and three in thousandths.
pub open spec fn tag_time(minutes: Seq<char>, seconds: Seq<char>, fraction: Seq<char>) -> nat {
    number_or_zero(minutes) * 60000 + number_or_zero(seconds) * 1000 + number_or_zero(fraction)
        * (if fraction.len() == 2 {
        10nat
    } else {
        1nat
    })
}

/// Whether the groups have the shape of a match of the tag pattern: the
/// whole match, two characters of minutes, two of seconds, two or three of a
/// fraction, and the text.
pub open spec fn tag_shaped(groups: Seq<Option<Seq<char>>>) -> bool {
    &&& groups.len() == 5
    &&& groups[1] is Some
    &&& groups[2] is Some
    &&& groups[3] is Some
    &&& groups[4] is Some
    &&& groups[1]->0.len() == 2
    &&& groups[2]->0.len() == 2
    &&& 2 <= groups[3]->0.len() <= 3
}

/// The timed text that the groups of a match stand for: none where the text
/// after the tag is empty once trimmed, or is metadata.
pub open spec fn entry_of_groups(groups: Seq<Option<Seq<char>>>) -> Option<Entry> {
    if tag_shaped(groups) {
        let text = trimmed(groups[4]->0);
        if text.len() > 0 && !is_metadata(text) {
            Some((tag_time(groups[1]->0, groups[2]->0, groups[3]->0) as u64, text))
        } else {
            None
        }
    } else {
        None
    }
}

/// A number text of at most three characters writes a number below 1000,
/// and one of at most two a number below 100.
pub proof fn lemma_number_small(s: Seq<char>)
    requires
        s.len() <= 3,
    ensures
        number_or_zero(s) <= 999,
        s.len() <= 2 ==> number_or_zero(s) <= 99,
{
    let d = unsigned_part(s);
    if d.len() > 0 && (forall|i: int| 0 <= i < d.len() ==> is_digit(#[trigger] d[i])) {
        lemma_digits_value_small(d);
    }
}

/// The timed text that the groups of a match stand for.
pub fn entry_from_captures(groups: &Vec<Option<String>>) -> (r: Option<(u64, String)>)
    ensures
        match r {
            Some(e) => entry_of_groups(group_views(groups@)) == Some((e.0, e.1@)) && e.0
                <= MAX_TAG_MS,
            None => entry_of_groups(group_views(groups@)) is None,
        },
{
    if groups.len() != 5 {
        return None;
    }
    let ghost gv = group_views(groups@);
    match (&groups[1], &groups[2], &groups[3], &groups[4]) {
        (Some(minutes), Some(seconds), Some(fraction), Some(rest)) => {
            assert(gv[1] == Some(minutes@) && gv[2] == Some(seconds@) && gv[3] == Some(fraction@)
                && gv[4] == Some(rest@));
            let fraction_len = fraction.as_str().unicode_len();
            if minutes.as_str().unicode_len() != 2 || seconds.as_str().unicode_len() != 2
                || fraction_len < 2 || fraction_len > 3 {
                return None;
            }
            proof {
                lemma_number_small(minutes@);
                lemma_number_small(seconds@);
                lemma_number_small(fraction@);
            }
            let m = parse_number(minutes.as_str());
            let sec = parse_number(seconds.as_str());
            let mut frac = parse_number(fraction.as_str());
            if fraction_len == 2 {
                frac = frac * 10;
            }
            let time = m * 60000 + sec * 1000 + frac;
            let text = trim(rest.as_str());
            if text.as_str().unicode_len() > 0 && !is_metadata_line(text.as_str()) {
                Some((time, text))
            } else {
                None
            }
        },
        _ => {
            assert(gv[1] == crate::patterns::group_views(groups@)[1]);
            assert(!tag_shaped(gv)) by {
                assert(gv[1] is None || gv[2] is None || gv[3] is None || gv[4] is None);
            }
            None
        },
    }
}

/// The timed text of one line: that of its leftmost tag, if it has one.
pub open spec fn entry_of_line(line: Seq<char>) -> Option<Entry> {
    match captures_of(lrc_pattern(), line) {
        Some(groups) => entry_of_groups(groups),
        None => None,
    }
}

/// The timed texts of the lines, in the order of the lines.
pub open spec fn entries_of_lines(lines: Seq<Seq<char>>) -> Seq<Entry>
    decreases lines.len(),
{
    if lines.len() == 0 {
        Seq::empty()
    } else {
        match entry_of_line(lines.last()) {
            Some(e) => entries_of_lines(lines.drop_last()).push(e),
            None => entries_of_lines(lines.drop_last()),
        }
    }
}

/// `sorted` with `e` put behind the last entry that is not later than `e`.
pub open spec fn insert_by_time(sorted: Seq<Entry>, e: Entry) -> Seq<Entry>
    decreases sorted.len(),
{
    if sorted.len() == 0 || sorted.last().0 <= e.0 {
        sorted.push(e)
    } else {
        insert_by_time(sorted.drop_last(), e).push(sorted.last())
    }
}

/// The entries in ascending order of time; entries of equal time keep their
/// order.
pub open spec fn sorted_by_time(entries: Seq<Entry>) -> Seq<Entry>
    decreases entries.len(),
{
    if entries.len() == 0 {
        Seq::empty()
    } else {
        insert_by_time(sorted_by_time(entries.drop_last()), entries.last())
    }
}

/// Whether the entries are in ascending order of time.
pub open spec fn time_ordered(entries: Seq<Entry>) -> bool {
    forall|i: int, j: int| 0 <= i <= j < entries.len() ==> entries[i].0 <= entries[j].0
}

/// Inserting at position `p`, where every entry from `p` on is later than
/// `e` and the one before `p` is not, is what `insert_by_time` does.
pub proof fn lemma_insert_at(sorted: Seq<Entry>, e: Entry, p: int)
    requires
        0 <= p <= sorted.len(),
        forall|k: int| p <= k < sorted.len() ==> sorted[k].0 > e.0,
        p > 0 ==> sorted[p - 1].0 <= e.0,
    ensures
        insert_by_time(sorted, e) == sorted.insert(p, e),
    decreases sorted.len() - p,
{
    if p == sorted.len() {
        assert(sorted.insert(p, e) =~= sorted.push(e));
    } else {
        lemma_insert_at(sorted.drop_last(), e, p);
        assert(sorted.insert(p, e) =~= sorted.drop_last().insert(p, e).push(sorted.last()));
    }
}

/// Inserting keeps the order, the entries and their number.
pub proof fn lemma_insert_by_time(sorted: Seq<Entry>, e: Entry)
    requires
        time_ordered(sorted),
    ensures
        time_ordered(insert_by_time(sorted, e)),
        insert_by_time(sorted, e).len() == sorted.len() + 1,
        insert_by_time(sorted, e).to_multiset() == sorted.to_multiset().insert(e),
    decreases sorted.len(),
{
    broadcast use vstd::seq_lib::group_to_multiset_ensures;

    if sorted.len() == 0 || sorted.last().0 <= e.0 {
    } else {
        let head = sorted.drop_last();
        lemma_insert_by_time(head, e);
        let inner = insert_by_time(head, e);
        let r = inner.push(sorted.last());
        assert(sorted =~= head.push(sorted.last()));
        assert forall|i: int, j: int| 0 <= i <= j < r.len() implies r[i].0 <= r[j].0 by {
            if j == r.len() - 1 && i < j {
                assert(inner.to_multiset().count(inner[i]) > 0);
                if inner[i] != e {
                    assert(head.to_multiset().count(inner[i]) > 0);
                    assert(head.contains(inner[i]));
                    let k = choose|k: int| 0 <= k < head.len() && head[k] == inner[i];
                    assert(sorted[k].0 <= sorted[sorted.len() - 1].0);
                }
            } else if i < j {
                assert(inner[i].0 <= inner[j].0);
            }
        }
        assert(r.to_multiset() =~= sorted.to_multiset().insert(e));
    }
}

/// Sorting gives the same entries in ascending order of time.
pub proof fn lemma_sorted_by_time(entries: Seq<Entry>)
    ensures
        time_ordered(sorted_by_time(entries)),
        sorted_by_time(entries).len() == entries.len(),
        sorted_by_time(entries).to_multiset() == entries.to_multiset(),
    decreases entries.len(),
{
    broadcast use vstd::seq_lib::group_to_multiset_ensures;

    if entries.len() > 0 {
        lemma_sorted_by_time(entries.drop_last());
        lemma_insert_by_time(sorted_by_time(entries.drop_last()), entries.last());
        assert(entries =~= entries.drop_last().push(entries.last()));
    }
}

/// Whether every time is one that a tag can name.
pub open spec fn tag_times(entries: Seq<Entry>) -> bool {
    forall|i: int| 0 <= i < entries.len() ==> (#[trigger] entries[i]).0 <= MAX_TAG_MS
}

/// The entries at time `t`, in their order.
pub open spec fn entries_at(entries: Seq<Entry>, t: u64) -> Seq<Entry>
    decreases entries.len(),
{
    if entries.len() == 0 {
        Seq::empty()
    } else if entries.last().0 == t {
        entries_at(entries.drop_last(), t).push(entries.last())
    } else {
        entries_at(entries.drop_last(), t)
    }
}

/// Inserting an entry puts it behind the entries of its time and leaves
/// the entries of every other time as they are.
pub proof fn lemma_insert_is_stable(sorted: Seq<Entry>, e: Entry, t: u64)
    ensures
        entries_at(insert_by_time(sorted, e), t) == if e.0 == t {
            entries_at(sorted, t).push(e)
        } else {
            entries_at(sorted, t)
        },
    decreases sorted.len(),
{
    if sorted.len() == 0 || sorted.last().0 <= e.0 {
        assert(sorted.push(e).drop_last() =~= sorted);
    } else {
        lemma_insert_is_stable(sorted.drop_last(), e, t);
        let inner = insert_by_time(sorted.drop_last(), e);
        assert(inner.push(sorted.last()).drop_last() =~= inner);
    }
}

/// Sorting is stable: the entries of each time keep their order.
pub proof fn lemma_sort_is_stable(entries: Seq<Entry>, t: u64)
    ensures
        entries_at(sorted_by_time(entries), t) == entries_at(entries, t),
    decreases entries.len(),
{
    if entries.len() > 0 {
        lemma_sort_is_stable(entries.drop_last(), t);
        lemma_insert_is_stable(sorted_by_time(entries.drop_last()), entries.last(), t);
    }
}

/// Puts an entry into a time-ordered list, behind the entries that are not
/// later.
pub fn insert_entry(sorted: &mut Vec<(u64, String)>, time: u64, text: String)
    ensures
        entry_views(final(sorted)@) == insert_by_time(entry_views(old(sorted)@), (time, text@)),
        time <= MAX_TAG_MS && tag_times(entry_views(old(sorted)@)) ==> tag_times(
            entry_views(final(sorted)@),
        ),
{
    let ghost before = entry_views(sorted@);
    let mut p: usize = sorted.len();
    while p > 0 && sorted[p - 1].0 > time
        invariant
            p <= sorted.len(),
            sorted@ == old(sorted)@,
            forall|k: int| p <= k < sorted.len() ==> sorted@[k].0 > time,
        decreases p,
    {
        p -= 1;
    }
    proof {
        assert forall|k: int| p <= k < before.len() implies before[k].0 > time by {
            assert(before[k].0 == sorted@[k].0);
        }
        if p > 0 {
            assert(before[p - 1].0 == sorted@[p - 1].0);
        }
        lemma_insert_at(before, (time, text@), p as int);
    }
    sorted.insert(p, (time, text));
    assert(entry_views(sorted@) =~= before.insert(p as int, (time, text@)));
    proof {
        if time <= MAX_TAG_MS && tag_times(before) {
            let after = entry_views(sorted@);
            assert forall|k: int| 0 <= k < after.len() implies (#[trigger] after[k]).0
                <= MAX_TAG_MS by {
                if k < p {
                    assert(after[k] == before[k]);
                } else if k > p {
                    assert(after[k] == before[k - 1]);
                }
            }
        }
    }
}

/// The end of the line at `i`: the start of the next line, or for the last
/// line `LAST_LINE_MS` after its start; and never less than `MIN_LINE_MS`
/// after its start.
pub open spec fn line_end_ms(entries: Seq<Entry>, i: int) -> int {
    let next = if i + 1 < entries.len() {
        entries[i + 1].0 as int
    } else {
        entries[i].0 + LAST_LINE_MS
    };
    if next >= entries[i].0 + MIN_LINE_MS {
        next
    } else {
        entries[i].0 + MIN_LINE_MS
    }
}

/// The timeline of timed texts: one line for each, from its time to its
/// end.
pub open spec fn timeline_of(entries: Seq<Entry>) -> Seq<BlockModel> {
    Seq::new(
        entries.len(),
        |i: int|
            BlockModel {
                start: entries[i].0,
                end: line_end_ms(entries, i) as u64,
                text: entries[i].1,
            },
    )
}

/// Whether every line lasts at least `MIN_LINE_MS`.
pub open spec fn lines_long_enough(blocks: Seq<BlockModel>) -> bool {
    forall|i: int| 0 <= i < blocks.len() ==> (#[trigger] blocks[i]).end >= blocks[i].start
        + MIN_LINE_MS
}

/// Whether the lines are in ascending order of their starts.
pub open spec fn starts_ordered(blocks: Seq<BlockModel>) -> bool {
    forall|i: int, j: int|
        0 <= i <= j < blocks.len() ==> (#[trigger] blocks[i]).start <= (#[trigger] blocks[j]).start
}

/// Whether each line ends where the next one starts, or `MIN_LINE_MS` after
/// its own start where that is later; and the last one `LAST_LINE_MS` after
/// its start.
pub open spec fn ends_chained(blocks: Seq<BlockModel>) -> bool {
    forall|i: int|
        0 <= i < blocks.len() ==> (#[trigger] blocks[i]).end == if i + 1 < blocks.len() {
            if blocks[i + 1].start >= blocks[i].start + MIN_LINE_MS {
                blocks[i + 1].start as int
            } else {
                blocks[i].start + MIN_LINE_MS
            }
        } else {
            blocks[i].start + LAST_LINE_MS
        }
}

/// The timeline of time-ordered entries is ordered by start, its ends are
/// chained, and every line lasts at least `MIN_LINE_MS`.
pub proof fn lemma_timeline_shape(entries: Seq<Entry>)
    requires
        time_ordered(entries),
        forall|i: int| 0 <= i < entries.len() ==> entries[i].0 + LAST_LINE_MS <= u64::MAX,
    ensures
        timeline_of(entries).len() == entries.len(),
        starts_ordered(timeline_of(entries)),
        ends_chained(timeline_of(entries)),
        lines_long_enough(timeline_of(entries)),
{
    let t = timeline_of(entries);
    assert forall|i: int| 0 <= i < t.len() implies (#[trigger] t[i]).end >= t[i].start
        + MIN_LINE_MS && t[i].end == if i + 1 < t.len() {
        if t[i + 1].start >= t[i].start + MIN_LINE_MS {
            t[i + 1].start as int
        } else {
            t[i].start + MIN_LINE_MS
        }
    } else {
        t[i].start + LAST_LINE_MS
    } by {
        assert(entries[i].0 + LAST_LINE_MS <= u64::MAX);
        if i + 1 < entries.len() {
            assert(entries[i + 1].0 + LAST_LINE_MS <= u64::MAX);
        }
    }
}

/// The timeline of timed texts.
pub fn build_blocks(entries: Vec<(u64, String)>) -> (r: Vec<LyricsBlock>)
    requires
        forall|i: int| 0 <= i < entries.len() ==> (#[trigger] entries@[i]).0 + LAST_LINE_MS
            <= u64::MAX,
    ensures
        block_models(r@) == timeline_of(entry_views(entries@)),
        lines_long_enough(block_models(r@)),
{
    let ghost ev = entry_views(entries@);
    let mut starts: Vec<u64> = Vec::new();
    let mut k: usize = 0;
    while k < entries.len()
        invariant
            k <= entries.len(),
            starts.len() == k,
            forall|j: int| 0 <= j < k ==> starts@[j] == entries@[j].0,
        decreases entries.len() - k,
    {
        starts.push(entries[k].0);
        k += 1;
    }
    let n = entries.len();
    let mut blocks: Vec<LyricsBlock> = Vec::new();
    let mut i: usize = 0;
    for entry in iter: entries
        invariant
            i == iter.index(),
            iter.seq() == entries@,
            n == entries@.len(),
            starts.len() == n,
            ev == entry_views(entries@),
            forall|j: int| 0 <= j < n ==> starts@[j] == entries@[j].0,
            forall|j: int| 0 <= j < n ==> (#[trigger] entries@[j]).0 + LAST_LINE_MS <= u64::MAX,
            blocks.len() == i,
            forall|j: int| 0 <= j < i ==> (#[trigger] blocks@[j])@ == timeline_of(ev)[j],
    {
        let (start, text) = entry;
        assert(entries@[i as int].0 == start);
        assert(ev[i as int] == (start, text@));
        let next = if i + 1 < n {
            starts[i + 1]
        } else {
            start + LAST_LINE_MS
        };
        let end = if next >= start + MIN_LINE_MS {
            next
        } else {
            start + MIN_LINE_MS
        };
        blocks.push(LyricsBlock { start, end, text });
        i += 1;
    }
    proof {
        assert(block_models(blocks@) =~= timeline_of(ev));
        assert forall|j: int| 0 <= j < ev.len() implies (#[trigger] timeline_of(ev)[j]).end
            >= timeline_of(ev)[j].start + MIN_LINE_MS by {
            assert(entries@[j].0 + LAST_LINE_MS <= u64::MAX);
            if j + 1 < ev.len() {
                assert(entries@[j + 1].0 + LAST_LINE_MS <= u64::MAX);
            }
        }
    }
    blocks
}

/// The timeline that a time-coded text stands for: the timed texts of its
/// lines, sorted by time, each lasting until the next.
pub open spec fn lrc_timeline(content: Seq<char>) -> Seq<BlockModel> {
    timeline_of(sorted_by_time(entries_of_lines(lines_of(content))))
}

/// The time of the timed text of a line is one that a tag can name.
pub proof fn lemma_entry_tag_time(line: Seq<char>)
    ensures
        match entry_of_line(line) {
            Some(e) => e.0 <= MAX_TAG_MS,
            None => true,
        },
{
    if let Some(groups) = captures_of(lrc_pattern(), line) {
        if tag_shaped(groups) {
            lemma_number_small(groups[1]->0);
            lemma_number_small(groups[2]->0);
            lemma_number_small(groups[3]->0);
        }
    }
}

/// The times of the timed texts of lines are times that a tag can name.
pub proof fn lemma_entries_tag_times(lines: Seq<Seq<char>>)
    ensures
        tag_times(entries_of_lines(lines)),
    decreases lines.len(),
{
    if lines.len() > 0 {
        lemma_entries_tag_times(lines.drop_last());
        lemma_entry_tag_time(lines.last());
    }
}

/// Inserting an entry whose time a tag can name among such entries gives
/// such entries.
pub proof fn lemma_insert_tag_times(sorted: Seq<Entry>, e: Entry)
    requires
        tag_times(sorted),
        e.0 <= MAX_TAG_MS,
    ensures
        tag_times(insert_by_time(sorted, e)),
    decreases sorted.len(),
{
    if sorted.len() == 0 || sorted.last().0 <= e.0 {
    } else {
        let head = sorted.drop_last();
        assert(tag_times(head)) by {
            assert forall|i: int| 0 <= i < head.len() implies (#[trigger] head[i]).0
                <= MAX_TAG_MS by {
                assert(head[i] == sorted[i]);
            }
        }
        lemma_insert_tag_times(head, e);
        lemma_insert_by_time_len(head, e);
        let inner = insert_by_time(head, e);
        let r = inner.push(sorted.last());
        assert forall|i: int| 0 <= i < r.len() implies (#[trigger] r[i]).0 <= MAX_TAG_MS by {
            if i < inner.len() {
                assert(r[i] == inner[i]);
            } else {
                assert(r[i] == sorted[sorted.len() - 1]);
            }
        }
    }
}

/// Inserting adds one entry.
pub proof fn lemma_insert_by_time_len(sorted: Seq<Entry>, e: Entry)
    ensures
        insert_by_time(sorted, e).len() == sorted.len() + 1,
    decreases sorted.len(),
{
    if sorted.len() == 0 || sorted.last().0 <= e.0 {
    } else {
        lemma_insert_by_time_len(sorted.drop_last(), e);
    }
}

/// Sorting entries whose times a tag can name gives such entries.
pub proof fn lemma_sorted_tag_times(entries: Seq<Entry>)
    requires
        tag_times(entries),
    ensures
        tag_times(sorted_by_time(entries)),
    decreases entries.len(),
{
    if entries.len() > 0 {
        let head = entries.drop_last();
        assert(tag_times(head)) by {
            assert forall|i: int| 0 <= i < head.len() implies (#[trigger] head[i]).0
                <= MAX_TAG_MS by {
                assert(head[i] == entries[i]);
            }
        }
        lemma_sorted_tag_times(head);
        assert(entries[entries.len() - 1].0 <= MAX_TAG_MS);
        lemma_insert_tag_times(sorted_by_time(head), entries.last());
    }
}

/// The timeline of any time-coded text is in order of its starts, its ends
/// are chained, and every line lasts at least `MIN_LINE_MS`, however close
/// two time tags lie.
pub proof fn lemma_lrc_timeline_shape(content: Seq<char>)
    ensures
        starts_ordered(lrc_timeline(content)),
        ends_chained(lrc_timeline(content)),
        lines_long_enough(lrc_timeline(content)),
{
    let entries = entries_of_lines(lines_of(content));
    lemma_entries_tag_times(lines_of(content));
    lemma_sorted_tag_times(entries);
    lemma_sorted_by_time(entries);
    let sorted = sorted_by_time(entries);
    assert forall|i: int| 0 <= i < sorted.len() implies sorted[i].0 + LAST_LINE_MS
        <= u64::MAX by {
        assert(sorted[i].0 <= MAX_TAG_MS);
    }
    lemma_timeline_shape(sorted);
}

/// Parses time-coded text into a timeline.
///
/// The result is an error exactly where the tag pattern is rejected and
/// there is a line to search with it.
pub fn parse_lrc(lrc_content: &str) -> (r: Result<Vec<LyricsBlock>, AppError>)
    ensures
        r is Err <==> !pattern_valid(lrc_pattern()) && lines_of(lrc_content@).len() > 0,
        r is Ok ==> block_models(r->Ok_0@) == lrc_timeline(lrc_content@),
        r is Ok ==> lines_long_enough(block_models(r->Ok_0@)) && starts_ordered(
            block_models(r->Ok_0@),
        ) && ends_chained(block_models(r->Ok_0@)),
        r is Err ==> r->Err_0@ is Config && starts_with(r->Err_0@->Config_0, "Regex error: "@),
{
    let all = lines(lrc_content);
    let ghost lv = text_views(all@);
    let mut sorted: Vec<(u64, String)> = Vec::new();
    let mut i: usize = 0;
    proof {
        assert(lv.subrange(0, 0) =~= Seq::<Seq<char>>::empty());
        assert(entry_views(sorted@) =~= Seq::<Entry>::empty());
    }
    while i < all.len()
        invariant
            i <= all.len(),
            lv == text_views(all@),
            lv == lines_of(lrc_content@),
            entry_views(sorted@) == sorted_by_time(entries_of_lines(lv.subrange(0, i as int))),
            tag_times(entry_views(sorted@)),
            i > 0 ==> pattern_valid(lrc_pattern()),
        decreases all.len() - i,
    {
        let ghost prefix = lv.subrange(0, i as int);
        let ghost next = lv.subrange(0, i + 1);
        proof {
            assert(next.drop_last() =~= prefix);
            assert(next.last() == all@[i as int]@);
        }
        match find_captures("\\[(\\d{2}):(\\d{2})\\.(\\d{2,3})\\](.*)", all[i].as_str()) {
            Ok(Some(groups)) => {
                assert(entry_of_line(next.last()) == entry_of_groups(group_views(groups@)));
                match entry_from_captures(&groups) {
                    Some((time, text)) => {
                        proof {
                            let grown = entries_of_lines(prefix).push((time, text@));
                            assert(entries_of_lines(next) == grown);
                            assert(grown.drop_last() =~= entries_of_lines(prefix));
                        }
                        insert_entry(&mut sorted, time, text);
                    },
                    None => {
                        assert(entries_of_lines(next) == entries_of_lines(prefix));
                    },
                }
            },
            Ok(None) => {
                assert(entry_of_line(next.last()) is None);
                assert(entries_of_lines(next) == entries_of_lines(prefix));
            },
            Err(e) => {
                let detail = crate::patterns::error_message(&e);
                let message = String::from_str("Regex error: ").concat(detail.as_str());
                assert(message@.subrange(0, "Regex error: "@.len() as int) =~= "Regex error: "@);
                assert(lv.len() > 0);
                return Err(AppError::Config(message));
            },
        }
        i += 1;
    }
    proof {
        assert(lv.subrange(0, lv.len() as int) =~= lv);
        let entries = entries_of_lines(lv);
        lemma_sorted_by_time(entries);
        let ev = entry_views(sorted@);
        assert forall|k: int| 0 <= k < ev.len() implies ev[k].0 + LAST_LINE_MS <= u64::MAX by {
            assert(ev[k].0 <= MAX_TAG_MS);
        }
        assert forall|k: int| 0 <= k < sorted.len() implies (#[trigger] sorted@[k]).0
            + LAST_LINE_MS <= u64::MAX by {
            assert(ev[k].0 <= MAX_TAG_MS);
        }
        lemma_timeline_shape(ev);
    }
    Ok(build_blocks(sorted))
}

/// The lines of plain text that count as lyrics: each line trimmed, without
/// those that are then empty or metadata; in order.
pub open spec fn plain_lines(lines: Seq<Seq<char>>) -> Seq<Seq<char>>
    decreases lines.len(),
{
    if lines.len() == 0 {
        Seq::empty()
    } else {
        let text = trimmed(lines.last());
        if text.len() > 0 && !is_metadata(text) {
            plain_lines(lines.drop_last()).push(text)
        } else {
            plain_lines(lines.drop_last())
        }
    }
}

/// The timeline of plain text: its lyric lines, `PLAIN_LINE_MS` each, one
/// after the other without a gap.
pub open spec fn plain_timeline(content: Seq<char>) -> Seq<BlockModel> {
    let texts = plain_lines(lines_of(content));
    Seq::new(
        texts.len(),
        |i: int|
            BlockModel {
                start: (i * PLAIN_LINE_MS) as u64,
                end: (i * PLAIN_LINE_MS + PLAIN_LINE_MS) as u64,
                text: texts[i],
            },
    )
}

/// Turns plain text into a timeline with a fixed duration for each line.
///
/// `None` where the text has so many lines that a time would not fit 64
/// bits.
pub fn plain_lyrics_to_blocks(plain_lyrics: &str) -> (r: Option<Vec<LyricsBlock>>)
    ensures
        r is Some <==> plain_lines(lines_of(plain_lyrics@)).len() * PLAIN_LINE_MS <= u64::MAX,
        r is Some ==> block_models(r->0@) == plain_timeline(plain_lyrics@),
{
    let all = lines(plain_lyrics);
    let ghost lv = text_views(all@);
    let mut blocks: Vec<LyricsBlock> = Vec::new();
    let mut i: usize = 0;
    proof {
        assert(lv.subrange(0, 0) =~= Seq::<Seq<char>>::empty());
    }
    while i < all.len()
        invariant
            i <= all.len(),
            lv == text_views(all@),
            lv == lines_of(plain_lyrics@),
            blocks.len() == plain_lines(lv.subrange(0, i as int)).len(),
            blocks.len() * PLAIN_LINE_MS <= u64::MAX,
            forall|k: int|
                0 <= k < blocks.len() ==> (#[trigger] blocks@[k])@ == (BlockModel {
                    start: (k * PLAIN_LINE_MS) as u64,
                    end: (k * PLAIN_LINE_MS + PLAIN_LINE_MS) as u64,
                    text: plain_lines(lv.subrange(0, i as int))[k],
                }),
        decreases all.len() - i,
    {
        let ghost prefix = lv.subrange(0, i as int);
        let ghost next = lv.subrange(0, i + 1);
        proof {
            assert(next.drop_last() =~= prefix);
            assert(next.last() == all@[i as int]@);
        }
        let text = trim(all[i].as_str());
        if text.as_str().unicode_len() > 0 && !is_metadata_line(text.as_str()) {
            let count = blocks.len() as u64;
            if count >= u64::MAX / PLAIN_LINE_MS {
                proof {
                    lemma_plain_lines_grow(lv, i + 1);
                    assert(plain_lines(next).len() == count + 1);
                    assert((count + 1) * PLAIN_LINE_MS > u64::MAX);
                }
                return None;
            }
            let start = count * PLAIN_LINE_MS;
            blocks.push(LyricsBlock { start, end: start + PLAIN_LINE_MS, text });
        }
        i += 1;
    }
    proof {
        assert(lv.subrange(0, lv.len() as int) =~= lv);
        assert(block_models(blocks@) =~= plain_timeline(plain_lyrics@));
    }
    Some(blocks)
}

/// The lyric lines of a prefix of the lines are a prefix of all lyric
/// lines.
pub proof fn lemma_plain_lines_grow(lines: Seq<Seq<char>>, k: int)
    requires
        0 <= k <= lines.len(),
    ensures
        plain_lines(lines.subrange(0, k)).len() <= plain_lines(lines).len(),
    decreases lines.len() - k,
{
    if k == lines.len() {
        assert(lines.subrange(0, k) =~= lines);
    } else {
        lemma_plain_lines_grow(lines.drop_last(), k);
        assert(lines.drop_last().subrange(0, k) =~= lines.subrange(0, k));
    }
}

/// A text with every match of `pattern` taken out, or the text itself where
/// the pattern is rejected.
pub open spec fn without_matches(pattern: Seq<char>, text: Seq<char>) -> Seq<char> {
    if pattern_valid(pattern) {
        replaced_all(pattern, text, Seq::empty())
    } else {
        text
    }
}

/// A search term made plain: in lowercase, without text in parentheses or
/// brackets, without what follows `- remaster`, `- remix`, `feat.` or
/// `ft.`, and trimmed.
pub open spec fn clean_term(term: Seq<char>) -> Seq<char> {
    let t0 = lowercase(term);
    let t1 = without_matches("\\s*\\([^)]*\\)"@, t0);
    let t2 = without_matches("\\s*\\[[^\\]]*\\]"@, t1);
    let t3 = without_matches("\\s*-\\s*remaster.*"@, t2);
    let t4 = without_matches("\\s*-\\s*remix.*"@, t3);
    let t5 = without_matches("\\s*feat\\..*"@, t4);
    let t6 = without_matches("\\s*ft\\..*"@, t5);
    trimmed(t6)
}

/// The text with every match of `pattern` taken out.
fn strip_matches(pattern: &str, text: String) -> (r: String)
    ensures
        r@ == without_matches(pattern@, text@),
{
    let empty = String::new();
    match replace_matches(pattern, text.as_str(), empty.as_str()) {
        Ok(stripped) => stripped,
        Err(_) => text,
    }
}

/// Makes a search term plain.
pub fn clean_search_term(term: &str) -> (r: String)
    ensures
        r@ == clean_term(term@),
{
    let t0 = term.to_lowercase();
    let t1 = strip_matches("\\s*\\([^)]*\\)", t0);
    let t2 = strip_matches("\\s*\\[[^\\]]*\\]", t1);
    let t3 = strip_matches("\\s*-\\s*remaster.*", t2);
    let t4 = strip_matches("\\s*-\\s*remix.*", t3);
    let t5 = strip_matches("\\s*feat\\..*", t4);
    let t6 = strip_matches("\\s*ft\\..*", t5);
    trim(t6.as_str())
}

/// Whether a title, in lowercase, holds a word that marks a track without
/// vocals.
pub open spec fn names_instrumental(title: Seq<char>) -> bool {
    let lower = lowercase(title);
    ||| contains_text(lower, "instrumental"@)
    ||| contains_text(lower, "inst."@)
    ||| contains_text(lower, "karaoke"@)
    ||| contains_text(lower, "backing track"@)
    ||| contains_text(lower, "without vocals"@)
    ||| contains_text(lower, "no vocals"@)
    ||| contains_text(lower, "music only"@)
    ||| contains_text(lower, "interlude"@)
    ||| contains_text(lower, "intro"@)
    ||| contains_text(lower, "outro"@)
    ||| contains_text(lower, "theme"@)
    ||| contains_text(lower, "ost"@)
    ||| contains_text(lower, "suite"@)
}

/// Whether a title suggests a track without vocals.
pub fn is_likely_instrumental(title: &str) -> (r: bool)
    ensures
        r == names_instrumental(title@),
{
    let lowered = title.to_lowercase();
    let lower = chars_of(lowered.as_str());
    has_infix(&lower, "instrumental") || has_infix(&lower, "inst.") || has_infix(&lower, "karaoke")
        || has_infix(&lower, "backing track") || has_infix(&lower, "without vocals") || has_infix(
        &lower,
        "no vocals",
    ) || has_infix(&lower, "music only") || has_infix(&lower, "interlude") || has_infix(
        &lower,
        "intro",
    ) || has_infix(&lower, "outro") || has_infix(&lower, "theme") || has_infix(&lower, "ost")
        || has_infix(&lower, "suite")
}

/// One candidate that the lyrics index returns for a query.
#[derive(Debug, PartialEq, Eq)]
pub struct LrclibSearchResult {
    pub id: u64,
    pub name: String,
    pub track_name: String,
    pub artist_name: String,
    pub album_name: String,
    pub instrumental: bool,
    pub synced_lyrics: Option<String>,
    pub plain_lyrics: Option<String>,
}

/// Model of a [`LrclibSearchResult`].
pub struct Candidate {
    pub id: u64,
    pub name: Seq<char>,
    pub track_name: Seq<char>,
    pub artist_name: Seq<char>,
    pub album_name: Seq<char>,
    pub instrumental: bool,
    pub synced_lyrics: Option<Seq<char>>,
    pub plain_lyrics: Option<Seq<char>>,
}

impl View for LrclibSearchResult {
    type V = Candidate;

    open spec fn view(&self) -> Candidate {
        Candidate {
            id: self.id,
            name: self.name@,
            track_name: self.track_name@,
            artist_name: self.artist_name@,
            album_name: self.album_name@,
            instrumental: self.instrumental,
            synced_lyrics: opt_text(self.synced_lyrics),
            plain_lyrics: opt_text(self.plain_lyrics),
        }
    }
}

/// Models of a list of candidates, in order.
pub open spec fn candidates(results: Seq<LrclibSearchResult>) -> Seq<Candidate> {
    Seq::new(results.len(), |i: int| results[i]@)
}

/// A timeline without lines, for a track without vocals.
pub open spec fn instrumental_lyrics(source: Seq<char>, confidence: u32, now: i64) -> LyricsModel {
    LyricsModel {
        blocks: Seq::empty(),
        source: source,
        quality: LyricsQuality::Instrumental,
        confidence: confidence,
        cached_at: now,
    }
}

/// Whether a candidate carries usable time-coded text: text that is not
/// blank and holds at least one timed line.
pub open spec fn has_synced(c: Candidate) -> bool {
    c.synced_lyrics is Some && trimmed(c.synced_lyrics->0).len() > 0 && lrc_timeline(
        c.synced_lyrics->0,
    ).len() > 0
}

/// Whether a candidate carries usable plain text: text that is not blank
/// and whose lines can all be timed.
pub open spec fn has_plain(c: Candidate) -> bool {
    c.plain_lyrics is Some && trimmed(c.plain_lyrics->0).len() > 0 && plain_lines(
        lines_of(c.plain_lyrics->0),
    ).len() * PLAIN_LINE_MS <= u64::MAX
}

/// The timeline that a candidate gives at time `now`, where the tag pattern
/// is valid: empty for an instrumental; else from its time-coded text; else
/// from its plain text; else none.
pub open spec fn lyrics_of_candidate(c: Candidate, now: i64) -> Option<LyricsModel> {
    if c.instrumental {
        Some(instrumental_lyrics("lrclib"@, 100, now))
    } else if has_synced(c) {
        Some(
            LyricsModel {
                blocks: lrc_timeline(c.synced_lyrics->0),
                source: "lrclib"@,
                quality: LyricsQuality::High,
                confidence: 95,
                cached_at: now,
            },
        )
    } else if has_plain(c) {
        Some(
            LyricsModel {
                blocks: plain_timeline(c.plain_lyrics->0),
                source: "lrclib"@,
                quality: LyricsQuality::Low,
                confidence: 70,
                cached_at: now,
            },
        )
    } else {
        None
    }
}

/// Whether converting a candidate searches a line with the tag pattern:
/// it is no instrumental and its time-coded text is not blank.
pub open spec fn searches_tags(c: Candidate) -> bool {
    !c.instrumental && c.synced_lyrics is Some && trimmed(c.synced_lyrics->0).len() > 0
        && lines_of(c.synced_lyrics->0).len() > 0
}

/// Whether a text is blank: empty once trimmed.
fn is_blank(text: &str) -> (r: bool)
    ensures
        r == (trimmed(text@).len() == 0),
{
    let chars = chars_of(text);
    let (from, to) = trim_bounds(&chars);
    from == to
}

/// The timeline that a candidate gives, resolved at time `now`.
///
/// An error comes exactly where the tag pattern is rejected and a line is
/// searched with it.
pub fn convert_result_to_lyrics_data(result: &LrclibSearchResult, now: i64) -> (r: Result<
    Option<LyricsData>,
    AppError,
>)
    ensures
        r is Err <==> !pattern_valid(lrc_pattern()) && searches_tags(result@),
        r is Ok ==> lyrics_model(r->Ok_0) == lyrics_of_candidate(result@, now),
        r is Err ==> r->Err_0@ is Config,
{
    if result.instrumental {
        let lyrics = LyricsData {
            blocks: Vec::new(),
            source: String::from_str("lrclib"),
            quality: LyricsQuality::Instrumental,
            confidence: 100,
            cached_at: now,
        };
        assert(lyrics@.blocks =~= Seq::<BlockModel>::empty());
        return Ok(Some(lyrics));
    }
    if let Some(synced) = &result.synced_lyrics {
        if !is_blank(synced.as_str()) {
            match parse_lrc(synced.as_str()) {
                Ok(blocks) => {
                    if blocks.len() > 0 {
                        return Ok(
                            Some(
                                LyricsData {
                                    blocks,
                                    source: String::from_str("lrclib"),
                                    quality: LyricsQuality::High,
                                    confidence: 95,
                                    cached_at: now,
                                },
                            ),
                        );
                    }
                },
                Err(e) => {
                    return Err(e);
                },
            }
        }
    }
    if let Some(plain) = &result.plain_lyrics {
        if !is_blank(plain.as_str()) {
            if let Some(blocks) = plain_lyrics_to_blocks(plain.as_str()) {
                return Ok(
                    Some(
                        LyricsData {
                            blocks,
                            source: String::from_str("lrclib"),
                            quality: LyricsQuality::Low,
                            confidence: 70,
                            cached_at: now,
                        },
                    ),
                );
            }
        }
    }
    Ok(None)
}

/// Whether the candidate at `i` can be chosen for a search: it is no
/// instrumental and its score can be computed.
pub open spec fn eligible(
    results: Seq<Candidate>,
    i: int,
    artist: Seq<char>,
    title: Seq<char>,
) -> bool {
    0 <= i < results.len() && !results[i].instrumental && match_score(
        results[i].artist_name,
        results[i].track_name,
        artist,
        title,
    ) is Some
}

/// The score of the candidate at `i` for a search.
pub open spec fn score_at(results: Seq<Candidate>, i: int, artist: Seq<char>, title: Seq<char>) -> MatchScore {
    match_score(results[i].artist_name, results[i].track_name, artist, title)->0
}

/// Whether the candidate at `i` is the best match: eligible, with a score
/// that no eligible candidate exceeds and no later one reaches.
pub open spec fn is_best_match(
    results: Seq<Candidate>,
    i: int,
    artist: Seq<char>,
    title: Seq<char>,
) -> bool {
    &&& eligible(results, i, artist, title)
    &&& forall|j: int| #[trigger]
        eligible(results, j, artist, title) ==> score_at(results, i, artist, title).spec_at_least(
            &score_at(results, j, artist, title),
        )
    &&& forall|j: int|
        i < j && #[trigger] eligible(results, j, artist, title) ==> !score_at(
            results,
            j,
            artist,
            title,
        ).spec_at_least(&score_at(results, i, artist, title))
}

/// There is at most one best match.
pub proof fn lemma_best_match_unique(
    results: Seq<Candidate>,
    i: int,
    j: int,
    artist: Seq<char>,
    title: Seq<char>,
)
    requires
        is_best_match(results, i, artist, title),
        is_best_match(results, j, artist, title),
    ensures
        i == j,
{
    if i < j {
        assert(eligible(results, j, artist, title));
        assert(eligible(results, i, artist, title));
    }
    if j < i {
        assert(eligible(results, i, artist, title));
        assert(eligible(results, j, artist, title));
    }
}

/// The position of the best match among the candidates: the one that
/// maximises 0.7 of the title similarity plus 0.3 of the artist similarity,
/// the last of them where several do. `None` where no candidate is
/// eligible.
pub fn best_match(results: &Vec<LrclibSearchResult>, artist: &str, title: &str) -> (r: Option<
    usize,
>)
    ensures
        match r {
            Some(i) => is_best_match(candidates(results@), i as int, artist@, title@),
            None => forall|j: int| !eligible(candidates(results@), j, artist@, title@),
        },
{
    let ghost cs = candidates(results@);
    let mut best: Option<(usize, MatchScore)> = None;
    let mut k: usize = 0;
    while k < results.len()
        invariant
            k <= results.len(),
            cs == candidates(results@),
            match best {
                Some((b, score)) => {
                    &&& b < k
                    &&& eligible(cs, b as int, artist@, title@)
                    &&& score == score_at(cs, b as int, artist@, title@)
                    &&& score.wf()
                    &&& forall|j: int|
                        j < k && #[trigger] eligible(cs, j, artist@, title@) ==> score.spec_at_least(
                            &score_at(cs, j, artist@, title@),
                        )
                    &&& forall|j: int|
                        b < j < k && #[trigger] eligible(cs, j, artist@, title@) ==> !score_at(
                            cs,
                            j,
                            artist@,
                            title@,
                        ).spec_at_least(&score)
                },
                None => forall|j: int| j < k ==> !#[trigger] eligible(cs, j, artist@, title@),
            },
        decreases results.len() - k,
    {
        let candidate = &results[k];
        assert(cs[k as int] == candidate@);
        if !candidate.instrumental {
            match calculate_similarity_score(
                candidate.artist_name.as_str(),
                candidate.track_name.as_str(),
                artist,
                title,
            ) {
                Some(score) => {
                    assert(eligible(cs, k as int, artist@, title@));
                    let wins = match best {
                        Some((_, held)) => score.at_least(&held),
                        None => true,
                    };
                    if wins {
                        proof {
                            if let Some((b, held)) = best {
                                assert forall|j: int|
                                    j < k + 1 && #[trigger] eligible(
                                        cs,
                                        j,
                                        artist@,
                                        title@,
                                    ) implies score.spec_at_least(
                                    &score_at(cs, j, artist@, title@),
                                ) by {
                                    if j < k {
                                        crate::similarity::lemma_at_least_transitive(
                                            score,
                                            held,
                                            score_at(cs, j, artist@, title@),
                                        );
                                    }
                                }
                            }
                        }
                        best = Some((k, score));
                    }
                },
                None => {
                    assert(!eligible(cs, k as int, artist@, title@));
                },
            }
        } else {
            assert(!eligible(cs, k as int, artist@, title@));
        }
        k += 1;
    }
    match best {
        Some((b, _)) => Some(b),
        None => None,
    }
}

/// The client of the lyrics index: it builds the queries and judges the
/// replies; sending a query is left to the caller.
#[derive(Debug)]
pub struct LyricsClient {
    base_url: String,
}

/// What came back for a query.
pub enum SearchReply {
    /// The candidates of a successful reply, in the order of their rank.
    Results(Vec<LrclibSearchResult>),
    /// The query failed: it could not be sent, was answered with a status
    /// other than success, or its body could not be read.
    Failed,
}

/// The queries of a search, in the order in which they are sent.
#[derive(Debug, Clone, Copy, PartialEq, Eq, Structural)]
pub enum SearchStage {
    /// The query for the literal artist and title.
    Exact,
    /// The free-text query for the artist and title made plain.
    Fuzzy,
}

/// What a search does next.
pub enum SearchAction {
    /// Send the query of this stage to this URL and hand the reply back
    /// with the stage.
    Query { stage: SearchStage, url: String },
    /// The search has ended with a timeline.
    Found(LyricsData),
    /// The search has ended without one.
    NotFound,
}

/// Model of a [`SearchAction`].
pub enum SearchActionModel {
    Query { stage: SearchStage, url: Seq<char> },
    Found(LyricsModel),
    NotFound,
}

impl View for SearchAction {
    type V = SearchActionModel;

    open spec fn view(&self) -> SearchActionModel {
        match self {
            SearchAction::Query { stage, url } => SearchActionModel::Query {
                stage: *stage,
                url: url@,
            },
            SearchAction::Found(l) => SearchActionModel::Found(l@),
            SearchAction::NotFound => SearchActionModel::NotFound,
        }
    }
}

/// How a search has ended: with its timeline, or with the error that says
/// that there is none. `None` while a query is still to be sent.
pub open spec fn search_result(action: SearchActionModel) -> Option<
    Result<LyricsModel, crate::types::ErrorModel>,
> {
    match action {
        SearchActionModel::Query { .. } => None,
        SearchActionModel::Found(l) => Some(Ok(l)),
        SearchActionModel::NotFound => Some(Err(crate::types::ErrorModel::LyricsNotFound)),
    }
}

impl SearchAction {
    /// How the search has ended, if it has.
    pub fn outcome(self) -> (r: Option<Result<LyricsData, AppError>>)
        ensures
            match r {
                Some(Ok(l)) => search_result(self@) == Some(
                    Ok::<LyricsModel, crate::types::ErrorModel>(l@),
                ),
                Some(Err(e)) => search_result(self@) == Some(
                    Err::<LyricsModel, crate::types::ErrorModel>(e@),
                ),
                None => search_result(self@) is None,
            },
    {
        match self {
            SearchAction::Query { .. } => None,
            SearchAction::Found(l) => Some(Ok(l)),
            SearchAction::NotFound => Some(Err(AppError::LyricsNotFound)),
        }
    }
}

/// The URL of the exact query for an artist and a title.
pub open spec fn exact_url(base: Seq<char>, artist: Seq<char>, title: Seq<char>) -> Seq<char> {
    base + "/search?artist_name="@ + percent_encoded(encode_utf8(artist)) + "&track_name="@
        + percent_encoded(encode_utf8(title))
}

/// The URL of the free-text query for an artist and a title, both made
/// plain.
pub open spec fn fuzzy_url(base: Seq<char>, artist: Seq<char>, title: Seq<char>) -> Seq<char> {
    base + "/search?q="@ + percent_encoded(encode_utf8(clean_term(artist))) + " "@
        + percent_encoded(encode_utf8(clean_term(title)))
}

/// The timeline that a search takes from a candidate: the one that the
/// candidate gives, and none where the tag pattern is rejected and a line
/// would be searched with it.
pub open spec fn usable_lyrics(c: Candidate, now: i64) -> Option<LyricsModel> {
    if !pattern_valid(lrc_pattern()) && searches_tags(c) {
        None
    } else {
        lyrics_of_candidate(c, now)
    }
}

/// What the reply to the exact query gives: the timeline of the first
/// candidate.
pub open spec fn exact_outcome(results: Option<Seq<Candidate>>, now: i64) -> Option<LyricsModel> {
    match results {
        Some(cs) => if cs.len() > 0 {
            usable_lyrics(cs[0], now)
        } else {
            None
        },
        None => None,
    }
}

/// Model of a reply: its candidates, or `None` for a failed query.
pub open spec fn reply_candidates(reply: SearchReply) -> Option<Seq<Candidate>> {
    match reply {
        SearchReply::Results(v) => Some(candidates(v@)),
        SearchReply::Failed => None,
    }
}

/// What ends a search whose queries gave nothing, at time `now`: an empty
/// timeline where the title names an instrumental, else nothing.
pub open spec fn fallback_outcome(title: Seq<char>, now: i64) -> SearchActionModel {
    if names_instrumental(title) {
        SearchActionModel::Found(instrumental_lyrics("detected"@, 90, now))
    } else {
        SearchActionModel::NotFound
    }
}

/// What follows the reply to the exact query: the timeline of the first
/// candidate ends the search; anything else leads to the free-text query.
pub open spec fn exact_step(
    base: Seq<char>,
    artist: Seq<char>,
    title: Seq<char>,
    results: Option<Seq<Candidate>>,
    now: i64,
) -> SearchActionModel {
    match exact_outcome(results, now) {
        Some(l) => SearchActionModel::Found(l),
        None => SearchActionModel::Query {
            stage: SearchStage::Fuzzy,
            url: fuzzy_url(base, artist, title),
        },
    }
}

/// The position of the best match among the candidates, where one is
/// eligible.
pub open spec fn best_index(results: Seq<Candidate>, artist: Seq<char>, title: Seq<char>) -> int {
    choose|i: int| is_best_match(results, i, artist, title)
}

/// What follows the reply to the free-text query: the timeline of the best
/// match ends the search; without one, the title decides.
pub open spec fn fuzzy_step(
    artist: Seq<char>,
    title: Seq<char>,
    results: Option<Seq<Candidate>>,
    now: i64,
) -> SearchActionModel {
    match results {
        Some(cs) => if exists|i: int| eligible(cs, i, artist, title) {
            match usable_lyrics(cs[best_index(cs, artist, title)], now) {
                Some(l) => SearchActionModel::Found(l),
                None => fallback_outcome(title, now),
            }
        } else {
            fallback_outcome(title, now)
        },
        None => fallback_outcome(title, now),
    }
}

impl LyricsClient {
    /// The address of the lyrics index.
    pub closed spec fn base(&self) -> Seq<char> {
        self.base_url@
    }

    /// A client for the index that the configuration names.
    pub fn new(config: &AppConfig) -> (r: Self)
        ensures
            r.base() == config@.lyrics.lrclib_base_url,
    {
        LyricsClient { base_url: config.lyrics.lrclib_base_url.clone() }
    }

    /// Starts a search: the exact query comes first.
    pub fn search_lyrics(&self, artist: &str, title: &str) -> (r: SearchAction)
        ensures
            r@ == (SearchActionModel::Query {
                stage: SearchStage::Exact,
                url: exact_url(self.base(), artist@, title@),
            }),
    {
        let url = self.base_url.clone().concat("/search?artist_name=").concat(
            url_encode(artist).as_str(),
        ).concat("&track_name=").concat(url_encode(title).as_str());
        SearchAction::Query { stage: SearchStage::Exact, url }
    }

    /// Judges the reply to the query of a stage.
    pub fn search_reply(
        &self,
        stage: SearchStage,
        artist: &str,
        title: &str,
        reply: SearchReply,
        now: i64,
    ) -> (r: SearchAction)
        ensures
            r@ == match stage {
                SearchStage::Exact => exact_step(
                    self.base(),
                    artist@,
                    title@,
                    reply_candidates(reply),
                    now,
                ),
                SearchStage::Fuzzy => fuzzy_step(artist@, title@, reply_candidates(reply), now),
            },
    {
        match stage {
            SearchStage::Exact => self.search_exact(artist, title, reply, now),
            SearchStage::Fuzzy => self.search_fuzzy(artist, title, reply, now),
        }
    }

    /// Judges the reply to the exact query: the timeline of the first
    /// candidate ends the search; anything else leads to the free-text
    /// query.
    pub fn search_exact(&self, artist: &str, title: &str, reply: SearchReply, now: i64) -> (r:
        SearchAction)
        ensures
            r@ == exact_step(self.base(), artist@, title@, reply_candidates(reply), now),
    {
        if let SearchReply::Results(results) = &reply {
            if results.len() > 0 {
                assert(candidates(results@)[0] == results@[0]@);
                if let Ok(Some(lyrics)) = convert_result_to_lyrics_data(&results[0], now) {
                    return SearchAction::Found(lyrics);
                }
            }
        }
        let url = self.base_url.clone().concat("/search?q=").concat(
            url_encode(clean_search_term(artist).as_str()).as_str(),
        ).concat(" ").concat(url_encode(clean_search_term(title).as_str()).as_str());
        SearchAction::Query { stage: SearchStage::Fuzzy, url }
    }

    /// Judges the reply to the free-text query and ends the search: with
    /// the timeline of the best match; else with an empty timeline where
    /// the title names an instrumental; else without one.
    pub fn search_fuzzy(&self, artist: &str, title: &str, reply: SearchReply, now: i64) -> (r:
        SearchAction)
        ensures
            r@ == fuzzy_step(artist@, title@, reply_candidates(reply), now),
            !(r@ is Query),
    {
        if let SearchReply::Results(results) = &reply {
            if let Some(i) = best_match(results, artist, title) {
                assert(candidates(results@)[i as int] == results@[i as int]@);
                proof {
                    let cs = candidates(results@);
                    assert(eligible(cs, i as int, artist@, title@));
                    lemma_best_match_unique(
                        cs,
                        i as int,
                        best_index(cs, artist@, title@),
                        artist@,
                        title@,
                    );
                }
                if let Ok(Some(lyrics)) = convert_result_to_lyrics_data(&results[i], now) {
                    return SearchAction::Found(lyrics);
                }
            }
        }
        if is_likely_instrumental(title) {
            let lyrics = LyricsData {
                blocks: Vec::new(),
                source: String::from_str("detected"),
                quality: LyricsQuality::Instrumental,
                confidence: 90,
                cached_at: now,
            };
            assert(lyrics@.blocks =~= Seq::<BlockModel>::empty());
            SearchAction::Found(lyrics)
        } else {
            SearchAction::NotFound
        }
    }
}

} // verus!
