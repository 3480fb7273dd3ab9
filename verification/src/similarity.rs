//! How alike two texts are: the Jaccard index of their sets of character
//! bigrams, kept as an exact fraction.
use std::collections::HashSet;
use vstd::prelude::*;
use crate::text::{chars_of, lowercase};

verus! {

/// The longest text that is compared, in characters.
pub const MAX_TERM_CHARS: usize = 1073741824;

/// The greatest count that a similarity holds.
pub const MAX_COUNT: u64 = 2147483648;

/// The number that stands for the bigram of `a` followed by `b`. Different
/// bigrams have different numbers.
pub open spec fn bigram_code(a: char, b: char) -> u64 {
    ((a as u64) * 4294967296 + (b as u64)) as u64
}

/// The number of the bigram that starts at position `j` of `s`.
pub open spec fn bigram_at(s: Seq<char>, j: int) -> u64 {
    bigram_code(s[j], s[j + 1])
}

/// The bigrams that start before position `k` of `s`.
pub open spec fn bigrams_before(s: Seq<char>, k: int) -> Set<u64> {
    Set::new(|c: u64| exists|j: int| 0 <= j < k && j + 1 < s.len() && #[trigger] bigram_at(s, j) == c)
}

/// The set of the bigrams of `s`: each pair of adjacent characters, once.
pub open spec fn bigrams(s: Seq<char>) -> Set<u64> {
    bigrams_before(s, s.len() as int)
}

/// A similarity as a fraction: `shared` over `total`, and 0 where `total`
/// is 0.
#[derive(Debug, Clone, Copy, PartialEq, Eq, Structural)]
pub struct Similarity {
    /// How many bigrams the two texts share.
    pub shared: u64,
    /// How many bigrams the two texts have together.
    pub total: u64,
}

impl Similarity {
    /// Whether the counts are those of two sets of bounded size.
    pub open spec fn wf(&self) -> bool {
        self.shared <= self.total <= MAX_COUNT
    }

    /// The denominator of the fraction: 1 stands in for 0.
    pub open spec fn denominator(&self) -> int {
        if self.total == 0 {
            1
        } else {
            self.total as int
        }
    }
}

/// The Jaccard index of the bigram sets of two texts.
pub open spec fn jaccard(s1: Seq<char>, s2: Seq<char>) -> Similarity {
    Similarity {
        shared: bigrams(s1).intersect(bigrams(s2)).len() as u64,
        total: bigrams(s1).union(bigrams(s2)).len() as u64,
    }
}

/// The number of the bigram of `a` followed by `b`.
fn code_of(a: char, b: char) -> (r: u64)
    ensures
        r == bigram_code(a, b),
{
    (a as u64) * 4294967296 + (b as u64)
}

/// The bigrams before `k + 1` are those before `k` and the one at `k`.
proof fn lemma_bigrams_step(s: Seq<char>, k: int)
    requires
        0 <= k,
        k + 1 < s.len(),
    ensures
        bigrams_before(s, k + 1) == bigrams_before(s, k).insert(bigram_code(s[k], s[k + 1])),
{
    let c = bigram_code(s[k], s[k + 1]);
    assert forall|x: u64| bigrams_before(s, k + 1).contains(x) <==> bigrams_before(s, k).insert(
        c,
    ).contains(x) by {
        if bigrams_before(s, k + 1).contains(x) {
            let j = choose|j: int|
                0 <= j < k + 1 && j + 1 < s.len() && #[trigger] bigram_at(s, j) == x;
            if j < k {
                assert(bigrams_before(s, k).contains(x));
            }
        }
        if bigrams_before(s, k).contains(x) {
            let j = choose|j: int| 0 <= j < k && j + 1 < s.len() && #[trigger] bigram_at(s, j) == x;
            assert(0 <= j < k + 1);
        }
        if x == c {
            assert(0 <= k < k + 1 && k + 1 < s.len() && bigram_at(s, k) == x);
        }
    }
    assert(bigrams_before(s, k + 1) =~= bigrams_before(s, k).insert(c));
}

/// Positions from the last character on start no bigram.
proof fn lemma_bigrams_end(s: Seq<char>, k: int)
    requires
        0 <= k <= s.len(),
        k + 1 >= s.len(),
    ensures
        bigrams_before(s, k) == bigrams(s),
{
    assert(bigrams_before(s, k) =~= bigrams(s));
}

/// The set of the bigrams of a text.
fn bigram_set(chars: &Vec<char>) -> (r: HashSet<u64>)
    ensures
        r@ == bigrams(chars@),
        r@.finite(),
        r@.len() <= chars.len(),
{
    let mut set: HashSet<u64> = HashSet::new();
    let n = chars.len();
    let mut i: usize = 0;
    assert(bigrams_before(chars@, 0) =~= Set::<u64>::empty());
    while i < n && i + 1 < n
        invariant
            i <= n == chars.len(),
            set@ == bigrams_before(chars@, i as int),
            set@.finite(),
            set@.len() <= i,
        decreases n - i,
    {
        proof {
            lemma_bigrams_step(chars@, i as int);
        }
        set.insert(code_of(chars[i], chars[i + 1]));
        i += 1;
    }
    proof {
        lemma_bigrams_end(chars@, i as int);
    }
    set
}

/// The Jaccard index of two texts, from the characters of the first and
/// the bigram set of the second.
fn jaccard_counts(chars: &Vec<char>, other: &HashSet<u64>) -> (r: Similarity)
    requires
        other@.finite(),
        chars.len() <= MAX_TERM_CHARS,
        other@.len() <= MAX_TERM_CHARS,
    ensures
        r.shared == bigrams(chars@).intersect(other@).len(),
        r.total == bigrams(chars@).union(other@).len(),
        r.wf(),
{
    let mut seen: HashSet<u64> = HashSet::new();
    let mut shared: u64 = 0;
    let n = chars.len();
    let mut i: usize = 0;
    proof {
        assert(bigrams_before(chars@, 0) =~= Set::<u64>::empty());
        assert(seen@.intersect(other@) =~= Set::<u64>::empty());
    }
    while i < n && i + 1 < n
        invariant
            i <= n == chars.len(),
            n <= MAX_TERM_CHARS,
            other@.finite(),
            seen@ == bigrams_before(chars@, i as int),
            seen@.finite(),
            seen@.len() <= i,
            shared == seen@.intersect(other@).len(),
            shared <= seen@.len(),
        decreases n - i,
    {
        let code = code_of(chars[i], chars[i + 1]);
        let ghost before = seen@;
        proof {
            lemma_bigrams_step(chars@, i as int);
        }
        let fresh = seen.insert(code);
        if fresh && other.contains(&code) {
            proof {
                assert(seen@.intersect(other@) =~= before.intersect(other@).insert(code));
                assert(!before.intersect(other@).contains(code));
            }
            shared += 1;
        } else {
            proof {
                assert(seen@.intersect(other@) =~= before.intersect(other@));
            }
        }
        i += 1;
    }
    proof {
        lemma_bigrams_end(chars@, i as int);
        vstd::set_lib::lemma_set_intersect_union_lens(seen@, other@);
        vstd::set_lib::lemma_len_intersect(other@, seen@);
        assert(other@.intersect(seen@) =~= seen@.intersect(other@));
    }
    let total = (seen.len() as u64) + (other.len() as u64) - shared;
    Similarity { shared, total }
}

/// The Jaccard index of the bigram sets of two texts, or `None` where one
/// of them is longer than `MAX_TERM_CHARS`.
pub fn string_similarity(s1: &str, s2: &str) -> (r: Option<Similarity>)
    ensures
        r is Some <==> s1@.len() <= MAX_TERM_CHARS && s2@.len() <= MAX_TERM_CHARS,
        r is Some ==> r->0 == jaccard(s1@, s2@) && r->0.wf(),
{
    let c1 = chars_of(s1);
    let c2 = chars_of(s2);
    if c1.len() > MAX_TERM_CHARS || c2.len() > MAX_TERM_CHARS {
        return None;
    }
    let b2 = bigram_set(&c2);
    Some(jaccard_counts(&c1, &b2))
}

/// How well a candidate matches a search: the similarity of the titles and
/// that of the artists.
#[derive(Debug, Clone, Copy, PartialEq, Eq, Structural)]
pub struct MatchScore {
    pub title: Similarity,
    pub artist: Similarity,
}

impl MatchScore {
    /// Whether both similarities are well formed.
    pub open spec fn wf(&self) -> bool {
        self.title.wf() && self.artist.wf()
    }

    /// Ten times the weighted score, as a numerator over `weight_base`:
    /// seven parts title, three parts artist.
    pub open spec fn weight(&self) -> int {
        7 * self.title.shared * self.artist.denominator() + 3 * self.artist.shared
            * self.title.denominator()
    }

    /// The denominator under `weight`.
    pub open spec fn weight_base(&self) -> int {
        self.title.denominator() * self.artist.denominator()
    }

    /// Whether this score is at least `other`: 0.7 of the title similarity
    /// plus 0.3 of the artist similarity, compared exactly.
    pub open spec fn spec_at_least(&self, other: &MatchScore) -> bool {
        self.weight() * other.weight_base() >= other.weight() * self.weight_base()
    }

    /// Whether this score is at least `other`.
    #[verifier::when_used_as_spec(spec_at_least)]
    pub fn at_least(&self, other: &MatchScore) -> (r: bool)
        requires
            self.wf(),
            other.wf(),
        ensures
            r == self.spec_at_least(other),
    {
        let (n1, d1) = self.parts();
        let (n2, d2) = other.parts();
        assert(n1 * d2 <= 0x2_8000_0000_0000_0000 * 0x4000_0000_0000_0000) by (nonlinear_arith)
            requires
                n1 <= 0x2_8000_0000_0000_0000,
                d2 <= 0x4000_0000_0000_0000,
        ;
        assert(n2 * d1 <= 0x2_8000_0000_0000_0000 * 0x4000_0000_0000_0000) by (nonlinear_arith)
            requires
                n2 <= 0x2_8000_0000_0000_0000,
                d1 <= 0x4000_0000_0000_0000,
        ;
        n1 * d2 >= n2 * d1
    }

    /// `weight` and `weight_base`.
    fn parts(&self) -> (r: (u128, u128))
        requires
            self.wf(),
        ensures
            r.0 == self.weight(),
            r.1 == self.weight_base(),
            r.0 <= 0x2_8000_0000_0000_0000,
            0 < r.1 <= 0x4000_0000_0000_0000,
    {
        let ts: u128 = self.title.shared as u128;
        let tt: u128 = if self.title.total == 0 {
            1
        } else {
            self.title.total as u128
        };
        let s: u128 = self.artist.shared as u128;
        let t: u128 = if self.artist.total == 0 {
            1
        } else {
            self.artist.total as u128
        };
        assert(ts * t <= 0x8000_0000 * 0x8000_0000) by (nonlinear_arith)
            requires
                ts <= 0x8000_0000,
                t <= 0x8000_0000,
        ;
        assert(s * tt <= 0x8000_0000 * 0x8000_0000) by (nonlinear_arith)
            requires
                s <= 0x8000_0000,
                tt <= 0x8000_0000,
        ;
        assert(tt * t <= 0x8000_0000 * 0x8000_0000) by (nonlinear_arith)
            requires
                tt <= 0x8000_0000,
                t <= 0x8000_0000,
        ;
        assert(0 < tt * t) by (nonlinear_arith)
            requires
                0 < tt,
                0 < t,
        ;
        assert(7 * ts * t == 7 * (ts * t)) by (nonlinear_arith);
        assert(3 * s * tt == 3 * (s * tt)) by (nonlinear_arith);
        (7 * (ts * t) + 3 * (s * tt), tt * t)
    }
}

/// The score of a candidate with the given artist and title against a
/// search: similarities of the lowercase forms. `None` where a lowercase
/// form is longer than `MAX_TERM_CHARS`.
pub open spec fn match_score(
    result_artist: Seq<char>,
    result_title: Seq<char>,
    search_artist: Seq<char>,
    search_title: Seq<char>,
) -> Option<MatchScore> {
    if lowercase(result_artist).len() <= MAX_TERM_CHARS && lowercase(result_title).len()
        <= MAX_TERM_CHARS && lowercase(search_artist).len() <= MAX_TERM_CHARS && lowercase(
        search_title,
    ).len() <= MAX_TERM_CHARS {
        Some(
            MatchScore {
                title: jaccard(lowercase(result_title), lowercase(search_title)),
                artist: jaccard(lowercase(result_artist), lowercase(search_artist)),
            },
        )
    } else {
        None
    }
}

/// The score of a candidate against a search.
pub fn calculate_similarity_score(
    result_artist: &str,
    result_title: &str,
    search_artist: &str,
    search_title: &str,
) -> (r: Option<MatchScore>)
    ensures
        r == match_score(result_artist@, result_title@, search_artist@, search_title@),
        r is Some ==> r->0.wf(),
{
    let ra = result_artist.to_lowercase();
    let sa = search_artist.to_lowercase();
    let rt = result_title.to_lowercase();
    let st = search_title.to_lowercase();
    let artist = string_similarity(ra.as_str(), sa.as_str());
    let title = string_similarity(rt.as_str(), st.as_str());
    match (title, artist) {
        (Some(title), Some(artist)) => Some(MatchScore { title, artist }),
        _ => None,
    }
}

/// `at_least` is transitive.
pub proof fn lemma_at_least_transitive(a: MatchScore, b: MatchScore, c: MatchScore)
    requires
        a.spec_at_least(&b),
        b.spec_at_least(&c),
    ensures
        a.spec_at_least(&c),
{
    let (na, da) = (a.weight(), a.weight_base());
    let (nb, db) = (b.weight(), b.weight_base());
    let (nc, dc) = (c.weight(), c.weight_base());
    assert(da > 0 && db > 0 && dc > 0) by (nonlinear_arith)
        requires
            da == a.title.denominator() * a.artist.denominator(),
            db == b.title.denominator() * b.artist.denominator(),
            dc == c.title.denominator() * c.artist.denominator(),
            a.title.denominator() > 0,
            a.artist.denominator() > 0,
            b.title.denominator() > 0,
            b.artist.denominator() > 0,
            c.title.denominator() > 0,
            c.artist.denominator() > 0,
    ;
    assert(na * dc >= nc * da) by (nonlinear_arith)
        requires
            na * db >= nb * da,
            nb * dc >= nc * db,
            da > 0,
            db > 0,
            dc > 0,
    ;
}

/// Whether similarity `a` is at least similarity `b`, as fractions.
pub open spec fn similarity_at_least(a: Similarity, b: Similarity) -> bool {
    a.shared * b.denominator() >= b.shared * a.denominator()
}

/// A score whose title and artist similarities are both at least those of
/// another is at least the other.
pub proof fn lemma_score_monotonic(a: MatchScore, b: MatchScore)
    requires
        similarity_at_least(a.title, b.title),
        similarity_at_least(a.artist, b.artist),
    ensures
        a.spec_at_least(&b),
{
    let (ts_a, dt_a) = (a.title.shared as int, a.title.denominator());
    let (ts_b, dt_b) = (b.title.shared as int, b.title.denominator());
    let (as_a, da_a) = (a.artist.shared as int, a.artist.denominator());
    let (as_b, da_b) = (b.artist.shared as int, b.artist.denominator());
    let p = da_a * da_b;
    let q = dt_a * dt_b;
    assert(p > 0) by (nonlinear_arith)
        requires
            p == da_a * da_b,
            da_a > 0,
            da_b > 0,
    ;
    assert(q > 0) by (nonlinear_arith)
        requires
            q == dt_a * dt_b,
            dt_a > 0,
            dt_b > 0,
    ;
    let x = ts_a * dt_b;
    let y = ts_b * dt_a;
    let u = as_a * da_b;
    let v = as_b * da_a;
    assert(x * p >= y * p) by (nonlinear_arith)
        requires
            x >= y,
            p > 0,
    ;
    assert(u * q >= v * q) by (nonlinear_arith)
        requires
            u >= v,
            q > 0,
    ;
    assert((ts_a * da_a) * (dt_b * da_b) == x * p) by (nonlinear_arith)
        requires
            x == ts_a * dt_b,
            p == da_a * da_b,
    ;
    assert((as_a * dt_a) * (dt_b * da_b) == u * q) by (nonlinear_arith)
        requires
            u == as_a * da_b,
            q == dt_a * dt_b,
    ;
    assert((ts_b * da_b) * (dt_a * da_a) == y * p) by (nonlinear_arith)
        requires
            y == ts_b * dt_a,
            p == da_a * da_b,
    ;
    assert((as_b * dt_b) * (dt_a * da_a) == v * q) by (nonlinear_arith)
        requires
            v == as_b * da_a,
            q == dt_a * dt_b,
    ;
    let m = dt_b * da_b;
    let n = dt_a * da_a;
    assert((7 * ts_a * da_a + 3 * as_a * dt_a) * m == 7 * ((ts_a * da_a) * m) + 3 * ((as_a
        * dt_a) * m)) by (nonlinear_arith);
    assert((7 * ts_b * da_b + 3 * as_b * dt_b) * n == 7 * ((ts_b * da_b) * n) + 3 * ((as_b
        * dt_b) * n)) by (nonlinear_arith);
}

/// Of two scores, one is at least the other.
pub proof fn lemma_at_least_total(a: MatchScore, b: MatchScore)
    ensures
        a.spec_at_least(&b) || b.spec_at_least(&a),
{
}

} // verus!
