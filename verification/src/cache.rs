//! The cache of lyric timelines and of timing corrections.
//!
//! Timelines are kept in memory by the `lru` crate, which drops the entry
//! that was used least recently once it is full. Reading and writing the
//! backing store is left to the caller.
use vstd::prelude::*;
use crate::config::AppConfig;
use crate::text::{lowercase, replace_char, replaced_char};
use crate::text_map::TextMap;
use crate::types::{LyricsData, LyricsModel, OffsetRecord, TrackOffsetData};

verus! {

/// A timeline with the moment from which it is stale, in milliseconds since
/// the Unix epoch.
#[derive(Debug, PartialEq, Eq)]
pub struct CachedLyrics {
    pub data: LyricsData,
    pub expires_at: i64,
}

/// Model of a [`CachedLyrics`].
pub struct CachedModel {
    pub data: LyricsModel,
    pub expires_at: i64,
}

impl View for CachedLyrics {
    type V = CachedModel;

    open spec fn view(&self) -> CachedModel {
        CachedModel { data: self.data@, expires_at: self.expires_at }
    }
}

impl Clone for CachedLyrics {
    fn clone(&self) -> (r: Self)
        ensures
            r@ == self@,
    {
        CachedLyrics { data: self.data.clone(), expires_at: self.expires_at }
    }
}

/// The greatest capacity with which a cache is made.
pub const MAX_MEMORY_CAPACITY: usize = 65536;

/// The cache type of the `lru` crate.
#[verifier::external_type_specification]
#[verifier::external_body]
#[verifier::reject_recursive_types(K)]
#[verifier::reject_recursive_types(V)]
#[verifier::reject_recursive_types(S)]
pub struct ExLruCache<K, V, S>(lru::LruCache<K, V, S>);

/// The hasher that the `lru` crate gives its caches.
#[verifier::external_type_specification]
#[verifier::external_body]
pub struct ExLruHasher(lru::DefaultHasher);

/// The entries of a cache of timelines, the one used last first: each key
/// with its value.
pub uninterp spec fn lru_entries(cache: lru::LruCache<String, CachedLyrics>) -> Seq<
    (Seq<char>, CachedModel),
>;

/// The number of entries that a cache of timelines was made to hold.
pub uninterp spec fn lru_capacity(cache: lru::LruCache<String, CachedLyrics>) -> nat;

/// The position of `key` among the entries, or -1 where it is not there.
pub open spec fn lru_position(entries: Seq<(Seq<char>, CachedModel)>, key: Seq<char>) -> int
    decreases entries.len(),
{
    if entries.len() == 0 {
        -1
    } else if entries[0].0 == key {
        0
    } else {
        let rest = lru_position(entries.drop_first(), key);
        if rest < 0 {
            -1
        } else {
            rest + 1
        }
    }
}

/// The entries after the one at `i` was used: it comes first.
pub open spec fn lru_touched(entries: Seq<(Seq<char>, CachedModel)>, i: int) -> Seq<
    (Seq<char>, CachedModel),
> {
    seq![entries[i]] + entries.remove(i)
}

/// The entries after `key` was given `value` in a cache of `capacity`
/// entries: the pair comes first, in place of the entry of `key` if there
/// was one, else, where the cache was full, of the last entry.
pub open spec fn lru_put_result(
    entries: Seq<(Seq<char>, CachedModel)>,
    capacity: nat,
    key: Seq<char>,
    value: CachedModel,
) -> Seq<(Seq<char>, CachedModel)> {
    let i = lru_position(entries, key);
    if i >= 0 {
        seq![(key, value)] + entries.remove(i)
    } else if entries.len() >= capacity {
        seq![(key, value)] + entries.drop_last()
    } else {
        seq![(key, value)] + entries
    }
}

/// The entries without that of `key`.
pub open spec fn lru_without(entries: Seq<(Seq<char>, CachedModel)>, key: Seq<char>) -> Seq<
    (Seq<char>, CachedModel),
> {
    let i = lru_position(entries, key);
    if i >= 0 {
        entries.remove(i)
    } else {
        entries
    }
}

/// Makes an empty cache with `lru::LruCache::new`.
///
/// Trusted: the cache holds nothing and is made for `capacity` entries.
/// Capacity 0 is left out, which the crate does not take, and so are
/// capacities beyond `MAX_MEMORY_CAPACITY`, for which the crate would set
/// up a table of that size at once.
#[verifier::external_body]
pub(crate) fn lru_new(capacity: usize) -> (r: lru::LruCache<String, CachedLyrics>)
    requires
        0 < capacity <= MAX_MEMORY_CAPACITY,
    ensures
        lru_entries(r) == Seq::<(Seq<char>, CachedModel)>::empty(),
        lru_capacity(r) == capacity,
{
    lru::LruCache::new(std::num::NonZeroUsize::new(capacity).unwrap())
}

/// Looks `key` up with `lru::LruCache::get`.
///
/// Trusted: the value of `key` is returned where the cache holds it, and
/// its entry then comes first; else nothing changes.
#[verifier::external_body]
pub(crate) fn lru_get<'a>(cache: &'a mut lru::LruCache<String, CachedLyrics>, key: &str) -> (r:
    Option<&'a CachedLyrics>)
    ensures
        lru_capacity(*final(cache)) == lru_capacity(*old(cache)),
        match r {
            Some(v) => {
                let i = lru_position(lru_entries(*old(cache)), key@);
                &&& i >= 0
                &&& v@ == lru_entries(*old(cache))[i].1
                &&& lru_entries(*final(cache)) == lru_touched(lru_entries(*old(cache)), i)
            },
            None => lru_position(lru_entries(*old(cache)), key@) < 0 && lru_entries(*final(cache))
                == lru_entries(*old(cache)),
        },
{
    cache.get(key)
}

/// Stores a value under `key` with `lru::LruCache::put`.
///
/// Trusted: the pair comes first; it replaces the entry of `key`, or where
/// there is none and the cache is full, the entry used least recently.
#[verifier::external_body]
pub(crate) fn lru_put(cache: &mut lru::LruCache<String, CachedLyrics>, key: String, value: CachedLyrics)
    ensures
        lru_capacity(*final(cache)) == lru_capacity(*old(cache)),
        lru_entries(*final(cache)) == lru_put_result(
            lru_entries(*old(cache)),
            lru_capacity(*old(cache)),
            key@,
            value@,
        ),
{
    cache.put(key, value);
}

/// Removes the entry of `key` with `lru::LruCache::pop`.
///
/// Trusted: the entry of `key` leaves, the others keep their order.
#[verifier::external_body]
pub(crate) fn lru_pop(cache: &mut lru::LruCache<String, CachedLyrics>, key: &str)
    ensures
        lru_capacity(*final(cache)) == lru_capacity(*old(cache)),
        lru_entries(*final(cache)) == lru_without(lru_entries(*old(cache)), key@),
{
    cache.pop(key);
}

/// Empties the cache with `lru::LruCache::clear`.
///
/// Trusted: no entry is left.
#[verifier::external_body]
pub(crate) fn lru_clear(cache: &mut lru::LruCache<String, CachedLyrics>)
    ensures
        lru_capacity(*final(cache)) == lru_capacity(*old(cache)),
        lru_entries(*final(cache)) == Seq::<(Seq<char>, CachedModel)>::empty(),
{
    cache.clear();
}

/// How many timelines are kept in memory.
pub const LYRICS_MEMORY_CAPACITY: usize = 50;

/// The longest time, in hours, for which timelines can be kept: in
/// milliseconds it still fits 64 bits.
pub const MAX_CACHE_HOURS: u64 = 2562047788015;

/// The milliseconds of an hour.
pub const MS_PER_HOUR: i64 = 3600000;

/// A found key lies within the entries and is the key of its entry; a key
/// that is not found is the key of no entry.
pub proof fn lemma_lru_position(entries: Seq<(Seq<char>, CachedModel)>, key: Seq<char>)
    ensures
        -1 <= lru_position(entries, key) < entries.len(),
        lru_position(entries, key) >= 0 ==> entries[lru_position(entries, key)].0 == key,
        lru_position(entries, key) < 0 ==> forall|i: int|
            0 <= i < entries.len() ==> (#[trigger] entries[i]).0 != key,
    decreases entries.len(),
{
    if entries.len() > 0 && entries[0].0 != key {
        lemma_lru_position(entries.drop_first(), key);
        if lru_position(entries, key) < 0 {
            assert forall|i: int| 0 <= i < entries.len() implies (#[trigger] entries[i]).0
                != key by {
                if i > 0 {
                    assert(entries.drop_first()[i - 1] == entries[i]);
                }
            }
        }
    }
}

/// Whether the entries are those of a cache of `capacity` entries: no key
/// occurs twice and there are no more than `capacity`.
pub open spec fn lru_sound(entries: Seq<(Seq<char>, CachedModel)>, capacity: nat) -> bool {
    &&& entries.len() <= capacity
    &&& forall|i: int, j: int|
        0 <= i < j < entries.len() ==> (#[trigger] entries[i]).0 != (#[trigger] entries[j]).0
}

/// Storing a value keeps the entries sound, and a lookup of its key then
/// finds it as long as it is not stale.
pub proof fn lemma_put_then_lookup(
    entries: Seq<(Seq<char>, CachedModel)>,
    capacity: nat,
    key: Seq<char>,
    value: CachedModel,
    now: i64,
)
    requires
        capacity > 0,
        lru_sound(entries, capacity),
    ensures
        lru_sound(lru_put_result(entries, capacity, key, value), capacity),
        lookup_result(lru_put_result(entries, capacity, key, value), key, now) == (if value.expires_at
            > now {
            Some(value.data)
        } else {
            None
        }),
{
    lemma_lru_position(entries, key);
    let after = lru_put_result(entries, capacity, key, value);
    let i = lru_position(entries, key);
    assert(after[0] == (key, value));
    assert(lru_position(after, key) == 0);
    let rest = if i >= 0 {
        entries.remove(i)
    } else if entries.len() >= capacity {
        entries.drop_last()
    } else {
        entries
    };
    assert(after =~= seq![(key, value)] + rest);
    assert forall|a: int| 0 <= a < rest.len() implies (#[trigger] rest[a]).0 != key && exists|
        w: int,
    |
        0 <= w < entries.len() && entries[w] == rest[a] && (a < i || i < 0 ==> w == a) && (i >= 0
            && a >= i ==> w == a + 1) by {
        if i >= 0 {
            let w = if a < i {
                a
            } else {
                a + 1
            };
            assert(entries[w] == rest[a]);
            assert(entries[w].0 != entries[i].0);
        } else {
            assert(entries[a] == rest[a]);
        }
    }
    assert forall|a: int, b: int| 0 <= a < b < after.len() implies (#[trigger] after[a]).0 != (
    #[trigger] after[b]).0 by {
        assert(after[b] == rest[b - 1]);
        if a == 0 {
            assert(rest[b - 1].0 != key);
        } else {
            assert(after[a] == rest[a - 1]);
            let wa = if i >= 0 && a - 1 >= i {
                a
            } else {
                a - 1
            };
            let wb = if i >= 0 && b - 1 >= i {
                b
            } else {
                b - 1
            };
            assert(entries[wa] == rest[a - 1]);
            assert(entries[wb] == rest[b - 1]);
        }
    }
}

/// A lookup keeps the entries sound.
pub proof fn lemma_lookup_sound(
    entries: Seq<(Seq<char>, CachedModel)>,
    capacity: nat,
    key: Seq<char>,
    now: i64,
)
    requires
        lru_sound(entries, capacity),
    ensures
        lru_sound(after_lookup(entries, key, now), capacity),
{
    lemma_lru_position(entries, key);
    let i = lru_position(entries, key);
    let after = after_lookup(entries, key, now);
    if i >= 0 {
        let rest = entries.remove(i);
        assert forall|a: int, b: int| 0 <= a < b < rest.len() implies (#[trigger] rest[a]).0 != (
        #[trigger] rest[b]).0 by {
            let wa = if a < i {
                a
            } else {
                a + 1
            };
            let wb = if b < i {
                b
            } else {
                b + 1
            };
            assert(entries[wa] == rest[a]);
            assert(entries[wb] == rest[b]);
        }
        if entries[i].1.expires_at > now {
            assert(after =~= seq![entries[i]] + rest);
            assert forall|a: int, b: int| 0 <= a < b < after.len() implies (
            #[trigger] after[a]).0 != (#[trigger] after[b]).0 by {
                assert(after[b] == rest[b - 1]);
                let wb = if b - 1 < i {
                    b - 1
                } else {
                    b
                };
                assert(entries[wb] == rest[b - 1]);
                if a == 0 {
                    assert(entries[wb].0 != entries[i].0);
                } else {
                    assert(after[a] == rest[a - 1]);
                }
            }
        }
    }
}

/// The key under which the timeline of a track is cached: artist and title
/// in lowercase, each space an underscore, joined by an underscore.
pub open spec fn lyrics_key(artist: Seq<char>, title: Seq<char>) -> Seq<char> {
    replaced_char(lowercase(artist), ' ', '_') + "_"@ + replaced_char(lowercase(title), ' ', '_')
}

/// The key under which the correction of a track is cached: artist, a
/// dash between spaces, and title.
pub open spec fn offset_key(artist: Seq<char>, title: Seq<char>) -> Seq<char> {
    artist + " - "@ + title
}

/// The key under which the timeline of a track is cached.
pub fn lyrics_cache_key(artist: &str, title: &str) -> (r: String)
    ensures
        r@ == lyrics_key(artist@, title@),
{
    let a = replace_char(artist.to_lowercase().as_str(), ' ', '_');
    let t = replace_char(title.to_lowercase().as_str(), ' ', '_');
    a.concat("_").concat(t.as_str())
}

/// The key under which the correction of a track is cached.
pub fn track_key(artist: &str, title: &str) -> (r: String)
    ensures
        r@ == offset_key(artist@, title@),
{
    String::from_str(artist).concat(" - ").concat(title)
}

/// Whether a file of the cache directory holds a timeline: its name ends
/// in `.json` and is not that of the corrections.
pub open spec fn names_lyrics_file(name: Seq<char>) -> bool {
    name.len() >= 5 && name.subrange(name.len() - 5, name.len() as int) == ".json"@ && name
        != "offsets.json"@
}

/// Whether a file of the cache directory holds a timeline, so that clearing
/// the timelines removes it.
pub fn is_lyrics_file(name: &str) -> (r: bool)
    ensures
        r == names_lyrics_file(name@),
{
    let chars = crate::text::chars_of(name);
    let suffix = crate::text::chars_of(".json");
    proof {
        reveal_strlit(".json");
    }
    if chars.len() < 5 {
        return false;
    }
    let at = chars.len() - 5;
    if !crate::text::matches_at(&chars, &suffix, at) {
        return false;
    }
    let whole = crate::text::chars_of("offsets.json");
    proof {
        reveal_strlit("offsets.json");
    }
    let same = chars.len() == 12 && crate::text::matches_at(&chars, &whole, 0);
    proof {
        if chars.len() == 12 {
            assert(chars@.subrange(0, 12) =~= chars@);
        }
    }
    !same
}

/// The cache: timelines in memory with their expiry, and the correction
/// record of each track.
pub struct CacheManager {
    memory_cache: lru::LruCache<String, CachedLyrics>,
    offset_cache: TextMap<TrackOffsetData>,
    cache_duration: i64,
}

/// The correction records as a map of models.
pub open spec fn record_map(records: Map<Seq<char>, TrackOffsetData>) -> Map<
    Seq<char>,
    OffsetRecord,
> {
    Map::new(|k: Seq<char>| records.contains_key(k), |k: Seq<char>| records[k]@)
}

/// The records with the global correction under `key` set at `now`: the
/// record that is there changes in nothing else; where there is none, one
/// without anchors that names `key` is made.
pub open spec fn global_offset_updated(
    records: Map<Seq<char>, OffsetRecord>,
    key: Seq<char>,
    offset: i32,
    now: i64,
) -> Map<Seq<char>, OffsetRecord> {
    records.insert(
        key,
        if records.contains_key(key) {
            OffsetRecord { global_offset: offset, last_modified: now, ..records[key] }
        } else {
            OffsetRecord {
                anchors: Seq::empty(),
                global_offset: offset,
                track_id: key,
                last_modified: now,
            }
        },
    )
}

/// What a lookup of `key` at `now` returns: the timeline of its entry where
/// that is not yet stale.
pub open spec fn lookup_result(
    entries: Seq<(Seq<char>, CachedModel)>,
    key: Seq<char>,
    now: i64,
) -> Option<LyricsModel> {
    let i = lru_position(entries, key);
    if i >= 0 && entries[i].1.expires_at > now {
        Some(entries[i].1.data)
    } else {
        None
    }
}

/// The entries after a lookup of `key` at `now`: a fresh entry comes
/// first, a stale one leaves.
pub open spec fn after_lookup(
    entries: Seq<(Seq<char>, CachedModel)>,
    key: Seq<char>,
    now: i64,
) -> Seq<(Seq<char>, CachedModel)> {
    let i = lru_position(entries, key);
    if i < 0 {
        entries
    } else if entries[i].1.expires_at > now {
        lru_touched(entries, i)
    } else {
        entries.remove(i)
    }
}

impl CacheManager {
    /// Whether the cache is well formed.
    pub closed spec fn wf(&self) -> bool {
        &&& self.offset_cache.wf()
        &&& self.cache_duration >= 0
        &&& lru_capacity(self.memory_cache) == LYRICS_MEMORY_CAPACITY
    }

    /// The timelines in memory, the one used last first.
    pub closed spec fn lyrics(&self) -> Seq<(Seq<char>, CachedModel)> {
        lru_entries(self.memory_cache)
    }

    /// The correction record of each track, by its key.
    pub closed spec fn offsets(&self) -> Map<Seq<char>, OffsetRecord> {
        record_map(self.offset_cache@)
    }

    /// For how long a timeline is kept, in milliseconds.
    pub closed spec fn duration_ms(&self) -> i64 {
        self.cache_duration
    }

    /// An empty cache that keeps timelines for as long as the
    /// configuration says.
    pub fn new(config: &AppConfig) -> (r: Self)
        requires
            config.lyrics.cache_duration_hours <= MAX_CACHE_HOURS,
        ensures
            r.wf(),
            r.lyrics() == Seq::<(Seq<char>, CachedModel)>::empty(),
            r.offsets() == Map::<Seq<char>, OffsetRecord>::empty(),
            r.duration_ms() == config.lyrics.cache_duration_hours * MS_PER_HOUR,
    {
        let hours = config.lyrics.cache_duration_hours as i64;
        let r = CacheManager {
            memory_cache: lru_new(LYRICS_MEMORY_CAPACITY),
            offset_cache: TextMap::new(),
            cache_duration: hours * MS_PER_HOUR,
        };
        assert(r.offsets() =~= Map::<Seq<char>, OffsetRecord>::empty());
        r
    }

    /// Looks up the timeline of a track in memory at `now`. A stale entry
    /// is dropped. Where nothing is returned the backing store is to be
    /// read next.
    pub fn get_lyrics(&mut self, artist: &str, title: &str, now: i64) -> (r: Option<LyricsData>)
        requires
            old(self).wf(),
        ensures
            final(self).wf(),
            crate::types::lyrics_model(r) == lookup_result(
                old(self).lyrics(),
                lyrics_key(artist@, title@),
                now,
            ),
            final(self).lyrics() == after_lookup(
                old(self).lyrics(),
                lyrics_key(artist@, title@),
                now,
            ),
            final(self).offsets() == old(self).offsets(),
            final(self).duration_ms() == old(self).duration_ms(),
    {
        let key = lyrics_cache_key(artist, title);
        let ghost entries = self.lyrics();
        let ghost i = lru_position(entries, key@);
        proof {
            lemma_lru_position(entries, key@);
        }
        let found = match lru_get(&mut self.memory_cache, key.as_str()) {
            Some(cached) => {
                if cached.expires_at > now {
                    Some(Some(cached.data.clone()))
                } else {
                    Some(None)
                }
            },
            None => None,
        };
        match found {
            Some(Some(data)) => Some(data),
            Some(None) => {
                proof {
                    let touched = lru_touched(entries, i);
                    assert(touched[0] == entries[i]);
                    assert(lru_position(touched, key@) == 0);
                    assert(touched.remove(0) =~= entries.remove(i));
                }
                lru_pop(&mut self.memory_cache, key.as_str());
                None
            },
            None => None,
        }
    }

    /// Takes in the entry that the backing store holds for a track, read at
    /// `now`: where it is not yet stale it goes to memory and its timeline
    /// is returned.
    pub fn load_lyrics_from_disk(
        &mut self,
        artist: &str,
        title: &str,
        cached: CachedLyrics,
        now: i64,
    ) -> (r: Option<LyricsData>)
        requires
            old(self).wf(),
        ensures
            final(self).wf(),
            final(self).offsets() == old(self).offsets(),
            final(self).duration_ms() == old(self).duration_ms(),
            cached.expires_at > now ==> crate::types::lyrics_model(r) == Some(cached@.data)
                && final(self).lyrics() == lru_put_result(
                old(self).lyrics(),
                LYRICS_MEMORY_CAPACITY as nat,
                lyrics_key(artist@, title@),
                cached@,
            ),
            cached.expires_at <= now ==> r is None && final(self).lyrics() == old(self).lyrics(),
    {
        if cached.expires_at > now {
            let key = lyrics_cache_key(artist, title);
            let data = cached.data.clone();
            lru_put(&mut self.memory_cache, key, cached);
            Some(data)
        } else {
            None
        }
    }

    /// Caches the timeline of a track at `now` and returns the entry, to be
    /// written to the backing store. The entry is stale once the time for
    /// which timelines are kept has passed.
    pub fn store_lyrics(&mut self, artist: &str, title: &str, lyrics: LyricsData, now: i64) -> (r:
        CachedLyrics)
        requires
            old(self).wf(),
            now + old(self).duration_ms() <= i64::MAX,
        ensures
            final(self).wf(),
            final(self).offsets() == old(self).offsets(),
            final(self).duration_ms() == old(self).duration_ms(),
            r@ == (CachedModel {
                data: lyrics@,
                expires_at: (now + old(self).duration_ms()) as i64,
            }),
            final(self).lyrics() == lru_put_result(
                old(self).lyrics(),
                LYRICS_MEMORY_CAPACITY as nat,
                lyrics_key(artist@, title@),
                r@,
            ),
    {
        let key = lyrics_cache_key(artist, title);
        let cached = CachedLyrics { data: lyrics, expires_at: now + self.cache_duration };
        let copy = cached.clone();
        lru_put(&mut self.memory_cache, key, cached);
        copy
    }

    /// The correction record of a track, if there is one.
    pub fn get_track_offset(&self, artist: &str, title: &str) -> (r: Option<TrackOffsetData>)
        requires
            self.wf(),
        ensures
            match r {
                Some(record) => self.offsets().contains_key(offset_key(artist@, title@))
                    && record@ == self.offsets()[offset_key(artist@, title@)],
                None => !self.offsets().contains_key(offset_key(artist@, title@)),
            },
    {
        let key = track_key(artist, title);
        match self.offset_cache.get(key.as_str()) {
            Some(record) => Some(record.clone()),
            None => None,
        }
    }

    /// Stores the correction record of a track, to be written to the
    /// backing store.
    pub fn store_track_offset(&mut self, artist: &str, title: &str, offset_data: TrackOffsetData)
        requires
            old(self).wf(),
        ensures
            final(self).wf(),
            final(self).offsets() == old(self).offsets().insert(
                offset_key(artist@, title@),
                offset_data@,
            ),
            final(self).lyrics() == old(self).lyrics(),
            final(self).duration_ms() == old(self).duration_ms(),
    {
        let key = track_key(artist, title);
        self.offset_cache.insert(key, offset_data);
        assert(self.offsets() =~= old(self).offsets().insert(
            offset_key(artist@, title@),
            offset_data@,
        ));
    }

    /// Sets the global correction of a track at `now`; to be written to the
    /// backing store. A record that is there keeps its anchors and the
    /// identity it names; a new one has no anchors and names its key.
    pub fn update_global_offset(&mut self, artist: &str, title: &str, offset: i32, now: i64)
        requires
            old(self).wf(),
        ensures
            final(self).wf(),
            final(self).offsets() == global_offset_updated(
                old(self).offsets(),
                offset_key(artist@, title@),
                offset,
                now,
            ),
            final(self).lyrics() == old(self).lyrics(),
            final(self).duration_ms() == old(self).duration_ms(),
    {
        let key = track_key(artist, title);
        let mut record = match self.offset_cache.get(key.as_str()) {
            Some(record) => record.clone(),
            None => TrackOffsetData {
                anchors: Vec::new(),
                global_offset: 0,
                track_id: key.clone(),
                last_modified: now,
            },
        };
        record.global_offset = offset;
        record.last_modified = now;
        self.offset_cache.insert(key, record);
        assert(self.offsets() =~= global_offset_updated(
            old(self).offsets(),
            offset_key(artist@, title@),
            offset,
            now,
        ));
    }

    /// Drops every timeline from memory; the files that `is_lyrics_file`
    /// names are to be removed from the backing store.
    pub fn clear_lyrics_cache(&mut self)
        requires
            old(self).wf(),
        ensures
            final(self).wf(),
            final(self).lyrics() == Seq::<(Seq<char>, CachedModel)>::empty(),
            final(self).offsets() == old(self).offsets(),
            final(self).duration_ms() == old(self).duration_ms(),
    {
        lru_clear(&mut self.memory_cache);
    }

    /// Replaces the correction records by those read from the backing
    /// store, each under its key; of two with one key the later stays.
    pub fn init(&mut self, entries: Vec<(String, TrackOffsetData)>)
        requires
            old(self).wf(),
        ensures
            final(self).wf(),
            final(self).lyrics() == old(self).lyrics(),
            final(self).duration_ms() == old(self).duration_ms(),
            forall|k: Seq<char>| #[trigger]
                final(self).offsets().contains_key(k) <==> exists|i: int|
                    0 <= i < entries.len() && (#[trigger] entries@[i]).0@ == k,
            forall|i: int|
                0 <= i < entries.len() && (forall|j: int|
                    i < j < entries.len() ==> (#[trigger] entries@[j]).0@ != entries@[i].0@)
                    ==> final(self).offsets()[(#[trigger] entries@[i]).0@] == entries@[i].1@,
    {
        self.offset_cache.clear();
        for entry in iter: entries
            invariant
                iter.seq() == entries@,
                self.offset_cache.wf(),
                self.cache_duration == old(self).cache_duration,
                self.memory_cache == old(self).memory_cache,
                forall|k: Seq<char>| #[trigger]
                    self.offset_cache@.contains_key(k) <==> exists|w: int|
                        0 <= w < iter.index() && (#[trigger] entries@[w]).0@ == k,
                forall|w: int|
                    0 <= w < iter.index() && (forall|j: int|
                        w < j < iter.index() ==> (#[trigger] entries@[j]).0@ != entries@[w].0@)
                        ==> self.offset_cache@[(#[trigger] entries@[w]).0@]@ == entries@[w].1@,
        {
            let (key, record) = entry;
            let ghost before = self.offset_cache@;
            let ghost i = iter.index() as int;
            self.offset_cache.insert(key, record);
            proof {
                assert(entries@[i].0@ == key@);
                assert forall|k: Seq<char>| #[trigger]
                    self.offset_cache@.contains_key(k) <==> exists|w: int|
                        0 <= w < i + 1 && (#[trigger] entries@[w]).0@ == k by {
                    if before.contains_key(k) {
                        let w = choose|w: int| 0 <= w < i && (#[trigger] entries@[w]).0@ == k;
                        assert(0 <= w < i + 1 && entries@[w].0@ == k);
                    }
                }
                assert forall|w: int|
                    0 <= w < i + 1 && (forall|j: int|
                        w < j < i + 1 ==> (#[trigger] entries@[j]).0@
                            != entries@[w].0@) implies self.offset_cache@[(
                #[trigger] entries@[w]).0@]@ == entries@[w].1@ by {
                    if w < i {
                        assert(entries@[i].0@ != entries@[w].0@);
                        assert(forall|j: int|
                            w < j < i ==> (#[trigger] entries@[j]).0@ != entries@[w].0@);
                    }
                }
            }
        }
    }

    /// The correction records with their keys, to be written to the backing
    /// store.
    pub fn save_offset_cache(&self) -> (r: Vec<(String, TrackOffsetData)>)
        requires
            self.wf(),
        ensures
            r.len() == self.offsets().len(),
            forall|i: int|
                0 <= i < r.len() ==> self.offsets().contains_key((#[trigger] r@[i]).0@)
                    && self.offsets()[r@[i].0@] == r@[i].1@,
            forall|i: int, j: int| 0 <= i < j < r.len() ==> r@[i].0@ != r@[j].0@,
            forall|k: Seq<char>|
                self.offsets().contains_key(k) ==> exists|i: int|
                    0 <= i < r.len() && (#[trigger] r@[i]).0@ == k,
    {
        let mut out: Vec<(String, TrackOffsetData)> = Vec::new();
        let n = self.offset_cache.len();
        let ghost ks = self.offset_cache.keys();
        proof {
            self.offset_cache.lemma_view();
        }
        let mut i: usize = 0;
        while i < n
            invariant
                i <= n == ks.len(),
                ks == self.offset_cache.keys(),
                self.offset_cache.wf(),
                out.len() == i,
                forall|w: int| 0 <= w < i ==> (#[trigger] out@[w]).0@ == ks[w] && out@[w].1@
                    == self.offset_cache@[ks[w]]@,
            decreases n - i,
        {
            let key = self.offset_cache.key_at(i).clone();
            let record = self.offset_cache.value_at(i).clone();
            out.push((key, record));
            i += 1;
        }
        proof {
            self.offset_cache.lemma_view();
            assert forall|k: Seq<char>| self.offsets().contains_key(k) implies exists|i: int|
                0 <= i < out.len() && (#[trigger] out@[i]).0@ == k by {
                assert(ks.contains(k));
                let w = choose|w: int| 0 <= w < ks.len() && ks[w] == k;
                assert(out@[w].0@ == k);
            }
            lemma_map_len(self.offset_cache@, ks);
            assert(self.offsets().dom() =~= self.offset_cache@.dom());
        }
        out
    }
}

/// A map whose keys are exactly the distinct entries of a sequence has as
/// many entries.
proof fn lemma_map_len<V>(m: Map<Seq<char>, V>, keys: Seq<Seq<char>>)
    requires
        forall|i: int, j: int| 0 <= i < j < keys.len() ==> keys[i] != keys[j],
        forall|i: int| 0 <= i < keys.len() ==> m.contains_key(#[trigger] keys[i]),
        forall|k: Seq<char>| m.contains_key(k) ==> keys.contains(k),
    ensures
        m.dom().finite(),
        m.dom().len() == keys.len(),
    decreases keys.len(),
{
    if keys.len() == 0 {
        assert forall|k: Seq<char>| !m.dom().contains(k) by {
            if m.contains_key(k) {
                assert(keys.contains(k));
            }
        }
        assert(m.dom() =~= Set::<Seq<char>>::empty());
    } else {
        let last = keys.last();
        let rest = m.remove(last);
        let head = keys.drop_last();
        assert forall|k: Seq<char>| rest.contains_key(k) implies head.contains(k) by {
            assert(keys.contains(k));
            let w = choose|w: int| 0 <= w < keys.len() && keys[w] == k;
            assert(head[w] == k);
        }
        assert forall|i: int| 0 <= i < head.len() implies rest.contains_key(
            #[trigger] head[i],
        ) by {
            assert(keys[i] == head[i]);
        }
        lemma_map_len(rest, head);
        assert(m.dom() =~= rest.dom().insert(last));
    }
}

} // verus!
