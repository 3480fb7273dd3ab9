//! The engine that keeps the active lyric line in step with playback.
//!
//! Its state changes only through the operations below; each is stated as a
//! function on the model of the engine, and the laws of the engine are
//! proved of those functions.
use vstd::prelude::*;
use crate::cache::{offset_key, CacheManager, CachedLyrics, CachedModel};
use crate::types::{
    block_models, clone_lyrics, clone_track, lyrics_model, track_model, BlockModel, LyricsBlock,
    LyricsData, LyricsModel, OffsetAnchor, OffsetRecord, SyncModel, SyncState, TrackInfo,
    TrackModel, TrackOffsetData,
};

verus! {

/// How long progress reports are ignored after a manual adjustment, in
/// milliseconds.
pub const USER_LOCK_MS: u64 = 5000;

/// Whether the line at `i` covers a position: the position lies in its
/// half-open interval.
pub open spec fn covers(blocks: Seq<BlockModel>, i: int, position: int) -> bool {
    0 <= i < blocks.len() && blocks[i].start <= position < blocks[i].end
}

/// Whether the line at `i` is the first that covers a position.
pub open spec fn first_covering(blocks: Seq<BlockModel>, i: int, position: int) -> bool {
    covers(blocks, i, position) && forall|j: int| #[trigger]
        covers(blocks, j, position) ==> i <= j
}

/// The index of the active line at a position: -1 without lines; 0 before
/// the first line starts; else the first line that covers the position;
/// else the last line.
pub open spec fn active_index(blocks: Seq<BlockModel>, position: int) -> int {
    if blocks.len() == 0 {
        -1
    } else if position < blocks[0].start {
        0
    } else if exists|i: int| covers(blocks, i, position) {
        choose|i: int| first_covering(blocks, i, position)
    } else {
        blocks.len() - 1
    }
}

/// The position that a correction gives: progress plus correction, and 0
/// where that is negative.
pub open spec fn adjusted_position(progress: u64, correction: i32) -> int {
    if progress + correction < 0 {
        0
    } else {
        progress + correction
    }
}

/// The active index lies between -1 and the last index, and is -1 only
/// without lines.
pub proof fn lemma_active_index_range(blocks: Seq<BlockModel>, position: int)
    ensures
        -1 <= active_index(blocks, position) < blocks.len(),
        blocks.len() > 0 ==> active_index(blocks, position) >= 0,
{
    if blocks.len() > 0 && position >= blocks[0].start && exists|i: int|
        covers(blocks, i, position) {
        let w = choose|i: int| covers(blocks, i, position);
        lemma_first_covering_exists(blocks, position, w);
    }
}

/// Where a line covers a position, there is a first one that does.
pub proof fn lemma_first_covering_exists(blocks: Seq<BlockModel>, position: int, w: int)
    requires
        covers(blocks, w, position),
    ensures
        exists|i: int| first_covering(blocks, i, position),
        first_covering(blocks, choose|i: int| first_covering(blocks, i, position), position),
    decreases w,
{
    if forall|j: int| #[trigger] covers(blocks, j, position) ==> w <= j {
        assert(first_covering(blocks, w, position));
    } else {
        let j = choose|j: int| #[trigger] covers(blocks, j, position) && j < w;
        lemma_first_covering_exists(blocks, position, j);
    }
}

/// Beyond the greatest time that a line can name, the position no longer
/// matters.
pub proof fn lemma_active_index_saturates(blocks: Seq<BlockModel>, position: int)
    requires
        position >= u64::MAX,
    ensures
        active_index(blocks, position) == active_index(blocks, u64::MAX as int),
{
    assert forall|i: int| !covers(blocks, i, position) by {}
    assert forall|i: int| !covers(blocks, i, u64::MAX as int) by {}
}

/// The position that a correction gives, held within 64 bits.
pub fn adjusted_progress(progress_ms: u64, offset: i32) -> (r: u64)
    ensures
        r == if adjusted_position(progress_ms, offset) > u64::MAX {
            u64::MAX as int
        } else {
            adjusted_position(progress_ms, offset)
        },
{
    if offset >= 0 {
        let up = offset as u64;
        if progress_ms > u64::MAX - up {
            u64::MAX
        } else {
            progress_ms + up
        }
    } else {
        let down: u64 = if offset == i32::MIN {
            2147483648
        } else {
            (-offset) as u64
        };
        if progress_ms < down {
            0
        } else {
            progress_ms - down
        }
    }
}

/// The index of the active line at a position.
pub fn find_current_block_index(blocks: &Vec<LyricsBlock>, progress_ms: u64) -> (r: i32)
    requires
        blocks.len() <= i32::MAX,
    ensures
        r == active_index(block_models(blocks@), progress_ms as int),
{
    let ghost models = block_models(blocks@);
    if blocks.len() == 0 {
        return -1;
    }
    assert(models[0] == blocks@[0]@);
    if progress_ms < blocks[0].start {
        return 0;
    }
    let mut i: usize = 0;
    while i < blocks.len()
        invariant
            i <= blocks.len() <= i32::MAX,
            blocks.len() > 0,
            models == block_models(blocks@),
            progress_ms >= models[0].start,
            forall|j: int| 0 <= j < i ==> !covers(models, j, progress_ms as int),
        decreases blocks.len() - i,
    {
        assert(models[i as int] == blocks@[i as int]@);
        if progress_ms >= blocks[i].start && progress_ms < blocks[i].end {
            proof {
                assert(covers(models, i as int, progress_ms as int));
                assert(first_covering(models, i as int, progress_ms as int));
                let c = choose|c: int| first_covering(models, c, progress_ms as int);
                assert(covers(models, c, progress_ms as int));
                assert(c <= i && i <= c);
            }
            return i as i32;
        }
        i += 1;
    }
    (blocks.len() - 1) as i32
}

/// The index of the active line for a progress and a correction.
fn index_for(blocks: &Vec<LyricsBlock>, progress_ms: u64, offset: i32) -> (r: i32)
    requires
        blocks.len() <= i32::MAX,
    ensures
        r == active_index(block_models(blocks@), adjusted_position(progress_ms, offset)),
{
    proof {
        if adjusted_position(progress_ms, offset) > u64::MAX {
            lemma_active_index_saturates(
                block_models(blocks@),
                adjusted_position(progress_ms, offset),
            );
        }
    }
    find_current_block_index(blocks, adjusted_progress(progress_ms, offset))
}

/// Model of the engine: what it shows, what it remembers of time, and the
/// correction records of its cache.
pub struct EngineModel {
    pub state: SyncModel,
    /// When progress was last taken in, on the engine's clock.
    pub last_progress_update: Option<u64>,
    /// Until when progress reports are ignored, on the engine's clock.
    pub user_lock_until: Option<u64>,
    /// The correction record of each track, by its key.
    pub offsets: Map<Seq<char>, OffsetRecord>,
}

/// Whether a track is another one than the engine holds.
pub open spec fn is_new_track(m: EngineModel, track: TrackModel) -> bool {
    match m.state.current_track {
        Some(current) => current.id != track.id,
        None => true,
    }
}

/// The correction that the cache holds for a track, or 0.
pub open spec fn cached_correction(offsets: Map<Seq<char>, OffsetRecord>, track: TrackModel) -> i32 {
    let key = offset_key(track.artist, track.name);
    if offsets.contains_key(key) {
        offsets[key].global_offset
    } else {
        0
    }
}

/// The engine after a track was reported. Another track replaces the
/// current one, clears the timeline, the index and the scroll flag, and
/// brings its cached correction; the same track only brings its progress
/// and playing state.
pub open spec fn track_updated(m: EngineModel, track: TrackModel) -> EngineModel {
    if is_new_track(m, track) {
        EngineModel {
            state: SyncModel {
                current_track: Some(track),
                lyrics: None,
                current_block_index: -1i32,
                global_offset: cached_correction(m.offsets, track),
                is_paused: !track.is_playing,
                user_has_scrolled: false,
            },
            ..m
        }
    } else {
        EngineModel {
            state: SyncModel {
                current_track: Some(track),
                is_paused: !track.is_playing,
                ..m.state
            },
            ..m
        }
    }
}

/// Whether progress reports are ignored at `now`.
pub open spec fn user_locked(m: EngineModel, now: u64) -> bool {
    m.user_lock_until is Some && now < m.user_lock_until->0
}

/// The state with the index recomputed for a progress, where there is a
/// timeline.
pub open spec fn with_index_for(state: SyncModel, progress: u64) -> SyncModel {
    match state.lyrics {
        Some(lyrics) => SyncModel {
            current_block_index: active_index(
                lyrics.blocks,
                adjusted_position(progress, state.global_offset),
            ) as i32,
            ..state
        },
        None => state,
    }
}

/// The engine after a progress report at `now`: unchanged within the
/// user-lock window; else the index follows the progress where the
/// timeline has lines.
pub open spec fn progress_updated(m: EngineModel, progress: u64, now: u64) -> EngineModel {
    if user_locked(m, now) {
        m
    } else {
        EngineModel {
            state: if m.state.lyrics is Some && m.state.lyrics->0.blocks.len() > 0 {
                with_index_for(m.state, progress)
            } else {
                m.state
            },
            last_progress_update: Some(now),
            ..m
        }
    }
}

/// The anchors on record for a track, or none where it has no record.
pub open spec fn anchors_on_record(offsets: Map<Seq<char>, OffsetRecord>, track: TrackModel) -> Seq<
    OffsetAnchor,
> {
    let key = offset_key(track.artist, track.name);
    if offsets.contains_key(key) {
        offsets[key].anchors
    } else {
        Seq::empty()
    }
}

/// The record that the engine stores for a track with anchors and a
/// correction.
pub open spec fn correction_record(
    track: TrackModel,
    anchors: Seq<OffsetAnchor>,
    correction: i32,
    wall_now: i64,
) -> OffsetRecord {
    OffsetRecord {
        anchors: anchors,
        global_offset: correction,
        track_id: track.artist + ":"@ + track.name,
        last_modified: wall_now,
    }
}

/// The engine with the correction of the current track set and stored
/// with the given anchors, and the index recomputed from the track's last
/// known progress.
pub open spec fn with_correction(
    m: EngineModel,
    anchors: Seq<OffsetAnchor>,
    correction: i32,
    wall_now: i64,
) -> EngineModel {
    let track = m.state.current_track->0;
    EngineModel {
        state: with_index_for(SyncModel { global_offset: correction, ..m.state }, track.progress_ms),
        offsets: m.offsets.insert(
            offset_key(track.artist, track.name),
            correction_record(track, anchors, correction, wall_now),
        ),
        ..m
    }
}

/// The engine after a manual adjustment by `delta` at `now`: with a current
/// track the correction grows by `delta`, the anchors on record stay, and
/// progress reports are ignored for `USER_LOCK_MS`; without one nothing
/// changes.
pub open spec fn offset_adjusted(m: EngineModel, delta: i32, now: u64, wall_now: i64) -> EngineModel {
    if m.state.current_track is Some {
        EngineModel {
            user_lock_until: Some((now + USER_LOCK_MS) as u64),
            ..with_correction(
                m,
                anchors_on_record(m.offsets, m.state.current_track->0),
                (m.state.global_offset + delta) as i32,
                wall_now,
            )
        }
    } else {
        m
    }
}

/// The engine after the correction was reset: with a current track the
/// correction is 0 and its record holds no anchor; no window opens.
pub open spec fn offset_reset(m: EngineModel, wall_now: i64) -> EngineModel {
    if m.state.current_track is Some {
        with_correction(m, Seq::empty(), 0, wall_now)
    } else {
        m
    }
}

/// An adjustment keeps the anchors that are on record for the track and
/// stores the new correction beside them; only a reset clears them.
pub proof fn lemma_only_reset_clears_anchors(m: EngineModel, delta: i32, now: u64, wall_now: i64)
    requires
        m.state.current_track is Some,
        i32::MIN <= m.state.global_offset + delta <= i32::MAX,
    ensures
        ({
            let track = m.state.current_track->0;
            let key = offset_key(track.artist, track.name);
            let adjusted = offset_adjusted(m, delta, now, wall_now);
            let reset = offset_reset(m, wall_now);
            &&& adjusted.offsets.contains_key(key)
            &&& adjusted.offsets[key].anchors == anchors_on_record(m.offsets, track)
            &&& adjusted.offsets[key].global_offset == m.state.global_offset + delta
            &&& adjusted.state.global_offset == m.state.global_offset + delta
            &&& reset.offsets.contains_key(key)
            &&& reset.offsets[key].anchors == Seq::<OffsetAnchor>::empty()
            &&& reset.offsets[key].global_offset == 0
            &&& forall|k: Seq<char>|
                k != key ==> (adjusted.offsets.contains_key(k) <==> m.offsets.contains_key(k))
                    && adjusted.offsets[k] == m.offsets[k]
        }),
{
}

/// The engine with the index recomputed from the last known progress of
/// the current track, where there are a track and a timeline.
pub open spec fn refreshed(m: EngineModel) -> EngineModel {
    match m.state.current_track {
        Some(track) => EngineModel { state: with_index_for(m.state, track.progress_ms), ..m },
        None => m,
    }
}

/// The engine after a timeline was taken in: it becomes the current one
/// and no line is resolved. A timeline with more lines than an index can
/// count is not taken in.
pub open spec fn lyrics_applied(m: EngineModel, lyrics: LyricsModel) -> EngineModel {
    if lyrics.blocks.len() <= i32::MAX {
        EngineModel {
            state: SyncModel { lyrics: Some(lyrics), current_block_index: -1i32, ..m.state },
            ..m
        }
    } else {
        m
    }
}

/// Two snapshots in a row show the same: recomputing the index of a state
/// whose index was just recomputed changes nothing.
pub proof fn lemma_snapshot_idempotent(m: EngineModel)
    ensures
        refreshed(refreshed(m)) == refreshed(m),
{
}

/// A report of another track clears the timeline, resolves no line, and
/// brings the correction that the cache holds for the track, or 0.
pub proof fn lemma_track_change_resets(m: EngineModel, track: TrackModel)
    requires
        is_new_track(m, track),
    ensures
        track_updated(m, track).state.current_track == Some(track),
        track_updated(m, track).state.lyrics is None,
        track_updated(m, track).state.current_block_index == -1,
        track_updated(m, track).state.user_has_scrolled == false,
        track_updated(m, track).state.is_paused == !track.is_playing,
        track_updated(m, track).state.global_offset == (if m.offsets.contains_key(
            offset_key(track.artist, track.name),
        ) {
            m.offsets[offset_key(track.artist, track.name)].global_offset
        } else {
            0
        }),
        track_updated(m, track).offsets == m.offsets,
{
}

/// A progress report that arrives less than `USER_LOCK_MS` after a manual
/// adjustment changes nothing: the index that the adjustment set stays.
pub proof fn lemma_user_lock_suppresses(
    m: EngineModel,
    delta: i32,
    now: u64,
    wall_now: i64,
    progress: u64,
    later: u64,
)
    requires
        m.state.current_track is Some,
        now + USER_LOCK_MS <= u64::MAX,
        now <= later < now + USER_LOCK_MS,
    ensures
        progress_updated(offset_adjusted(m, delta, now, wall_now), progress, later)
            == offset_adjusted(m, delta, now, wall_now),
{
}

/// Once the window has passed, a progress report is taken in again.
pub proof fn lemma_user_lock_ends(
    m: EngineModel,
    delta: i32,
    now: u64,
    wall_now: i64,
    progress: u64,
    later: u64,
)
    requires
        m.state.current_track is Some,
        now + USER_LOCK_MS <= later,
    ensures
        progress_updated(
            offset_adjusted(m, delta, now, wall_now),
            progress,
            later,
        ).last_progress_update == Some(later),
{
}

/// The engine: the state that is shown, the user-lock window, and the
/// cache of timelines and corrections.
pub struct SyncEngine {
    cache: CacheManager,
    current_track: Option<TrackInfo>,
    lyrics: Option<LyricsData>,
    current_block_index: i32,
    global_offset: i32,
    is_paused: bool,
    user_has_scrolled: bool,
    last_progress_update: Option<u64>,
    user_lock_until: Option<u64>,
}

impl SyncEngine {
    /// Whether the engine is well formed: its cache is, and its timeline
    /// has no more lines than an index can count.
    pub closed spec fn wf(&self) -> bool {
        &&& self.cache.wf()
        &&& self.lyrics is Some ==> self.lyrics->0.blocks.len() <= i32::MAX
    }

    /// The model of the engine.
    pub closed spec fn view(&self) -> EngineModel {
        EngineModel {
            state: SyncModel {
                current_track: track_model(self.current_track),
                lyrics: lyrics_model(self.lyrics),
                current_block_index: self.current_block_index,
                global_offset: self.global_offset,
                is_paused: self.is_paused,
                user_has_scrolled: self.user_has_scrolled,
            },
            last_progress_update: self.last_progress_update,
            user_lock_until: self.user_lock_until,
            offsets: self.cache.offsets(),
        }
    }

    /// The timelines that the cache holds in memory, the one used last
    /// first.
    pub closed spec fn cached_lyrics(&self) -> Seq<(Seq<char>, CachedModel)> {
        self.cache.lyrics()
    }

    /// For how long the cache keeps a timeline, in milliseconds.
    pub closed spec fn cache_duration_ms(&self) -> i64 {
        self.cache.duration_ms()
    }

    /// An engine without a track, on the given cache.
    pub fn new(cache: CacheManager) -> (r: Self)
        requires
            cache.wf(),
        ensures
            r.wf(),
            r@ == (EngineModel {
                state: SyncModel {
                    current_track: None,
                    lyrics: None,
                    current_block_index: -1i32,
                    global_offset: 0,
                    is_paused: false,
                    user_has_scrolled: false,
                },
                last_progress_update: None,
                user_lock_until: None,
                offsets: cache.offsets(),
            }),
            r.cached_lyrics() == cache.lyrics(),
            r.cache_duration_ms() == cache.duration_ms(),
    {
        SyncEngine {
            cache,
            current_track: None,
            lyrics: None,
            current_block_index: -1,
            global_offset: 0,
            is_paused: false,
            user_has_scrolled: false,
            last_progress_update: None,
            user_lock_until: None,
        }
    }

    /// The index of the active line for a progress, with the current
    /// correction and timeline.
    fn index_at(&self, progress_ms: u64) -> (r: i32)
        requires
            self.wf(),
            self.lyrics is Some,
        ensures
            r == with_index_for(self@.state, progress_ms).current_block_index,
    {
        match &self.lyrics {
            Some(lyrics) => {
                proof {
                    lemma_active_index_range(
                        block_models(lyrics.blocks@),
                        adjusted_position(progress_ms, self.global_offset),
                    );
                }
                index_for(&lyrics.blocks, progress_ms, self.global_offset)
            },
            None => -1,
        }
    }

    /// Takes in a report of what is playing, and says whether it is
    /// another track than before: the change is then to be announced and
    /// the timeline of the track fetched.
    pub fn update_track(&mut self, track: TrackInfo) -> (r: bool)
        requires
            old(self).wf(),
        ensures
            final(self).wf(),
            r == is_new_track(old(self)@, track@),
            final(self)@ == track_updated(old(self)@, track@),
            final(self).cached_lyrics() == old(self).cached_lyrics(),
            final(self).cache_duration_ms() == old(self).cache_duration_ms(),
    {
        let is_new = match &self.current_track {
            Some(current) => !(current.id == track.id),
            None => true,
        };
        if is_new {
            self.lyrics = None;
            self.current_block_index = -1;
            self.user_has_scrolled = false;
            self.is_paused = !track.is_playing;
            self.global_offset = match self.cache.get_track_offset(
                track.artist.as_str(),
                track.name.as_str(),
            ) {
                Some(record) => record.global_offset,
                None => 0,
            };
            self.current_track = Some(track);
        } else {
            self.is_paused = !track.is_playing;
            self.current_track = Some(track);
        }
        is_new
    }

    /// Takes in a report of the playback position at `now`, on the
    /// engine's clock. Within the user-lock window the report is ignored.
    pub fn update_progress(&mut self, progress_ms: u64, now: u64)
        requires
            old(self).wf(),
        ensures
            final(self).wf(),
            final(self)@ == progress_updated(old(self)@, progress_ms, now),
            final(self).cached_lyrics() == old(self).cached_lyrics(),
            final(self).cache_duration_ms() == old(self).cache_duration_ms(),
    {
        if let Some(until) = self.user_lock_until {
            if now < until {
                return ;
            }
        }
        let has_lines = match &self.lyrics {
            Some(lyrics) => {
                assert(block_models(lyrics.blocks@).len() == lyrics.blocks.len());
                lyrics.blocks.len() > 0
            },
            None => false,
        };
        if has_lines {
            let index = self.index_at(progress_ms);
            if index != self.current_block_index {
                self.current_block_index = index;
            }
        }
        self.last_progress_update = Some(now);
    }

    /// Sets and stores the correction of the current track, with the
    /// anchors on record or without any, and recomputes the index from the
    /// track's last known progress.
    fn apply_correction(&mut self, keep_anchors: bool, correction: i32, wall_now: i64)
        requires
            old(self).wf(),
            old(self).current_track is Some,
        ensures
            final(self).wf(),
            final(self)@ == with_correction(
                old(self)@,
                if keep_anchors {
                    anchors_on_record(old(self)@.offsets, old(self)@.state.current_track->0)
                } else {
                    Seq::empty()
                },
                correction,
                wall_now,
            ),
            final(self).cached_lyrics() == old(self).cached_lyrics(),
            final(self).cache_duration_ms() == old(self).cache_duration_ms(),
    {
        let (artist, name, progress_ms) = match &self.current_track {
            Some(track) => (track.artist.clone(), track.name.clone(), track.progress_ms),
            None => (String::new(), String::new(), 0),
        };
        let anchors = if keep_anchors {
            match self.cache.get_track_offset(artist.as_str(), name.as_str()) {
                Some(record) => record.anchors,
                None => Vec::new(),
            }
        } else {
            Vec::new()
        };
        self.global_offset = correction;
        let record = TrackOffsetData {
            anchors,
            global_offset: correction,
            track_id: artist.clone().concat(":").concat(name.as_str()),
            last_modified: wall_now,
        };
        self.cache.store_track_offset(artist.as_str(), name.as_str(), record);
        if self.lyrics.is_some() {
            self.current_block_index = self.index_at(progress_ms);
        }
    }

    /// Adjusts the correction of the current track by `delta` and returns
    /// the new correction; its record, which keeps its anchors, is to be
    /// written to the backing store. Progress reports are ignored for
    /// `USER_LOCK_MS` from `now`, on the engine's clock; the index is
    /// recomputed at once from the track's last known progress. Without a
    /// current track nothing changes and 0 is returned.
    pub fn adjust_offset(&mut self, delta: i32, now: u64, wall_now: i64) -> (r: i32)
        requires
            old(self).wf(),
            old(self)@.state.current_track is Some ==> i32::MIN <= old(self)@.state.global_offset
                + delta <= i32::MAX && now + USER_LOCK_MS <= u64::MAX,
        ensures
            final(self).wf(),
            final(self)@ == offset_adjusted(old(self)@, delta, now, wall_now),
            r == (if old(self)@.state.current_track is Some {
                old(self)@.state.global_offset + delta
            } else {
                0
            }),
            final(self).cached_lyrics() == old(self).cached_lyrics(),
            final(self).cache_duration_ms() == old(self).cache_duration_ms(),
    {
        if self.current_track.is_none() {
            return 0;
        }
        let correction = self.global_offset + delta;
        self.apply_correction(true, correction, wall_now);
        self.user_lock_until = Some(now + USER_LOCK_MS);
        correction
    }

    /// Resets the correction of the current track to 0, without anchors,
    /// and returns 0; its record is to be written to the backing store.
    /// No user-lock window opens.
    pub fn reset_offset(&mut self, wall_now: i64) -> (r: i32)
        requires
            old(self).wf(),
        ensures
            final(self).wf(),
            final(self)@ == offset_reset(old(self)@, wall_now),
            r == 0,
            final(self).cached_lyrics() == old(self).cached_lyrics(),
            final(self).cache_duration_ms() == old(self).cache_duration_ms(),
    {
        if self.current_track.is_some() {
            self.apply_correction(false, 0, wall_now);
        }
        0
    }

    /// The state of the engine, with the index recomputed from the last
    /// known progress of the current track.
    pub fn get_state(&mut self) -> (r: SyncState)
        requires
            old(self).wf(),
        ensures
            final(self).wf(),
            final(self)@ == refreshed(old(self)@),
            r@ == final(self)@.state,
            final(self).cached_lyrics() == old(self).cached_lyrics(),
            final(self).cache_duration_ms() == old(self).cache_duration_ms(),
    {
        let progress = match &self.current_track {
            Some(track) => Some(track.progress_ms),
            None => None,
        };
        if let Some(progress_ms) = progress {
            if self.lyrics.is_some() {
                self.current_block_index = self.index_at(progress_ms);
            }
        }
        SyncState {
            current_track: clone_track(&self.current_track),
            lyrics: clone_lyrics(&self.lyrics),
            current_block_index: self.current_block_index,
            global_offset: self.global_offset,
            is_paused: self.is_paused,
            user_has_scrolled: self.user_has_scrolled,
        }
    }

    /// Makes a timeline the current one, where its lines can be counted.
    fn apply_lyrics(&mut self, lyrics: LyricsData)
        requires
            old(self).wf(),
        ensures
            final(self).wf(),
            final(self)@ == lyrics_applied(old(self)@, lyrics@),
            final(self).cached_lyrics() == old(self).cached_lyrics(),
            final(self).cache_duration_ms() == old(self).cache_duration_ms(),
    {
        assert(lyrics@.blocks.len() == lyrics.blocks.len());
        if lyrics.blocks.len() <= i32::MAX as usize {
            self.lyrics = Some(lyrics);
            self.current_block_index = -1;
        }
    }

    /// Looks up the timeline of a track in the memory of the cache at
    /// `now`, in milliseconds since the Unix epoch. A timeline that is
    /// found becomes the current one and is returned, to be announced;
    /// else the backing store is to be read next.
    pub fn fetch_lyrics(&mut self, artist: &str, title: &str, now: i64) -> (r: Option<LyricsData>)
        requires
            old(self).wf(),
        ensures
            final(self).wf(),
            lyrics_model(r) == crate::cache::lookup_result(
                old(self).cached_lyrics(),
                crate::cache::lyrics_key(artist@, title@),
                now,
            ),
            final(self).cached_lyrics() == crate::cache::after_lookup(
                old(self).cached_lyrics(),
                crate::cache::lyrics_key(artist@, title@),
                now,
            ),
            final(self)@ == match lyrics_model(r) {
                Some(l) => lyrics_applied(old(self)@, l),
                None => old(self)@,
            },
            final(self).cache_duration_ms() == old(self).cache_duration_ms(),
    {
        match self.cache.get_lyrics(artist, title, now) {
            Some(lyrics) => {
                self.apply_lyrics(lyrics.clone());
                Some(lyrics)
            },
            None => None,
        }
    }

    /// Takes in the entry that the backing store holds for a track, read
    /// at `now`. Where it is not yet stale it goes to the memory of the
    /// cache, its timeline becomes the current one and is returned, to be
    /// announced; else the lyrics index is to be searched next.
    pub fn fetch_cached_lyrics(
        &mut self,
        artist: &str,
        title: &str,
        cached: CachedLyrics,
        now: i64,
    ) -> (r: Option<LyricsData>)
        requires
            old(self).wf(),
        ensures
            final(self).wf(),
            final(self).cache_duration_ms() == old(self).cache_duration_ms(),
            cached.expires_at > now ==> lyrics_model(r) == Some(cached@.data) && final(self)@
                == lyrics_applied(old(self)@, cached@.data) && final(self).cached_lyrics()
                == crate::cache::lru_put_result(
                old(self).cached_lyrics(),
                crate::cache::LYRICS_MEMORY_CAPACITY as nat,
                crate::cache::lyrics_key(artist@, title@),
                cached@,
            ),
            cached.expires_at <= now ==> r is None && final(self)@ == old(self)@,
            cached.expires_at <= now ==> final(self).cached_lyrics() == old(self).cached_lyrics(),
    {
        match self.cache.load_lyrics_from_disk(artist, title, cached, now) {
            Some(lyrics) => {
                self.apply_lyrics(lyrics.clone());
                Some(lyrics)
            },
            None => None,
        }
    }

    /// Takes in the timeline that the lyrics index gave for a track at
    /// `now`: it is cached, becomes the current one, and its cache entry is
    /// returned, to be written to the backing store and the timeline
    /// announced.
    pub fn fetch_and_cache_lyrics(
        &mut self,
        artist: &str,
        title: &str,
        lyrics: LyricsData,
        now: i64,
    ) -> (r: CachedLyrics)
        requires
            old(self).wf(),
            now + old(self).cache_duration_ms() <= i64::MAX,
        ensures
            final(self).wf(),
            final(self).cache_duration_ms() == old(self).cache_duration_ms(),
            r@ == (CachedModel {
                data: lyrics@,
                expires_at: (now + old(self).cache_duration_ms()) as i64,
            }),
            final(self)@ == lyrics_applied(old(self)@, lyrics@),
            final(self).cached_lyrics() == crate::cache::lru_put_result(
                old(self).cached_lyrics(),
                crate::cache::LYRICS_MEMORY_CAPACITY as nat,
                crate::cache::lyrics_key(artist@, title@),
                r@,
            ),
    {
        let copy = lyrics.clone();
        let entry = self.cache.store_lyrics(artist, title, lyrics, now);
        self.apply_lyrics(copy);
        entry
    }

    /// Records whether the user has scrolled by hand.
    pub fn set_user_scrolled(&mut self, scrolled: bool)
        requires
            old(self).wf(),
        ensures
            final(self).wf(),
            final(self)@ == (EngineModel {
                state: SyncModel { user_has_scrolled: scrolled, ..old(self)@.state },
                ..old(self)@
            }),
            final(self).cached_lyrics() == old(self).cached_lyrics(),
            final(self).cache_duration_ms() == old(self).cache_duration_ms(),
    {
        self.user_has_scrolled = scrolled;
    }

    /// The index of the active line as it was last computed; -1 while no
    /// line is resolved.
    pub fn current_block_index(&self) -> (r: i32)
        ensures
            r == self@.state.current_block_index,
    {
        self.current_block_index
    }

    /// The cache of the engine, to read what is to be written to the
    /// backing store.
    pub fn get_cache(&self) -> (r: &CacheManager)
        requires
            self.wf(),
        ensures
            r.wf(),
            r.offsets() == self@.offsets,
            r.lyrics() == self.cached_lyrics(),
            r.duration_ms() == self.cache_duration_ms(),
    {
        &self.cache
    }

    /// Drops every timeline from the memory of the cache.
    pub fn clear_lyrics_cache(&mut self)
        requires
            old(self).wf(),
        ensures
            final(self).wf(),
            final(self)@ == old(self)@,
            final(self).cached_lyrics() == Seq::<(Seq<char>, CachedModel)>::empty(),
            final(self).cache_duration_ms() == old(self).cache_duration_ms(),
    {
        self.cache.clear_lyrics_cache();
    }

    /// Replaces the correction records of the cache by those read from the
    /// backing store.
    pub fn initialize(&mut self, entries: Vec<(String, TrackOffsetData)>)
        requires
            old(self).wf(),
        ensures
            final(self).wf(),
            final(self)@.state == old(self)@.state,
            final(self)@.user_lock_until == old(self)@.user_lock_until,
            final(self)@.last_progress_update == old(self)@.last_progress_update,
            final(self).cached_lyrics() == old(self).cached_lyrics(),
            final(self).cache_duration_ms() == old(self).cache_duration_ms(),
            forall|k: Seq<char>| #[trigger]
                final(self)@.offsets.contains_key(k) <==> exists|i: int|
                    0 <= i < entries.len() && (#[trigger] entries@[i]).0@ == k,
            forall|i: int|
                0 <= i < entries.len() && (forall|j: int|
                    i < j < entries.len() ==> (#[trigger] entries@[j]).0@ != entries@[i].0@)
                    ==> final(self)@.offsets[(#[trigger] entries@[i]).0@] == entries@[i].1@,
    {
        self.cache.init(entries);
    }
}

} // verus!
