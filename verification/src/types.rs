//! Data types shared by every component, each with its mathematical model.
//!
//! A type that owns text or a list has a view: a value of the same shape in
//! which every `String` is a `Seq<char>` and every `Vec` a `Seq`. Contracts
//! are stated over these views.
use vstd::prelude::*;

verus! {

/// One artwork reference of an album.
#[derive(Debug, PartialEq, Eq)]
pub struct ImageInfo {
    pub url: String,
    pub width: Option<u32>,
    pub height: Option<u32>,
}

/// Model of an [`ImageInfo`].
pub struct ImageModel {
    pub url: Seq<char>,
    pub width: Option<u32>,
    pub height: Option<u32>,
}

impl View for ImageInfo {
    type V = ImageModel;

    open spec fn view(&self) -> ImageModel {
        ImageModel { url: self.url@, width: self.width, height: self.height }
    }
}

impl Clone for ImageInfo {
    fn clone(&self) -> (r: Self)
        ensures
            r@ == self@,
    {
        ImageInfo { url: self.url.clone(), width: self.width, height: self.height }
    }
}

/// Models of a sequence of images, in order.
pub open spec fn image_models(images: Seq<ImageInfo>) -> Seq<ImageModel> {
    Seq::new(images.len(), |i: int| images[i]@)
}

/// Copies a list of images.
pub fn clone_images(images: &Vec<ImageInfo>) -> (r: Vec<ImageInfo>)
    ensures
        image_models(r@) == image_models(images@),
{
    let mut out: Vec<ImageInfo> = Vec::new();
    let mut i: usize = 0;
    while i < images.len()
        invariant
            i <= images.len(),
            out.len() == i,
            forall|k: int| 0 <= k < i ==> out@[k]@ == images@[k]@,
        decreases images.len() - i,
    {
        out.push(images[i].clone());
        i += 1;
    }
    assert(image_models(out@) =~= image_models(images@));
    out
}

/// Album of a track: its name and artwork.
#[derive(Debug, PartialEq, Eq)]
pub struct AlbumInfo {
    pub name: String,
    pub images: Vec<ImageInfo>,
}

/// Model of an [`AlbumInfo`].
pub struct AlbumModel {
    pub name: Seq<char>,
    pub images: Seq<ImageModel>,
}

impl View for AlbumInfo {
    type V = AlbumModel;

    open spec fn view(&self) -> AlbumModel {
        AlbumModel { name: self.name@, images: image_models(self.images@) }
    }
}

impl Clone for AlbumInfo {
    fn clone(&self) -> (r: Self)
        ensures
            r@ == self@,
    {
        AlbumInfo { name: self.name.clone(), images: clone_images(&self.images) }
    }
}

/// What is playing: identity, descriptive text, duration and position.
///
/// Two snapshots describe the same track exactly when their `id`s are equal.
#[derive(Debug, PartialEq, Eq)]
pub struct TrackInfo {
    pub id: String,
    pub name: String,
    pub artist: String,
    pub album: AlbumInfo,
    pub duration_ms: u64,
    pub is_playing: bool,
    pub progress_ms: u64,
}

/// Model of a [`TrackInfo`].
pub struct TrackModel {
    pub id: Seq<char>,
    pub name: Seq<char>,
    pub artist: Seq<char>,
    pub album: AlbumModel,
    pub duration_ms: u64,
    pub is_playing: bool,
    pub progress_ms: u64,
}

impl View for TrackInfo {
    type V = TrackModel;

    open spec fn view(&self) -> TrackModel {
        TrackModel {
            id: self.id@,
            name: self.name@,
            artist: self.artist@,
            album: self.album@,
            duration_ms: self.duration_ms,
            is_playing: self.is_playing,
            progress_ms: self.progress_ms,
        }
    }
}

impl Clone for TrackInfo {
    fn clone(&self) -> (r: Self)
        ensures
            r@ == self@,
    {
        TrackInfo {
            id: self.id.clone(),
            name: self.name.clone(),
            artist: self.artist.clone(),
            album: self.album.clone(),
            duration_ms: self.duration_ms,
            is_playing: self.is_playing,
            progress_ms: self.progress_ms,
        }
    }
}

/// Model of an optional track.
pub open spec fn track_model(track: Option<TrackInfo>) -> Option<TrackModel> {
    match track {
        Some(t) => Some(t@),
        None => None,
    }
}

/// Copies an optional track.
pub fn clone_track(track: &Option<TrackInfo>) -> (r: Option<TrackInfo>)
    ensures
        track_model(r) == track_model(*track),
{
    match track {
        Some(t) => Some(t.clone()),
        None => None,
    }
}

/// A reduced description of a track, as a display surface shows it.
#[derive(Debug, PartialEq, Eq)]
pub struct Track {
    pub name: String,
    pub artist: String,
    pub album: String,
    pub progress_ms: u64,
    pub duration_ms: u64,
}

/// Model of a [`Track`].
pub struct TrackSummary {
    pub name: Seq<char>,
    pub artist: Seq<char>,
    pub album: Seq<char>,
    pub progress_ms: u64,
    pub duration_ms: u64,
}

impl View for Track {
    type V = TrackSummary;

    open spec fn view(&self) -> TrackSummary {
        TrackSummary {
            name: self.name@,
            artist: self.artist@,
            album: self.album@,
            progress_ms: self.progress_ms,
            duration_ms: self.duration_ms,
        }
    }
}

impl Clone for Track {
    fn clone(&self) -> (r: Self)
        ensures
            r@ == self@,
    {
        Track {
            name: self.name.clone(),
            artist: self.artist.clone(),
            album: self.album.clone(),
            progress_ms: self.progress_ms,
            duration_ms: self.duration_ms,
        }
    }
}

impl Track {
    /// The reduced description of a full track snapshot.
    pub fn of(track: &TrackInfo) -> (r: Track)
        ensures
            r@ == (TrackSummary {
                name: track@.name,
                artist: track@.artist,
                album: track@.album.name,
                progress_ms: track.progress_ms,
                duration_ms: track.duration_ms,
            }),
    {
        Track {
            name: track.name.clone(),
            artist: track.artist.clone(),
            album: track.album.name.clone(),
            progress_ms: track.progress_ms,
            duration_ms: track.duration_ms,
        }
    }
}

/// One timed unit of lyric text, valid on the half-open interval
/// `[start, end)` of milliseconds.
#[derive(Debug, PartialEq, Eq)]
pub struct LyricsBlock {
    pub start: u64,
    pub end: u64,
    pub text: String,
}

/// Model of a [`LyricsBlock`].
pub struct BlockModel {
    pub start: u64,
    pub end: u64,
    pub text: Seq<char>,
}

impl View for LyricsBlock {
    type V = BlockModel;

    open spec fn view(&self) -> BlockModel {
        BlockModel { start: self.start, end: self.end, text: self.text@ }
    }
}

impl Clone for LyricsBlock {
    fn clone(&self) -> (r: Self)
        ensures
            r@ == self@,
    {
        LyricsBlock { start: self.start, end: self.end, text: self.text.clone() }
    }
}

/// Models of a sequence of blocks, in order.
pub open spec fn block_models(blocks: Seq<LyricsBlock>) -> Seq<BlockModel> {
    Seq::new(blocks.len(), |i: int| blocks[i]@)
}

/// Copies a list of blocks.
pub fn clone_blocks(blocks: &Vec<LyricsBlock>) -> (r: Vec<LyricsBlock>)
    ensures
        block_models(r@) == block_models(blocks@),
{
    let mut out: Vec<LyricsBlock> = Vec::new();
    let mut i: usize = 0;
    while i < blocks.len()
        invariant
            i <= blocks.len(),
            out.len() == i,
            forall|k: int| 0 <= k < i ==> out@[k]@ == blocks@[k]@,
        decreases blocks.len() - i,
    {
        out.push(blocks[i].clone());
        i += 1;
    }
    assert(block_models(out@) =~= block_models(blocks@));
    out
}

/// How a timeline was obtained.
#[derive(Debug, Clone, Copy, PartialEq, Eq, Structural)]
pub enum LyricsQuality {
    /// Time-synced text.
    High,
    Medium,
    /// Derived from plain text, with made-up timing.
    Low,
    /// No text: the track has no vocals.
    Instrumental,
}

/// A lyric timeline with its provenance.
///
/// `confidence` is in hundredths (95 stands for 0.95). `cached_at` is the
/// moment of resolution in milliseconds since the Unix epoch.
#[derive(Debug, PartialEq, Eq)]
pub struct LyricsData {
    pub blocks: Vec<LyricsBlock>,
    pub source: String,
    pub quality: LyricsQuality,
    pub confidence: u32,
    pub cached_at: i64,
}

/// Model of a [`LyricsData`].
pub struct LyricsModel {
    pub blocks: Seq<BlockModel>,
    pub source: Seq<char>,
    pub quality: LyricsQuality,
    pub confidence: u32,
    pub cached_at: i64,
}

impl View for LyricsData {
    type V = LyricsModel;

    open spec fn view(&self) -> LyricsModel {
        LyricsModel {
            blocks: block_models(self.blocks@),
            source: self.source@,
            quality: self.quality,
            confidence: self.confidence,
            cached_at: self.cached_at,
        }
    }
}

impl Clone for LyricsData {
    fn clone(&self) -> (r: Self)
        ensures
            r@ == self@,
    {
        LyricsData {
            blocks: clone_blocks(&self.blocks),
            source: self.source.clone(),
            quality: self.quality,
            confidence: self.confidence,
            cached_at: self.cached_at,
        }
    }
}

/// Model of an optional timeline.
pub open spec fn lyrics_model(lyrics: Option<LyricsData>) -> Option<LyricsModel> {
    match lyrics {
        Some(l) => Some(l@),
        None => None,
    }
}

/// Copies an optional timeline.
pub fn clone_lyrics(lyrics: &Option<LyricsData>) -> (r: Option<LyricsData>)
    ensures
        lyrics_model(r) == lyrics_model(*lyrics),
{
    match lyrics {
        Some(l) => Some(l.clone()),
        None => None,
    }
}

/// The externally visible state of the engine.
///
/// `current_block_index` is `-1` while no line is resolved.
#[derive(Debug, PartialEq, Eq)]
pub struct SyncState {
    pub current_track: Option<TrackInfo>,
    pub lyrics: Option<LyricsData>,
    pub current_block_index: i32,
    pub global_offset: i32,
    pub is_paused: bool,
    pub user_has_scrolled: bool,
}

/// Model of a [`SyncState`].
pub struct SyncModel {
    pub current_track: Option<TrackModel>,
    pub lyrics: Option<LyricsModel>,
    pub current_block_index: i32,
    pub global_offset: i32,
    pub is_paused: bool,
    pub user_has_scrolled: bool,
}

impl View for SyncState {
    type V = SyncModel;

    open spec fn view(&self) -> SyncModel {
        SyncModel {
            current_track: track_model(self.current_track),
            lyrics: lyrics_model(self.lyrics),
            current_block_index: self.current_block_index,
            global_offset: self.global_offset,
            is_paused: self.is_paused,
            user_has_scrolled: self.user_has_scrolled,
        }
    }
}

impl Clone for SyncState {
    fn clone(&self) -> (r: Self)
        ensures
            r@ == self@,
    {
        SyncState {
            current_track: clone_track(&self.current_track),
            lyrics: clone_lyrics(&self.lyrics),
            current_block_index: self.current_block_index,
            global_offset: self.global_offset,
            is_paused: self.is_paused,
            user_has_scrolled: self.user_has_scrolled,
        }
    }
}

/// A correction that applies from `timestamp` (milliseconds) onwards.
#[derive(Debug, Clone, Copy, PartialEq, Eq, Structural)]
pub struct OffsetAnchor {
    pub timestamp: u64,
    pub offset: i32,
}

/// The corrections of one track: its anchors and the correction that applies
/// where no anchor does. `last_modified` is in milliseconds since the Unix
/// epoch.
#[derive(Debug, PartialEq, Eq)]
pub struct TrackOffsetData {
    pub anchors: Vec<OffsetAnchor>,
    pub global_offset: i32,
    pub track_id: String,
    pub last_modified: i64,
}

/// Model of a [`TrackOffsetData`].
pub struct OffsetRecord {
    pub anchors: Seq<OffsetAnchor>,
    pub global_offset: i32,
    pub track_id: Seq<char>,
    pub last_modified: i64,
}

impl View for TrackOffsetData {
    type V = OffsetRecord;

    open spec fn view(&self) -> OffsetRecord {
        OffsetRecord {
            anchors: self.anchors@,
            global_offset: self.global_offset,
            track_id: self.track_id@,
            last_modified: self.last_modified,
        }
    }
}

/// Copies a list of anchors.
pub fn clone_anchors(anchors: &Vec<OffsetAnchor>) -> (r: Vec<OffsetAnchor>)
    ensures
        r@ == anchors@,
{
    let mut out: Vec<OffsetAnchor> = Vec::new();
    let mut i: usize = 0;
    while i < anchors.len()
        invariant
            i <= anchors.len(),
            out@ == anchors@.subrange(0, i as int),
        decreases anchors.len() - i,
    {
        out.push(anchors[i]);
        assert(out@ =~= anchors@.subrange(0, i + 1));
        i += 1;
    }
    assert(out@ =~= anchors@);
    out
}

impl Clone for TrackOffsetData {
    fn clone(&self) -> (r: Self)
        ensures
            r@ == self@,
    {
        TrackOffsetData {
            anchors: clone_anchors(&self.anchors),
            global_offset: self.global_offset,
            track_id: self.track_id.clone(),
            last_modified: self.last_modified,
        }
    }
}

/// What can go wrong, by the component it comes from.
#[derive(Debug, PartialEq, Eq)]
pub enum AppError {
    Spotify(String),
    LyricsNotFound,
    Cache(String),
    Config(String),
    Io(String),
    Json(String),
    Anyhow(String),
}

/// Model of an [`AppError`].
pub enum ErrorModel {
    Spotify(Seq<char>),
    LyricsNotFound,
    Cache(Seq<char>),
    Config(Seq<char>),
    Io(Seq<char>),
    Json(Seq<char>),
    Anyhow(Seq<char>),
}

impl View for AppError {
    type V = ErrorModel;

    open spec fn view(&self) -> ErrorModel {
        match self {
            AppError::Spotify(s) => ErrorModel::Spotify(s@),
            AppError::LyricsNotFound => ErrorModel::LyricsNotFound,
            AppError::Cache(s) => ErrorModel::Cache(s@),
            AppError::Config(s) => ErrorModel::Config(s@),
            AppError::Io(s) => ErrorModel::Io(s@),
            AppError::Json(s) => ErrorModel::Json(s@),
            AppError::Anyhow(s) => ErrorModel::Anyhow(s@),
        }
    }
}

impl Clone for AppError {
    fn clone(&self) -> (r: Self)
        ensures
            r@ == self@,
    {
        match self {
            AppError::Spotify(s) => AppError::Spotify(s.clone()),
            AppError::LyricsNotFound => AppError::LyricsNotFound,
            AppError::Cache(s) => AppError::Cache(s.clone()),
            AppError::Config(s) => AppError::Config(s.clone()),
            AppError::Io(s) => AppError::Io(s.clone()),
            AppError::Json(s) => AppError::Json(s.clone()),
            AppError::Anyhow(s) => AppError::Anyhow(s.clone()),
        }
    }
}

/// The text that describes an error.
pub open spec fn error_text(e: ErrorModel) -> Seq<char> {
    match e {
        ErrorModel::Spotify(s) => "Spotify API error: "@ + s,
        ErrorModel::LyricsNotFound => "Lyrics not found"@,
        ErrorModel::Cache(s) => "Cache error: "@ + s,
        ErrorModel::Config(s) => "Configuration error: "@ + s,
        ErrorModel::Io(s) => "IO error: "@ + s,
        ErrorModel::Json(s) => "JSON error: "@ + s,
        ErrorModel::Anyhow(s) => "Anyhow error: "@ + s,
    }
}

impl AppError {
    /// Describes the error in words, with the detail it carries.
    pub fn message(&self) -> (r: String)
        ensures
            r@ == error_text(self@),
    {
        match self {
            AppError::Spotify(s) => String::from_str("Spotify API error: ").concat(s.as_str()),
            AppError::LyricsNotFound => String::from_str("Lyrics not found"),
            AppError::Cache(s) => String::from_str("Cache error: ").concat(s.as_str()),
            AppError::Config(s) => String::from_str("Configuration error: ").concat(s.as_str()),
            AppError::Io(s) => String::from_str("IO error: ").concat(s.as_str()),
            AppError::Json(s) => String::from_str("JSON error: ").concat(s.as_str()),
            AppError::Anyhow(s) => String::from_str("Anyhow error: ").concat(s.as_str()),
        }
    }
}

} // verus!
