//! Polling a desktop player, which answers "nothing is playing" until it
//! has been woken up: a warm-up, two queries, and a few retries with
//! growing delays.
use vstd::prelude::*;
use crate::spotify::{join, joined};
use crate::text::{opt_text, text_views};
use crate::types::{
    image_models, AlbumInfo, AlbumModel, ImageInfo, ImageModel, TrackInfo, TrackModel,
};

verus! {

/// After how many empty answers in a row the player is woken up again.
pub const WAKE_UP_AFTER_EMPTY: u32 = 3;

/// How many times the first query is retried.
pub const MAX_RETRIES: u32 = 3;

/// The delay before the second query, in milliseconds.
pub const SECOND_QUERY_DELAY_MS: u64 = 150;

/// The step by which the delay before a retry grows, in milliseconds.
pub const RETRY_DELAY_STEP_MS: u64 = 200;

/// An image as a document of the service describes it; each field may be
/// missing.
#[derive(Debug, PartialEq, Eq)]
pub struct RawImage {
    pub url: Option<String>,
    pub width: Option<u64>,
    pub height: Option<u64>,
}

/// A track as a document of the service describes it; each field may be
/// missing. `artists` holds the names of the artists, in the order given.
#[derive(Debug, PartialEq, Eq)]
pub struct RawTrack {
    pub id: Option<String>,
    pub name: Option<String>,
    pub artists: Option<Vec<String>>,
    pub album_name: Option<String>,
    pub images: Option<Vec<RawImage>>,
    pub duration_ms: Option<u64>,
}

/// Model of a [`RawImage`].
pub struct RawImageModel {
    pub url: Option<Seq<char>>,
    pub width: Option<u64>,
    pub height: Option<u64>,
}

impl View for RawImage {
    type V = RawImageModel;

    open spec fn view(&self) -> RawImageModel {
        RawImageModel { url: opt_text(self.url), width: self.width, height: self.height }
    }
}

/// Models of a list of raw images, in order.
pub open spec fn raw_image_models(images: Seq<RawImage>) -> Seq<RawImageModel> {
    Seq::new(images.len(), |i: int| images[i]@)
}

/// Model of a [`RawTrack`].
pub struct RawTrackModel {
    pub id: Option<Seq<char>>,
    pub name: Option<Seq<char>>,
    pub artists: Option<Seq<Seq<char>>>,
    pub album_name: Option<Seq<char>>,
    pub images: Option<Seq<RawImageModel>>,
    pub duration_ms: Option<u64>,
}

impl View for RawTrack {
    type V = RawTrackModel;

    open spec fn view(&self) -> RawTrackModel {
        RawTrackModel {
            id: opt_text(self.id),
            name: opt_text(self.name),
            artists: match self.artists {
                Some(v) => Some(text_views(v@)),
                None => None,
            },
            album_name: opt_text(self.album_name),
            images: match self.images {
                Some(v) => Some(raw_image_models(v@)),
                None => None,
            },
            duration_ms: self.duration_ms,
        }
    }
}

/// A size held within 32 bits: what is left of it modulo 2 to the 32.
pub open spec fn narrowed(size: Option<u64>) -> Option<u32> {
    match size {
        Some(v) => Some((v % 0x1_0000_0000) as u32),
        None => None,
    }
}

/// The images that name a URL, in order, with their sizes narrowed.
pub open spec fn usable_images(images: Seq<RawImageModel>) -> Seq<ImageModel>
    decreases images.len(),
{
    if images.len() == 0 {
        Seq::empty()
    } else {
        let last = images.last();
        match last.url {
            Some(url) => usable_images(images.drop_last()).push(
                ImageModel { url: url, width: narrowed(last.width), height: narrowed(last.height) },
            ),
            None => usable_images(images.drop_last()),
        }
    }
}

/// A text, or `fallback` where it is missing.
pub open spec fn text_or(text: Option<Seq<char>>, fallback: Seq<char>) -> Seq<char> {
    match text {
        Some(t) => t,
        None => fallback,
    }
}

/// The artist of a track: the names of its artists joined by a comma and a
/// space, or a placeholder where it names none.
pub open spec fn artist_text(artists: Option<Seq<Seq<char>>>) -> Seq<char> {
    match artists {
        Some(names) => if names.len() > 0 {
            joined(names, ", "@)
        } else {
            "Unknown Artist"@
        },
        None => "Unknown Artist"@,
    }
}

/// The snapshot that a raw track stands for: the artists joined, each
/// missing text replaced by a placeholder, playing, at position 0.
pub open spec fn parsed_track(raw: RawTrackModel) -> TrackModel {
    TrackModel {
        id: text_or(raw.id, ""@),
        name: text_or(raw.name, "Unknown"@),
        artist: artist_text(raw.artists),
        album: AlbumModel {
            name: text_or(raw.album_name, "Unknown Album"@),
            images: match raw.images {
                Some(images) => usable_images(images),
                None => Seq::empty(),
            },
        },
        duration_ms: match raw.duration_ms {
            Some(d) => d,
            None => 0,
        },
        is_playing: true,
        progress_ms: 0,
    }
}

/// A size held within 32 bits.
fn narrow(size: Option<u64>) -> (r: Option<u32>)
    ensures
        r == narrowed(size),
{
    match size {
        Some(v) => Some((v % 0x1_0000_0000) as u32),
        None => None,
    }
}

/// A text, or `fallback` where it is missing.
fn or_text(text: Option<String>, fallback: &str) -> (r: String)
    ensures
        r@ == text_or(opt_text(text), fallback@),
{
    match text {
        Some(t) => t,
        None => String::from_str(fallback),
    }
}

/// The snapshot that a raw track stands for.
pub fn parse_track_from_json(item: RawTrack) -> (r: TrackInfo)
    ensures
        r@ == parsed_track(item@),
{
    let mut images: Vec<ImageInfo> = Vec::new();
    if let Some(raw_images) = item.images {
        let ghost models = raw_image_models(raw_images@);
        assert(models.subrange(0, 0) =~= Seq::<RawImageModel>::empty());
        assert(image_models(images@) =~= Seq::<ImageModel>::empty());
        for raw in iter: raw_images
            invariant
                iter.seq() == raw_images@,
                models == raw_image_models(raw_images@),
                image_models(images@) == usable_images(models.subrange(0, iter.index() as int)),
        {
            let ghost i = iter.index() as int;
            let ghost before = image_models(images@);
            proof {
                assert(models.subrange(0, i + 1).drop_last() =~= models.subrange(0, i));
                assert(models.subrange(0, i + 1).last() == raw@);
            }
            if let Some(url) = raw.url {
                images.push(ImageInfo { url, width: narrow(raw.width), height: narrow(raw.height) });
                assert(image_models(images@) =~= before.push(images@[images.len() - 1]@));
            }
        }
        assert(models.subrange(0, models.len() as int) =~= models);
    } else {
        assert(image_models(images@) =~= Seq::<ImageModel>::empty());
    }
    let artist = match &item.artists {
        Some(names) => if names.len() > 0 {
            join(names, ", ")
        } else {
            String::from_str("Unknown Artist")
        },
        None => String::from_str("Unknown Artist"),
    };
    TrackInfo {
        id: or_text(item.id, ""),
        name: or_text(item.name, "Unknown"),
        artist,
        album: AlbumInfo { name: or_text(item.album_name, "Unknown Album"), images },
        duration_ms: match item.duration_ms {
            Some(d) => d,
            None => 0,
        },
        is_playing: true,
        progress_ms: 0,
    }
}

/// A device of the playback service.
#[derive(Debug, PartialEq, Eq)]
pub struct Device {
    pub name: String,
    pub device_type: String,
    pub is_active: bool,
}

/// Whether the device at `i` is the first active one.
pub open spec fn first_active(devices: Seq<Device>, i: int) -> bool {
    0 <= i < devices.len() && devices[i].is_active && forall|j: int|
        0 <= j < i ==> !(#[trigger] devices[j]).is_active
}

/// Whether the first active device is a computer: polling then follows
/// the rules for a desktop player.
pub open spec fn desktop_is_active(devices: Seq<Device>) -> bool {
    exists|i: int| first_active(devices, i) && devices[i].device_type@ == "Computer"@
}

/// Whether some active device is a computer.
pub open spec fn any_active_desktop(devices: Seq<Device>) -> bool {
    exists|i: int|
        0 <= i < devices.len() && (#[trigger] devices[i]).is_active && devices[i].device_type@
            == "Computer"@
}

/// Whether the first active device is a computer.
pub fn is_desktop_active(devices: &Vec<Device>) -> (r: bool)
    ensures
        r == desktop_is_active(devices@),
{
    let computer = String::from_str("Computer");
    let mut i: usize = 0;
    while i < devices.len()
        invariant
            i <= devices.len(),
            computer@ == "Computer"@,
            forall|j: int| 0 <= j < i ==> !(#[trigger] devices@[j]).is_active,
        decreases devices.len() - i,
    {
        if devices[i].is_active {
            let r = devices[i].device_type == computer;
            proof {
                assert(first_active(devices@, i as int));
                if !r {
                    assert forall|k: int| first_active(devices@, k) implies devices@[k].device_type@
                        != "Computer"@ by {
                        assert(k == i) by {
                            if k < i {
                                assert(!devices@[k].is_active);
                            }
                            if i < k {
                                assert(!devices@[i as int].is_active);
                            }
                        }
                    }
                }
            }
            return r;
        }
        i += 1;
    }
    false
}

/// What a diagnosis of empty answers advises.
#[derive(Debug, Clone, Copy, PartialEq, Eq, Structural)]
pub enum Diagnosis {
    /// No active computer: the desktop player has to play something.
    NoActiveDesktop,
    /// A computer is active, and the current-item query has content.
    DesktopAnswers,
    /// A computer is active, yet the current-item query has no content:
    /// pausing and playing, skipping or waiting may help.
    DesktopSilent,
}

/// What a diagnosis advises, from the devices and the status of the
/// current-item query.
pub open spec fn diagnosis_of(devices: Seq<Device>, status: u16) -> Diagnosis {
    if !any_active_desktop(devices) {
        Diagnosis::NoActiveDesktop
    } else if status == crate::spotify::STATUS_NO_CONTENT {
        Diagnosis::DesktopSilent
    } else {
        Diagnosis::DesktopAnswers
    }
}

impl crate::spotify::SpotifyClient {
    /// Diagnoses why the current-item query of a desktop player has no
    /// content, from the devices and the status of that query.
    pub fn diagnose_desktop_204(devices: &Vec<Device>, status: u16) -> (r: Diagnosis)
        ensures
            r == diagnosis_of(devices@, status),
    {
        diagnose(devices, status)
    }
}

/// Diagnoses why the current-item query has no content.
fn diagnose(devices: &Vec<Device>, status: u16) -> (r: Diagnosis)
    ensures
        r == diagnosis_of(devices@, status),
{
    let computer = String::from_str("Computer");
    let mut found = false;
    let mut i: usize = 0;
    while i < devices.len()
        invariant
            i <= devices.len(),
            computer@ == "Computer"@,
            found == exists|j: int|
                0 <= j < i && (#[trigger] devices@[j]).is_active && devices@[j].device_type@
                    == "Computer"@,
        decreases devices.len() - i,
    {
        if devices[i].is_active && devices[i].device_type == computer {
            found = true;
        }
        i += 1;
    }
    if !found {
        Diagnosis::NoActiveDesktop
    } else if status == crate::spotify::STATUS_NO_CONTENT {
        Diagnosis::DesktopSilent
    } else {
        Diagnosis::DesktopAnswers
    }
}

/// What is remembered of a desktop player between polls. The time of the
/// last success is in milliseconds on a clock that never goes back.
#[derive(Debug, Clone, Copy, PartialEq, Eq, Structural)]
pub struct DesktopState {
    pub is_warmed_up: bool,
    pub last_successful_call: Option<u64>,
    pub consecutive_204s: u32,
}

/// Where a poll of a desktop player stands.
#[derive(Debug, Clone, Copy, PartialEq, Eq, Structural)]
pub enum DesktopPhase {
    /// No poll is under way.
    Idle,
    /// The player is being woken up.
    WakingUp,
    /// The current-item query has been sent.
    First,
    /// The player-state query has been sent.
    Second,
    /// The current-item query has been sent again, for the given time.
    Retrying(u32),
}

/// What one query of a desktop player gave.
#[derive(Debug, PartialEq, Eq)]
pub enum DesktopAnswer {
    Found(TrackInfo),
    /// A valid answer without a track.
    Empty,
    /// The query failed.
    Fault,
}

/// What the caller reports to a poll of a desktop player.
#[derive(Debug, PartialEq, Eq)]
pub enum DesktopEvent {
    /// A new poll begins.
    Begin,
    /// The player has been woken up.
    Awake,
    /// A query has been answered at `now`.
    Answer { answer: DesktopAnswer, now: u64 },
}

/// The queries of a poll of a desktop player.
#[derive(Debug, Clone, Copy, PartialEq, Eq, Structural)]
pub enum DesktopQuery {
    CurrentlyPlaying,
    FullPlayer,
}

/// What a poll of a desktop player asks the caller to do next.
#[derive(Debug, PartialEq, Eq)]
pub enum DesktopAction {
    /// Call the endpoints that wake the player up and report `Awake`.
    WakeUp,
    /// Wait for `delay_ms`, send the query and report `Answer`.
    Query { query: DesktopQuery, delay_ms: u64 },
    /// The poll has ended with a track.
    Track(TrackInfo),
    /// The poll has ended without a track.
    Nothing,
}

/// Model of a [`DesktopEvent`].
pub enum DesktopEventModel {
    Begin,
    Awake,
    Found { track: TrackModel, now: u64 },
    Empty,
    Fault,
}

/// Model of a [`DesktopAction`].
pub enum DesktopActionModel {
    WakeUp,
    Query { query: DesktopQuery, delay_ms: u64 },
    Track(TrackModel),
    Nothing,
}

impl View for DesktopEvent {
    type V = DesktopEventModel;

    open spec fn view(&self) -> DesktopEventModel {
        match self {
            DesktopEvent::Begin => DesktopEventModel::Begin,
            DesktopEvent::Awake => DesktopEventModel::Awake,
            DesktopEvent::Answer { answer, now } => match answer {
                DesktopAnswer::Found(t) => DesktopEventModel::Found { track: t@, now: *now },
                DesktopAnswer::Empty => DesktopEventModel::Empty,
                DesktopAnswer::Fault => DesktopEventModel::Fault,
            },
        }
    }
}

impl View for DesktopAction {
    type V = DesktopActionModel;

    open spec fn view(&self) -> DesktopActionModel {
        match self {
            DesktopAction::WakeUp => DesktopActionModel::WakeUp,
            DesktopAction::Query { query, delay_ms } => DesktopActionModel::Query {
                query: *query,
                delay_ms: *delay_ms,
            },
            DesktopAction::Track(t) => DesktopActionModel::Track(t@),
            DesktopAction::Nothing => DesktopActionModel::Nothing,
        }
    }
}

/// Whether the player has to be woken up before it is queried.
pub open spec fn needs_wake_up(state: DesktopState) -> bool {
    !state.is_warmed_up || state.consecutive_204s > WAKE_UP_AFTER_EMPTY
}

/// The state after an empty answer: one more in a row.
pub open spec fn after_empty(state: DesktopState) -> DesktopState {
    DesktopState {
        consecutive_204s: if state.consecutive_204s < u32::MAX {
            (state.consecutive_204s + 1) as u32
        } else {
            u32::MAX
        },
        ..state
    }
}

/// The state after a track was found at `now`.
pub open spec fn after_success(state: DesktopState, now: u64) -> DesktopState {
    DesktopState { consecutive_204s: 0, last_successful_call: Some(now), ..state }
}

/// The first query of a poll.
pub open spec fn first_query() -> DesktopActionModel {
    DesktopActionModel::Query { query: DesktopQuery::CurrentlyPlaying, delay_ms: 0 }
}

/// The retry for the time `attempt`, after a delay that grows with it.
pub open spec fn retry_query(attempt: u32) -> DesktopActionModel {
    DesktopActionModel::Query {
        query: DesktopQuery::CurrentlyPlaying,
        delay_ms: (attempt * RETRY_DELAY_STEP_MS) as u64,
    }
}

/// The step of a poll of a desktop player: the state and the phase that
/// follow, and what the caller is to do.
///
/// A poll begins by waking the player up where that is due. A track ends
/// the poll. The two queries count an empty answer; after them the first
/// query is retried up to `MAX_RETRIES` times, and then the poll ends
/// without a track. A report that the phase does not wait for ends the
/// poll without a track.
pub open spec fn desktop_step(state: DesktopState, phase: DesktopPhase, event: DesktopEventModel) -> (
    DesktopState,
    DesktopPhase,
    DesktopActionModel,
) {
    match event {
        DesktopEventModel::Begin => if needs_wake_up(state) {
            (state, DesktopPhase::WakingUp, DesktopActionModel::WakeUp)
        } else {
            (state, DesktopPhase::First, first_query())
        },
        DesktopEventModel::Awake => match phase {
            DesktopPhase::WakingUp => (
                DesktopState { is_warmed_up: true, consecutive_204s: 0, ..state },
                DesktopPhase::First,
                first_query(),
            ),
            _ => (state, DesktopPhase::Idle, DesktopActionModel::Nothing),
        },
        DesktopEventModel::Found { track, now } => match phase {
            DesktopPhase::First | DesktopPhase::Second | DesktopPhase::Retrying(_) => (
                after_success(state, now),
                DesktopPhase::Idle,
                DesktopActionModel::Track(track),
            ),
            _ => (state, DesktopPhase::Idle, DesktopActionModel::Nothing),
        },
        DesktopEventModel::Empty | DesktopEventModel::Fault => {
            let counted = if event is Empty {
                after_empty(state)
            } else {
                state
            };
            match phase {
                DesktopPhase::First => (
                    counted,
                    DesktopPhase::Second,
                    DesktopActionModel::Query {
                        query: DesktopQuery::FullPlayer,
                        delay_ms: SECOND_QUERY_DELAY_MS,
                    },
                ),
                DesktopPhase::Second => (counted, DesktopPhase::Retrying(1), retry_query(1)),
                DesktopPhase::Retrying(attempt) => if attempt < MAX_RETRIES {
                    (
                        state,
                        DesktopPhase::Retrying((attempt + 1) as u32),
                        retry_query((attempt + 1) as u32),
                    )
                } else {
                    (state, DesktopPhase::Idle, DesktopActionModel::Nothing)
                },
                _ => (state, DesktopPhase::Idle, DesktopActionModel::Nothing),
            }
        },
    }
}

/// How many reports a poll in this phase can still wait for.
pub open spec fn desktop_steps_left(phase: DesktopPhase) -> nat {
    match phase {
        DesktopPhase::Idle => 0,
        DesktopPhase::Retrying(attempt) => if attempt <= MAX_RETRIES {
            (MAX_RETRIES - attempt + 1) as nat
        } else {
            1
        },
        DesktopPhase::Second => 5,
        DesktopPhase::First => 6,
        DesktopPhase::WakingUp => 7,
    }
}

/// Every report but the beginning brings a poll of a desktop player nearer
/// to its end: it sends at most five queries, the retries after 200, 400
/// and 600 milliseconds.
pub proof fn lemma_desktop_poll_bounded(
    state: DesktopState,
    phase: DesktopPhase,
    event: DesktopEventModel,
)
    ensures
        !(event is Begin) && !(phase is Idle) ==> desktop_steps_left(
            desktop_step(state, phase, event).1,
        ) < desktop_steps_left(phase),
        desktop_step(state, DesktopPhase::Second, DesktopEventModel::Empty).2 == retry_query(1),
        retry_query(1)->delay_ms == 200 && retry_query(2)->delay_ms == 400 && retry_query(
            3,
        )->delay_ms == 600,
{
}

/// A poll of a desktop player: what is remembered of the player and the
/// phase of the poll under way.
#[derive(Debug, PartialEq, Eq)]
pub struct DesktopPoller {
    state: DesktopState,
    phase: DesktopPhase,
}

impl DesktopPoller {
    /// What is remembered of the player.
    pub closed spec fn state(&self) -> DesktopState {
        self.state
    }

    /// The phase of the poll under way.
    pub closed spec fn phase(&self) -> DesktopPhase {
        self.phase
    }

    /// A poller for a player that has not been woken up.
    pub fn new() -> (r: Self)
        ensures
            r.state() == (DesktopState {
                is_warmed_up: false,
                last_successful_call: None,
                consecutive_204s: 0,
            }),
            r.phase() == DesktopPhase::Idle,
    {
        DesktopPoller {
            state: DesktopState {
                is_warmed_up: false,
                last_successful_call: None,
                consecutive_204s: 0,
            },
            phase: DesktopPhase::Idle,
        }
    }

    /// What is remembered of the player.
    pub fn desktop_state(&self) -> (r: DesktopState)
        ensures
            r == self.state(),
    {
        self.state
    }

    /// Takes one step of a poll: `event` is what the caller reports, the
    /// result what it is to do next.
    pub fn step(&mut self, event: DesktopEvent) -> (r: DesktopAction)
        ensures
            (final(self).state(), final(self).phase(), r@) == desktop_step(
                old(self).state(),
                old(self).phase(),
                event@,
            ),
    {
        let first = DesktopAction::Query { query: DesktopQuery::CurrentlyPlaying, delay_ms: 0 };
        match event {
            DesktopEvent::Begin => {
                if !self.state.is_warmed_up || self.state.consecutive_204s > WAKE_UP_AFTER_EMPTY {
                    self.phase = DesktopPhase::WakingUp;
                    DesktopAction::WakeUp
                } else {
                    self.phase = DesktopPhase::First;
                    first
                }
            },
            DesktopEvent::Awake => match self.phase {
                DesktopPhase::WakingUp => {
                    self.state.is_warmed_up = true;
                    self.state.consecutive_204s = 0;
                    self.phase = DesktopPhase::First;
                    first
                },
                _ => {
                    self.phase = DesktopPhase::Idle;
                    DesktopAction::Nothing
                },
            },
            DesktopEvent::Answer { answer, now } => {
                let waiting = match self.phase {
                    DesktopPhase::First | DesktopPhase::Second | DesktopPhase::Retrying(_) => true,
                    _ => false,
                };
                if !waiting {
                    self.phase = DesktopPhase::Idle;
                    return DesktopAction::Nothing;
                }
                let counts = match answer {
                    DesktopAnswer::Found(track) => {
                        self.state.consecutive_204s = 0;
                        self.state.last_successful_call = Some(now);
                        self.phase = DesktopPhase::Idle;
                        return DesktopAction::Track(track);
                    },
                    DesktopAnswer::Empty => true,
                    DesktopAnswer::Fault => false,
                };
                match self.phase {
                    DesktopPhase::First => {
                        if counts {
                            self.count_empty();
                        }
                        self.phase = DesktopPhase::Second;
                        DesktopAction::Query {
                            query: DesktopQuery::FullPlayer,
                            delay_ms: SECOND_QUERY_DELAY_MS,
                        }
                    },
                    DesktopPhase::Second => {
                        if counts {
                            self.count_empty();
                        }
                        self.phase = DesktopPhase::Retrying(1);
                        DesktopAction::Query {
                            query: DesktopQuery::CurrentlyPlaying,
                            delay_ms: RETRY_DELAY_STEP_MS,
                        }
                    },
                    DesktopPhase::Retrying(attempt) => {
                        if attempt < MAX_RETRIES {
                            let next = attempt + 1;
                            self.phase = DesktopPhase::Retrying(next);
                            DesktopAction::Query {
                                query: DesktopQuery::CurrentlyPlaying,
                                delay_ms: (next as u64) * RETRY_DELAY_STEP_MS,
                            }
                        } else {
                            self.phase = DesktopPhase::Idle;
                            DesktopAction::Nothing
                        }
                    },
                    _ => {
                        self.phase = DesktopPhase::Idle;
                        DesktopAction::Nothing
                    },
                }
            },
        }
    }

    /// Counts one more empty answer in a row.
    fn count_empty(&mut self)
        ensures
            final(self).state() == after_empty(old(self).state()),
            final(self).phase() == old(self).phase(),
    {
        if self.state.consecutive_204s < u32::MAX {
            self.state.consecutive_204s = self.state.consecutive_204s + 1;
        }
    }
}

/// The body of an answer of the desktop player.
#[derive(Debug, PartialEq, Eq)]
pub enum DesktopBody {
    /// No body, or an empty one.
    Empty,
    /// A body that is no document.
    Malformed,
    /// A document, with what it says of a track.
    Document(RawTrack),
}

/// What the current-item query of a desktop player gave, from the status
/// and the body of the answer: a track only for a document answered with
/// success.
pub open spec fn desktop_current_answer(status: u16, body: DesktopBody) -> Option<TrackModel> {
    match body {
        DesktopBody::Document(raw) => if status == crate::spotify::STATUS_OK {
            Some(parsed_track(raw@))
        } else {
            None
        },
        _ => None,
    }
}

/// Model of a [`DesktopAnswer`]: the track that was found.
pub open spec fn answer_track(answer: DesktopAnswer) -> Option<TrackModel> {
    match answer {
        DesktopAnswer::Found(t) => Some(t@),
        _ => None,
    }
}

/// Judges the answer to the current-item query of a desktop player.
pub fn desktop_currently_playing(status: u16, body: DesktopBody) -> (r: DesktopAnswer)
    ensures
        !(r is Fault),
        answer_track(r) == desktop_current_answer(status, body),
{
    if status == crate::spotify::STATUS_OK {
        if let DesktopBody::Document(raw) = body {
            return DesktopAnswer::Found(parse_track_from_json(raw));
        }
    }
    DesktopAnswer::Empty
}

/// What the player-state query of a desktop player gave: a track where a
/// document answered with success names an item; a fault where an answer
/// with success carries no document; else nothing.
pub open spec fn desktop_player_answer(status: u16, body: DesktopBody, has_item: bool) -> (
    Option<TrackModel>,
    bool,
) {
    if status == crate::spotify::STATUS_OK {
        match body {
            DesktopBody::Document(raw) => if has_item {
                (Some(parsed_track(raw@)), false)
            } else {
                (None, false)
            },
            _ => (None, true),
        }
    } else {
        (None, false)
    }
}

/// Judges the answer to the player-state query of a desktop player.
/// `has_item` says whether the document names an item.
pub fn desktop_full_player(status: u16, body: DesktopBody, has_item: bool) -> (r: DesktopAnswer)
    ensures
        (answer_track(r), r is Fault) == desktop_player_answer(status, body, has_item),
{
    if status != crate::spotify::STATUS_OK {
        return DesktopAnswer::Empty;
    }
    match body {
        DesktopBody::Document(raw) => if has_item {
            DesktopAnswer::Found(parse_track_from_json(raw))
        } else {
            DesktopAnswer::Empty
        },
        _ => DesktopAnswer::Fault,
    }
}

} // verus!
