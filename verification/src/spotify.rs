//! The playback source: the session with its token, and the rules by which
//! one poll goes through its queries. Sending a query is left to the
//! caller; what came back is judged here.
use vstd::prelude::*;
use vstd::utf8::encode_utf8;
use crate::config::{AppConfig, AppConfigModel};
use crate::desktop::{
    desktop_step, DesktopAction, DesktopEvent, DesktopPhase, DesktopPoller, DesktopState,
};
use crate::encoding::{
    base64_encode, base64_standard, parse_with_params, query_fits, url_with_params,
    MAX_ENCODED_CHARS, MAX_QUERY_PAIRS,
};
use crate::text::{clone_opt_text, opt_text, pair_views};
use crate::types::{track_model, AlbumInfo, AppError, ErrorModel, TrackInfo, TrackModel};

verus! {

/// How many seconds before its end a token is renewed.
pub const REFRESH_MARGIN_SECS: u64 = 300;

/// A bearer token of the playback service.
///
/// `expires_in` is in seconds. `obtained_at` is the moment of issue in
/// milliseconds on a clock that never goes back; a token without it counts
/// as expired.
#[derive(Debug, PartialEq, Eq)]
pub struct SpotifyToken {
    pub access_token: String,
    pub token_type: String,
    pub expires_in: u64,
    pub refresh_token: Option<String>,
    pub scope: Option<String>,
    pub obtained_at: Option<u64>,
}

/// Model of a [`SpotifyToken`].
pub struct TokenModel {
    pub access_token: Seq<char>,
    pub token_type: Seq<char>,
    pub expires_in: u64,
    pub refresh_token: Option<Seq<char>>,
    pub scope: Option<Seq<char>>,
    pub obtained_at: Option<u64>,
}

impl View for SpotifyToken {
    type V = TokenModel;

    open spec fn view(&self) -> TokenModel {
        TokenModel {
            access_token: self.access_token@,
            token_type: self.token_type@,
            expires_in: self.expires_in,
            refresh_token: opt_text(self.refresh_token),
            scope: opt_text(self.scope),
            obtained_at: self.obtained_at,
        }
    }
}

impl Clone for SpotifyToken {
    fn clone(&self) -> (r: Self)
        ensures
            r@ == self@,
    {
        SpotifyToken {
            access_token: self.access_token.clone(),
            token_type: self.token_type.clone(),
            expires_in: self.expires_in,
            refresh_token: clone_opt_text(&self.refresh_token),
            scope: clone_opt_text(&self.scope),
            obtained_at: self.obtained_at,
        }
    }
}

/// The whole seconds from `since` to `now`, both in milliseconds; 0 where
/// `now` is the earlier.
pub open spec fn elapsed_secs(since: u64, now: u64) -> int {
    if now >= since {
        (now - since) / 1000
    } else {
        0
    }
}

/// Whether a token issued at `obtained_at` for `expires_in` seconds is due
/// for renewal at `now`: its age exceeds its lifetime less the margin. A
/// token that lasts less than the margin is due at every age, and so is one
/// without a time of issue.
pub open spec fn due_for_refresh(expires_in: u64, obtained_at: Option<u64>, now: u64) -> bool {
    match obtained_at {
        Some(since) => expires_in < REFRESH_MARGIN_SECS || elapsed_secs(since, now) > expires_in
            - REFRESH_MARGIN_SECS,
        None => true,
    }
}

/// A token that is not due has a time of issue, lasts at least the margin,
/// and is no older than its lifetime less the margin; and a token that is
/// due stays due as time goes on.
pub proof fn lemma_due_for_refresh(expires_in: u64, since: u64, now: u64, later: u64)
    requires
        now <= later,
    ensures
        !due_for_refresh(expires_in, Some(since), now) ==> expires_in >= REFRESH_MARGIN_SECS
            && elapsed_secs(since, now) + REFRESH_MARGIN_SECS <= expires_in,
        due_for_refresh(expires_in, Some(since), now) ==> due_for_refresh(
            expires_in,
            Some(since),
            later,
        ),
{
}

impl SpotifyToken {
    /// Whether the token is due for renewal at `now`, in milliseconds on
    /// the clock of `obtained_at`.
    pub fn is_expired(&self, now: u64) -> (r: bool)
        ensures
            r == due_for_refresh(self.expires_in, self.obtained_at, now),
    {
        match self.obtained_at {
            Some(since) => {
                let elapsed = if now >= since {
                    (now - since) / 1000
                } else {
                    0
                };
                self.expires_in < REFRESH_MARGIN_SECS || elapsed > self.expires_in
                    - REFRESH_MARGIN_SECS
            },
            None => true,
        }
    }
}

/// A track as the playback service describes it.
#[derive(Debug, PartialEq, Eq)]
pub struct SpotifyTrack {
    pub id: String,
    pub name: String,
    /// The names of the artists, in the order given.
    pub artists: Vec<String>,
    pub album: AlbumInfo,
    pub duration_ms: u64,
}

/// The texts joined, with `separator` between each two.
pub open spec fn joined(texts: Seq<Seq<char>>, separator: Seq<char>) -> Seq<char>
    decreases texts.len(),
{
    if texts.len() == 0 {
        Seq::empty()
    } else if texts.len() == 1 {
        texts[0]
    } else {
        joined(texts.drop_last(), separator) + separator + texts.last()
    }
}

/// The texts joined, with `separator` between each two.
pub fn join(texts: &Vec<String>, separator: &str) -> (r: String)
    ensures
        r@ == joined(crate::text::text_views(texts@), separator@),
{
    let ghost tv = crate::text::text_views(texts@);
    let mut out = String::new();
    let mut i: usize = 0;
    assert(tv.subrange(0, 0) =~= Seq::<Seq<char>>::empty());
    while i < texts.len()
        invariant
            i <= texts.len(),
            tv == crate::text::text_views(texts@),
            out@ == joined(tv.subrange(0, i as int), separator@),
        decreases texts.len() - i,
    {
        let ghost next = tv.subrange(0, i + 1);
        proof {
            assert(next.drop_last() =~= tv.subrange(0, i as int));
            assert(next.last() == texts@[i as int]@);
        }
        if i > 0 {
            out.append(separator);
        } else {
            proof {
                assert(out@ =~= Seq::<char>::empty());
                assert(next[0] == texts@[0]@);
            }
        }
        out.append(texts[i].as_str());
        proof {
            if i == 0 {
                assert(out@ =~= next[0]);
            }
        }
        i += 1;
    }
    assert(tv.subrange(0, tv.len() as int) =~= tv);
    out
}

/// The snapshot of a track with its playing state and position: the names
/// of the artists joined by a comma and a space.
pub open spec fn track_snapshot(
    id: Seq<char>,
    name: Seq<char>,
    artists: Seq<Seq<char>>,
    album: crate::types::AlbumModel,
    duration_ms: u64,
    is_playing: bool,
    progress_ms: u64,
) -> TrackModel {
    TrackModel {
        id: id,
        name: name,
        artist: joined(artists, ", "@),
        album: album,
        duration_ms: duration_ms,
        is_playing: is_playing,
        progress_ms: progress_ms,
    }
}

/// The snapshot of a track with its playing state and position; a position
/// that is not given counts as 0.
pub fn convert_track_info(track: SpotifyTrack, is_playing: bool, progress_ms: Option<u64>) -> (r:
    TrackInfo)
    ensures
        r@ == track_snapshot(
            track.id@,
            track.name@,
            crate::text::text_views(track.artists@),
            track.album@,
            track.duration_ms,
            is_playing,
            match progress_ms {
                Some(p) => p,
                None => 0,
            },
        ),
{
    let artist = join(&track.artists, ", ");
    TrackInfo {
        id: track.id,
        name: track.name,
        artist,
        album: track.album,
        duration_ms: track.duration_ms,
        is_playing,
        progress_ms: match progress_ms {
            Some(p) => p,
            None => 0,
        },
    }
}

/// Model of a [`SpotifyTrack`].
pub struct TrackPayload {
    pub id: Seq<char>,
    pub name: Seq<char>,
    pub artists: Seq<Seq<char>>,
    pub album: crate::types::AlbumModel,
    pub duration_ms: u64,
}

impl View for SpotifyTrack {
    type V = TrackPayload;

    open spec fn view(&self) -> TrackPayload {
        TrackPayload {
            id: self.id@,
            name: self.name@,
            artists: crate::text::text_views(self.artists@),
            album: self.album@,
            duration_ms: self.duration_ms,
        }
    }
}

/// Model of an optional track payload.
pub open spec fn payload_of(item: Option<SpotifyTrack>) -> Option<TrackPayload> {
    match item {
        Some(t) => Some(t@),
        None => None,
    }
}

/// The queries of a poll, in the order in which they are tried.
#[derive(Debug, Clone, Copy, PartialEq, Eq, Structural)]
pub enum Strategy {
    /// The current-item query, with market and item types.
    CurrentlyPlaying,
    /// The full player-state query.
    PlayerState,
    /// The most recent item of the play history.
    RecentlyPlayed,
}

/// What one query gave.
#[derive(Debug, PartialEq, Eq)]
pub enum StrategyOutcome {
    /// A track.
    Found(TrackInfo),
    /// A valid answer without a track: nothing is playing.
    Empty,
    /// The token was refused.
    Unauthorized,
    /// The query failed: it could not be sent, timed out, was answered with
    /// an unexpected status, or its body could not be read.
    Fault,
}

/// Model of a [`StrategyOutcome`].
pub enum OutcomeModel {
    Found(TrackModel),
    Empty,
    Unauthorized,
    Fault,
}

impl View for StrategyOutcome {
    type V = OutcomeModel;

    open spec fn view(&self) -> OutcomeModel {
        match self {
            StrategyOutcome::Found(t) => OutcomeModel::Found(t@),
            StrategyOutcome::Empty => OutcomeModel::Empty,
            StrategyOutcome::Unauthorized => OutcomeModel::Unauthorized,
            StrategyOutcome::Fault => OutcomeModel::Fault,
        }
    }
}

/// The status of an answer with a body.
pub const STATUS_OK: u16 = 200;

/// The status of an answer without content.
pub const STATUS_NO_CONTENT: u16 = 204;

/// The status of an answer that refuses the token.
pub const STATUS_UNAUTHORIZED: u16 = 401;

/// What an answer without a usable track stands for, by its status.
pub open spec fn outcome_of_status(status: u16) -> OutcomeModel {
    if status == STATUS_OK || status == STATUS_NO_CONTENT {
        OutcomeModel::Empty
    } else if status == STATUS_UNAUTHORIZED {
        OutcomeModel::Unauthorized
    } else {
        OutcomeModel::Fault
    }
}

/// What an answer without a usable track stands for, by its status.
fn classify_status(status: u16) -> (r: StrategyOutcome)
    ensures
        r@ == outcome_of_status(status),
{
    if status == STATUS_OK || status == STATUS_NO_CONTENT {
        StrategyOutcome::Empty
    } else if status == STATUS_UNAUTHORIZED {
        StrategyOutcome::Unauthorized
    } else {
        StrategyOutcome::Fault
    }
}

/// What the current-item query gave, from the status of the answer and, for
/// an answer with a body, the item, the playing state and the position that
/// it names.
pub open spec fn currently_playing_outcome(
    status: u16,
    item: Option<TrackPayload>,
    is_playing: bool,
    progress_ms: Option<u64>,
) -> OutcomeModel {
    if status == STATUS_OK && item is Some {
        let t = item->0;
        OutcomeModel::Found(
            track_snapshot(
                t.id,
                t.name,
                t.artists,
                t.album,
                t.duration_ms,
                is_playing,
                match progress_ms {
                    Some(p) => p,
                    None => 0,
                },
            ),
        )
    } else {
        outcome_of_status(status)
    }
}

/// Judges the answer to the current-item query.
pub fn try_currently_playing_enhanced(
    status: u16,
    item: Option<SpotifyTrack>,
    is_playing: bool,
    progress_ms: Option<u64>,
) -> (r: StrategyOutcome)
    ensures
        r@ == currently_playing_outcome(status, payload_of(item), is_playing, progress_ms),
{
    if status == STATUS_OK {
        if let Some(track) = item {
            return StrategyOutcome::Found(convert_track_info(track, is_playing, progress_ms));
        }
    }
    classify_status(status)
}

/// What the player-state query gave: as for the current-item query, with a
/// playing state that counts as paused where it is not given.
pub open spec fn player_outcome(
    status: u16,
    item: Option<TrackPayload>,
    is_playing: Option<bool>,
    progress_ms: Option<u64>,
) -> OutcomeModel {
    currently_playing_outcome(
        status,
        item,
        match is_playing {
            Some(p) => p,
            None => false,
        },
        progress_ms,
    )
}

/// Judges the answer to the player-state query.
pub fn try_player_endpoint(
    status: u16,
    item: Option<SpotifyTrack>,
    is_playing: Option<bool>,
    progress_ms: Option<u64>,
) -> (r: StrategyOutcome)
    ensures
        r@ == player_outcome(status, payload_of(item), is_playing, progress_ms),
{
    let playing = match is_playing {
        Some(p) => p,
        None => false,
    };
    try_currently_playing_enhanced(status, item, playing, progress_ms)
}

/// What the play-history query gave: its most recent track, marked in its
/// name, not playing and at position 0. Any answer without a track is empty
/// or a fault; a refused token counts as a fault here.
pub open spec fn recently_played_outcome(status: u16, item: Option<TrackPayload>) -> OutcomeModel {
    if status == STATUS_OK && item is Some {
        let t = item->0;
        OutcomeModel::Found(
            track_snapshot(
                t.id,
                t.name + " (Recently Played)"@,
                t.artists,
                t.album,
                t.duration_ms,
                false,
                0,
            ),
        )
    } else if status == STATUS_OK || status == STATUS_NO_CONTENT {
        OutcomeModel::Empty
    } else {
        OutcomeModel::Fault
    }
}

/// Judges the answer to the play-history query.
pub fn try_recently_played(status: u16, item: Option<SpotifyTrack>) -> (r: StrategyOutcome)
    ensures
        r@ == recently_played_outcome(status, payload_of(item)),
{
    if status == STATUS_OK {
        if let Some(track) = item {
            let marked = SpotifyTrack {
                id: track.id,
                name: track.name.concat(" (Recently Played)"),
                artists: track.artists,
                album: track.album,
                duration_ms: track.duration_ms,
            };
            return StrategyOutcome::Found(convert_track_info(marked, false, Some(0)));
        }
    }
    if status == STATUS_OK || status == STATUS_NO_CONTENT {
        StrategyOutcome::Empty
    } else {
        StrategyOutcome::Fault
    }
}

/// How many of the flags are set.
pub open spec fn count_set(flags: Seq<bool>) -> nat
    decreases flags.len(),
{
    if flags.len() == 0 {
        0
    } else {
        count_set(flags.drop_last()) + (if flags.last() {
            1nat
        } else {
            0nat
        })
    }
}

/// What the device list says.
#[derive(Debug, Clone, Copy, PartialEq, Eq, Structural)]
pub enum DeviceReport {
    /// The list could not be had.
    Unavailable,
    /// There is no device.
    NoDevices,
    /// There are `total` devices, `active` of them active.
    Devices { total: usize, active: usize },
}

/// What the device list says, from the status of the answer and the active
/// flag of each device.
pub open spec fn device_report(status: u16, active_flags: Option<Seq<bool>>) -> DeviceReport {
    if status == STATUS_OK && active_flags is Some {
        let flags = active_flags->0;
        if flags.len() == 0 {
            DeviceReport::NoDevices
        } else {
            DeviceReport::Devices { total: flags.len() as usize, active: count_set(flags) as usize }
        }
    } else {
        DeviceReport::Unavailable
    }
}

/// Model of an optional list of flags.
pub open spec fn flags_of(flags: Option<Vec<bool>>) -> Option<Seq<bool>> {
    match flags {
        Some(v) => Some(v@),
        None => None,
    }
}

/// Judges the answer to the device query, for the operator's log.
pub fn check_devices_status(status: u16, active_flags: &Option<Vec<bool>>) -> (r: DeviceReport)
    ensures
        r == device_report(status, flags_of(*active_flags)),
{
    if status != STATUS_OK {
        return DeviceReport::Unavailable;
    }
    match active_flags {
        Some(flags) => {
            if flags.len() == 0 {
                return DeviceReport::NoDevices;
            }
            let mut active: usize = 0;
            let mut i: usize = 0;
            assert(flags@.subrange(0, 0) =~= Seq::<bool>::empty());
            while i < flags.len()
                invariant
                    i <= flags.len(),
                    active == count_set(flags@.subrange(0, i as int)),
                    active <= i,
                decreases flags.len() - i,
            {
                assert(flags@.subrange(0, i + 1).drop_last() =~= flags@.subrange(0, i as int));
                if flags[i] {
                    active += 1;
                }
                i += 1;
            }
            assert(flags@.subrange(0, flags.len() as int) =~= flags@);
            DeviceReport::Devices { total: flags.len(), active }
        },
        None => DeviceReport::Unavailable,
    }
}

/// Where a poll stands.
#[derive(Debug, Clone, Copy, PartialEq, Eq, Structural)]
pub enum PollPhase {
    /// No poll is under way.
    Idle,
    /// The token is being renewed before the first query.
    Refreshing,
    /// A query has been sent.
    Querying(Strategy),
    /// The token is being renewed after a query was refused.
    Reauthorizing,
    /// The device list has been asked for.
    Diagnosing,
}

/// What the caller reports to a poll.
#[derive(Debug, PartialEq, Eq)]
pub enum PollEvent {
    /// A new poll begins at `now`, in milliseconds on the token's clock.
    Begin { now: u64 },
    /// The renewal of the token has ended, with the error if it failed.
    Refreshed(Option<AppError>),
    /// A query has been answered.
    Answer(StrategyOutcome),
    /// The device list has been judged.
    Devices(DeviceReport),
}

/// What a poll asks the caller to do next.
#[derive(Debug, PartialEq, Eq)]
pub enum PollAction {
    /// Renew the token and report `Refreshed`.
    Refresh,
    /// Send this query and report `Answer`.
    Query(Strategy),
    /// Ask for the device list and report `Devices`.
    QueryDevices,
    /// The poll has ended with a track.
    Track(TrackInfo),
    /// The poll has ended without a track. The report of the devices is
    /// there where they were asked for.
    Nothing(Option<DeviceReport>),
    /// The poll has ended with a fault of authentication.
    Failed(AppError),
}

/// Model of a [`PollEvent`].
pub enum EventModel {
    Begin { now: u64 },
    Refreshed(Option<ErrorModel>),
    Answer(OutcomeModel),
    Devices(DeviceReport),
}

/// Model of a [`PollAction`].
pub enum ActionModel {
    Refresh,
    Query(Strategy),
    QueryDevices,
    Track(TrackModel),
    Nothing(Option<DeviceReport>),
    Failed(ErrorModel),
}

impl View for PollEvent {
    type V = EventModel;

    open spec fn view(&self) -> EventModel {
        match self {
            PollEvent::Begin { now } => EventModel::Begin { now: *now },
            PollEvent::Refreshed(e) => EventModel::Refreshed(
                match e {
                    Some(e) => Some(e@),
                    None => None,
                },
            ),
            PollEvent::Answer(o) => EventModel::Answer(o@),
            PollEvent::Devices(d) => EventModel::Devices(*d),
        }
    }
}

impl View for PollAction {
    type V = ActionModel;

    open spec fn view(&self) -> ActionModel {
        match self {
            PollAction::Refresh => ActionModel::Refresh,
            PollAction::Query(s) => ActionModel::Query(*s),
            PollAction::QueryDevices => ActionModel::QueryDevices,
            PollAction::Track(t) => ActionModel::Track(t@),
            PollAction::Nothing(d) => ActionModel::Nothing(*d),
            PollAction::Failed(e) => ActionModel::Failed(e@),
        }
    }
}

/// The state of the session at the start of a poll.
#[derive(Debug, Clone, Copy, PartialEq, Eq, Structural)]
pub enum SessionState {
    /// There is no token.
    Unauthenticated,
    /// There is a token and it is not yet due for renewal.
    Valid,
    /// There is a token and it is due for renewal.
    Expired,
}

/// The state of a session with this token at `now`.
pub open spec fn session_state_of(token: Option<TokenModel>, now: u64) -> SessionState {
    match token {
        None => SessionState::Unauthenticated,
        Some(t) => if due_for_refresh(t.expires_in, t.obtained_at, now) {
            SessionState::Expired
        } else {
            SessionState::Valid
        },
    }
}

/// The time at which a poll begins, for the report of a beginning.
pub open spec fn begin_time(event: EventModel) -> u64 {
    match event {
        EventModel::Begin { now } => now,
        _ => 0,
    }
}

/// The query that is tried after `strategy` has given nothing, where there
/// is one.
pub open spec fn next_strategy(strategy: Strategy) -> Option<Strategy> {
    match strategy {
        Strategy::CurrentlyPlaying => Some(Strategy::PlayerState),
        Strategy::PlayerState => Some(Strategy::RecentlyPlayed),
        Strategy::RecentlyPlayed => None,
    }
}

/// Whether a refused token is answered with a renewal after this query.
pub open spec fn renews_when_refused(strategy: Strategy) -> bool {
    strategy != Strategy::RecentlyPlayed
}

/// The step of a poll: the phase that follows and what the caller is to do.
///
/// A poll begins whatever was under way. Before the first query a token
/// that is due is renewed. Each query that gives a track ends the poll;
/// each that gives none leads to the next, and the last to the device list,
/// which ends the poll without a track. A refused token is renewed once and
/// the poll then ends without a track. A failed renewal ends the poll with
/// its error. A report that the phase does not wait for ends the poll
/// without a track.
pub open spec fn poll_step(phase: PollPhase, session: SessionState, event: EventModel) -> (
    PollPhase,
    ActionModel,
) {
    match event {
        EventModel::Begin { now } => match session {
            SessionState::Unauthenticated => (
                PollPhase::Idle,
                ActionModel::Failed(ErrorModel::Config("No token available"@)),
            ),
            SessionState::Expired => (PollPhase::Refreshing, ActionModel::Refresh),
            SessionState::Valid => (
                PollPhase::Querying(Strategy::CurrentlyPlaying),
                ActionModel::Query(Strategy::CurrentlyPlaying),
            ),
        },
        EventModel::Refreshed(error) => match phase {
            PollPhase::Refreshing => match error {
                None => (
                    PollPhase::Querying(Strategy::CurrentlyPlaying),
                    ActionModel::Query(Strategy::CurrentlyPlaying),
                ),
                Some(e) => (PollPhase::Idle, ActionModel::Failed(e)),
            },
            PollPhase::Reauthorizing => match error {
                None => (PollPhase::Idle, ActionModel::Nothing(None)),
                Some(e) => (PollPhase::Idle, ActionModel::Failed(e)),
            },
            _ => (PollPhase::Idle, ActionModel::Nothing(None)),
        },
        EventModel::Answer(outcome) => match phase {
            PollPhase::Querying(strategy) => match outcome {
                OutcomeModel::Found(t) => (PollPhase::Idle, ActionModel::Track(t)),
                OutcomeModel::Unauthorized if renews_when_refused(strategy) => (
                    PollPhase::Reauthorizing,
                    ActionModel::Refresh,
                ),
                _ => match next_strategy(strategy) {
                    Some(next) => (PollPhase::Querying(next), ActionModel::Query(next)),
                    None => (PollPhase::Diagnosing, ActionModel::QueryDevices),
                },
            },
            _ => (PollPhase::Idle, ActionModel::Nothing(None)),
        },
        EventModel::Devices(report) => match phase {
            PollPhase::Diagnosing => (PollPhase::Idle, ActionModel::Nothing(Some(report))),
            _ => (PollPhase::Idle, ActionModel::Nothing(None)),
        },
    }
}

/// How many reports a poll in this phase can still wait for.
pub open spec fn steps_left(phase: PollPhase) -> nat {
    match phase {
        PollPhase::Idle => 0,
        PollPhase::Reauthorizing => 1,
        PollPhase::Diagnosing => 1,
        PollPhase::Querying(Strategy::RecentlyPlayed) => 2,
        PollPhase::Querying(Strategy::PlayerState) => 3,
        PollPhase::Querying(Strategy::CurrentlyPlaying) => 4,
        PollPhase::Refreshing => 5,
    }
}

/// Whether an action ends the poll.
pub open spec fn ends_poll(action: ActionModel) -> bool {
    action is Track || action is Nothing || action is Failed
}

/// Every report but the beginning brings a poll nearer to its end, and the
/// poll has ended exactly when the action says so: a poll takes at most six
/// actions of the caller, of which at most two renew the token. After the
/// renewal that follows a refused token the poll ends, whatever came of it.
pub proof fn lemma_poll_bounded(phase: PollPhase, session: SessionState, event: EventModel)
    ensures
        ends_poll(poll_step(phase, session, event).1) <==> poll_step(phase, session, event).0
            is Idle,
        !(event is Begin) && !(phase is Idle) ==> steps_left(poll_step(phase, session, event).0)
            < steps_left(phase),
        event is Begin ==> steps_left(poll_step(phase, session, event).0) <= 5,
        poll_step(phase, session, event).1 is Refresh ==> poll_step(phase, session, event).0
            is Refreshing || poll_step(phase, session, event).0 is Reauthorizing,
        !(event is Begin) ==> poll_step(PollPhase::Reauthorizing, session, event).0 is Idle,
{
}

/// The client of the playback service: the configuration, the session,
/// the poll under way, and what is remembered between polls.
#[derive(Debug)]
pub struct SpotifyClient {
    config: AppConfig,
    token: Option<SpotifyToken>,
    user_country: Option<String>,
    phase: PollPhase,
    desktop: DesktopPoller,
    last_track_id: Option<String>,
}

/// Model of a [`SpotifyClient`].
pub struct ClientModel {
    pub config: AppConfigModel,
    /// The token of the session, if there is one.
    pub token: Option<TokenModel>,
    /// The market of the user, once known.
    pub country: Option<Seq<char>>,
    /// The phase of the poll under way.
    pub phase: PollPhase,
    /// What is remembered of a desktop player.
    pub desktop: DesktopState,
    /// The phase of the poll of a desktop player under way.
    pub desktop_phase: DesktopPhase,
    /// The identity of the track that the last poll of a row found.
    pub last_track_id: Option<Seq<char>>,
}

/// Model of an optional token.
pub open spec fn token_of(token: Option<SpotifyToken>) -> Option<TokenModel> {
    match token {
        Some(t) => Some(t@),
        None => None,
    }
}

impl SpotifyClient {
    /// The model of the client.
    pub closed spec fn view(&self) -> ClientModel {
        ClientModel {
            config: self.config@,
            token: token_of(self.token),
            country: opt_text(self.user_country),
            phase: self.phase,
            desktop: self.desktop.state(),
            desktop_phase: self.desktop.phase(),
            last_track_id: opt_text(self.last_track_id),
        }
    }

    /// The configuration.
    pub open spec fn config(&self) -> AppConfigModel {
        self@.config
    }

    /// The token of the session, if there is one.
    pub open spec fn token(&self) -> Option<TokenModel> {
        self@.token
    }

    /// The market of the user, once known.
    pub open spec fn country(&self) -> Option<Seq<char>> {
        self@.country
    }

    /// The phase of the poll under way.
    pub open spec fn phase(&self) -> PollPhase {
        self@.phase
    }

    /// A client without a session.
    pub fn new(config: AppConfig) -> (r: Self)
        ensures
            r@ == (ClientModel {
                config: config@,
                token: None,
                country: None,
                phase: PollPhase::Idle,
                desktop: DesktopState {
                    is_warmed_up: false,
                    last_successful_call: None,
                    consecutive_204s: 0,
                },
                desktop_phase: DesktopPhase::Idle,
                last_track_id: None,
            }),
    {
        SpotifyClient {
            config,
            token: None,
            user_country: None,
            phase: PollPhase::Idle,
            desktop: DesktopPoller::new(),
            last_track_id: None,
        }
    }

    /// The state of the session at `now`.
    pub fn session_state(&self, now: u64) -> (r: SessionState)
        ensures
            r == session_state_of(self.token(), now),
    {
        match &self.token {
            None => SessionState::Unauthenticated,
            Some(t) => if t.is_expired(now) {
                SessionState::Expired
            } else {
                SessionState::Valid
            },
        }
    }

    /// A copy of the token, to be written to the backing store.
    pub fn current_token(&self) -> (r: Option<SpotifyToken>)
        ensures
            token_of(r) == self.token(),
    {
        match &self.token {
            Some(t) => Some(t.clone()),
            None => None,
        }
    }

    /// Takes one step of a poll: `event` is what the caller reports, the
    /// result what it is to do next.
    pub fn get_current_track(&mut self, event: PollEvent) -> (r: PollAction)
        ensures
            (final(self).phase(), r@) == poll_step(
                old(self).phase(),
                session_state_of(old(self).token(), begin_time(event@)),
                event@,
            ),
            final(self)@ == (ClientModel { phase: final(self).phase(), ..old(self)@ }),
    {
        let (phase, action) = match event {
            PollEvent::Begin { now } => match self.session_state(now) {
                SessionState::Unauthenticated => (
                    PollPhase::Idle,
                    PollAction::Failed(AppError::Config(String::from_str("No token available"))),
                ),
                SessionState::Expired => (PollPhase::Refreshing, PollAction::Refresh),
                SessionState::Valid => (
                    PollPhase::Querying(Strategy::CurrentlyPlaying),
                    PollAction::Query(Strategy::CurrentlyPlaying),
                ),
            },
            PollEvent::Refreshed(error) => match self.phase {
                PollPhase::Refreshing => match error {
                    None => (
                        PollPhase::Querying(Strategy::CurrentlyPlaying),
                        PollAction::Query(Strategy::CurrentlyPlaying),
                    ),
                    Some(e) => (PollPhase::Idle, PollAction::Failed(e)),
                },
                PollPhase::Reauthorizing => match error {
                    None => (PollPhase::Idle, PollAction::Nothing(None)),
                    Some(e) => (PollPhase::Idle, PollAction::Failed(e)),
                },
                _ => (PollPhase::Idle, PollAction::Nothing(None)),
            },
            PollEvent::Answer(outcome) => match self.phase {
                PollPhase::Querying(strategy) => match outcome {
                    StrategyOutcome::Found(t) => (PollPhase::Idle, PollAction::Track(t)),
                    StrategyOutcome::Unauthorized => match strategy {
                        Strategy::RecentlyPlayed => (
                            PollPhase::Diagnosing,
                            PollAction::QueryDevices,
                        ),
                        _ => (PollPhase::Reauthorizing, PollAction::Refresh),
                    },
                    _ => match strategy {
                        Strategy::CurrentlyPlaying => (
                            PollPhase::Querying(Strategy::PlayerState),
                            PollAction::Query(Strategy::PlayerState),
                        ),
                        Strategy::PlayerState => (
                            PollPhase::Querying(Strategy::RecentlyPlayed),
                            PollAction::Query(Strategy::RecentlyPlayed),
                        ),
                        Strategy::RecentlyPlayed => (
                            PollPhase::Diagnosing,
                            PollAction::QueryDevices,
                        ),
                    },
                },
                _ => (PollPhase::Idle, PollAction::Nothing(None)),
            },
            PollEvent::Devices(report) => match self.phase {
                PollPhase::Diagnosing => (PollPhase::Idle, PollAction::Nothing(Some(report))),
                _ => (PollPhase::Idle, PollAction::Nothing(None)),
            },
        };
        self.phase = phase;
        action
    }

    /// Takes one step of a poll of a desktop player: `event` is what the
    /// caller reports, the result what it is to do next.
    pub fn get_current_track_desktop(&mut self, event: DesktopEvent) -> (r: DesktopAction)
        ensures
            (final(self)@.desktop, final(self)@.desktop_phase, r@) == desktop_step(
                old(self)@.desktop,
                old(self)@.desktop_phase,
                event@,
            ),
            final(self)@ == (ClientModel {
                desktop: final(self)@.desktop,
                desktop_phase: final(self)@.desktop_phase,
                ..old(self)@
            }),
    {
        self.desktop.step(event)
    }

    /// What is remembered of a desktop player.
    pub fn desktop_state(&self) -> (r: DesktopState)
        ensures
            r == self@.desktop,
    {
        self.desktop.desktop_state()
    }

    /// The position to which the player is to seek so that it reports its
    /// state anew: the one it names itself, where its state could be read.
    pub fn force_player_refresh(status: u16, progress_ms: Option<u64>) -> (r: Option<u64>)
        ensures
            r == (if status == STATUS_OK {
                progress_ms
            } else {
                None
            }),
    {
        if status == STATUS_OK {
            progress_ms
        } else {
            None
        }
    }

    /// Takes in the result of one poll in a row of polls, and says whether
    /// the track has changed since the last one. The identity that is
    /// remembered follows the track.
    pub fn start_polling(&mut self, current: &Option<TrackInfo>) -> (r: bool)
        ensures
            r == is_track_change(track_model(*current), old(self)@.last_track_id),
            final(self)@ == (ClientModel {
                last_track_id: match *current {
                    Some(t) => Some(t@.id),
                    None => None,
                },
                ..old(self)@
            }),
    {
        let changed = track_changed(current, &self.last_track_id);
        if changed {
            self.last_track_id = match current {
                Some(t) => Some(t.id.clone()),
                None => None,
            };
        }
        changed
    }
}

/// A request to the token endpoint: the value of its authorization header
/// and the fields of its form, in order.
#[derive(Debug, PartialEq, Eq)]
pub struct TokenRequest {
    pub authorization: String,
    pub params: Vec<(String, String)>,
}

/// Model of a [`TokenRequest`].
pub struct TokenRequestModel {
    pub authorization: Seq<char>,
    pub params: Seq<(Seq<char>, Seq<char>)>,
}

impl View for TokenRequest {
    type V = TokenRequestModel;

    open spec fn view(&self) -> TokenRequestModel {
        TokenRequestModel { authorization: self.authorization@, params: pair_views(self.params@) }
    }
}

/// What the token endpoint answered.
#[derive(Debug, PartialEq, Eq)]
pub enum TokenReply {
    /// A token, as decoded from the body of a successful answer.
    Granted(SpotifyToken),
    /// An answer with a status other than success, with the text that
    /// describes it.
    Rejected { status: u16, text: String },
}

/// Whether a rejection is final: the service has refused the request
/// itself, so that asking again cannot help.
pub open spec fn is_final_rejection(status: u16) -> bool {
    400 <= status < 500
}

/// The credentials of the client as one text: identifier, colon, secret.
pub open spec fn credentials(config: AppConfigModel) -> Seq<char> {
    config.spotify.client_id + ":"@ + config.spotify.client_secret
}

/// The value of the authorization header that carries the credentials, or
/// `None` where they are longer than `MAX_ENCODED_CHARS`.
pub open spec fn basic_authorization(config: AppConfigModel) -> Option<Seq<char>> {
    if credentials(config).len() <= MAX_ENCODED_CHARS {
        Some("Basic "@ + base64_standard(encode_utf8(credentials(config))))
    } else {
        None
    }
}

/// The request that renews a token, or the error that stands in its way.
pub open spec fn refresh_request(
    config: AppConfigModel,
    token: Option<TokenModel>,
) -> Result<TokenRequestModel, ErrorModel> {
    if token is None {
        Err(ErrorModel::Config("No token to refresh"@))
    } else if token->0.refresh_token is None {
        Err(ErrorModel::Config("No refresh token available"@))
    } else if basic_authorization(config) is None {
        Err(ErrorModel::Config("Credentials too long"@))
    } else {
        Ok(
            TokenRequestModel {
                authorization: basic_authorization(config)->0,
                params: seq![
                    ("grant_type"@, "refresh_token"@),
                    ("refresh_token"@, token->0.refresh_token->0),
                ],
            },
        )
    }
}

/// The request that exchanges an authorization code for a token, or the
/// error that stands in its way.
pub open spec fn exchange_request(config: AppConfigModel, code: Seq<char>) -> Result<
    TokenRequestModel,
    ErrorModel,
> {
    if basic_authorization(config) is None {
        Err(ErrorModel::Config("Credentials too long"@))
    } else {
        Ok(
            TokenRequestModel {
                authorization: basic_authorization(config)->0,
                params: seq![
                    ("grant_type"@, "authorization_code"@),
                    ("code"@, code),
                    ("redirect_uri"@, config.spotify.redirect_uri),
                ],
            },
        )
    }
}

/// The token that a session holds after a renewal at `now`: the one
/// granted, issued at `now`, with the refresh token of the session where
/// the grant names none.
pub open spec fn renewed_token(held: Option<TokenModel>, granted: TokenModel, now: u64) -> TokenModel {
    TokenModel {
        access_token: granted.access_token,
        token_type: granted.token_type,
        expires_in: granted.expires_in,
        refresh_token: if granted.refresh_token is Some {
            granted.refresh_token
        } else {
            match held {
                Some(t) => t.refresh_token,
                None => None,
            }
        },
        scope: granted.scope,
        obtained_at: Some(now),
    }
}

/// Model of a [`TokenReply`].
pub enum TokenReplyModel {
    Granted(TokenModel),
    Rejected { status: u16, text: Seq<char> },
}

impl View for TokenReply {
    type V = TokenReplyModel;

    open spec fn view(&self) -> TokenReplyModel {
        match self {
            TokenReply::Granted(t) => TokenReplyModel::Granted(t@),
            TokenReply::Rejected { status, text } => TokenReplyModel::Rejected {
                status: *status,
                text: text@,
            },
        }
    }
}

/// What the user query said of the token with which a session starts.
#[derive(Debug, PartialEq, Eq)]
pub enum UserCheck {
    /// The token is accepted; the market of the user where the answer names
    /// it.
    Confirmed(Option<String>),
    /// The token is not accepted.
    Rejected,
}

/// The address of the service.
pub open spec fn api_base() -> Seq<char> {
    "https://api.spotify.com/v1/me/player"@
}

/// The market that queries name: that of the user, or the one the token
/// implies.
pub open spec fn market_of(country: Option<Seq<char>>) -> Seq<char> {
    match country {
        Some(c) => c,
        None => "from_token"@,
    }
}

/// The URL of a query.
pub open spec fn query_url(strategy: Strategy, country: Option<Seq<char>>) -> Seq<char> {
    match strategy {
        Strategy::CurrentlyPlaying => api_base() + "/currently-playing?market="@ + market_of(
            country,
        ) + "&additional_types=track,episode"@,
        Strategy::PlayerState => api_base() + "?market="@ + market_of(country)
            + "&additional_types=track,episode"@,
        Strategy::RecentlyPlayed => api_base() + "/recently-played?limit=1"@,
    }
}

/// A URL with pairs added to its query, or `None` where the URL does not
/// parse or the texts are too many or too long.
pub open spec fn with_query(url: Seq<char>, pairs: Seq<(Seq<char>, Seq<char>)>) -> Option<
    Seq<char>,
> {
    if query_fits(url, pairs) {
        url_with_params(url, pairs)
    } else {
        None
    }
}

/// The URL at which the user grants access: the address of the
/// authorization page with the client, the kind of grant, the address to
/// return to and the scopes asked for.
pub open spec fn authorization_url(config: AppConfigModel) -> Option<Seq<char>> {
    with_query(
        "https://accounts.spotify.com/authorize"@,
        seq![
            ("client_id"@, config.spotify.client_id),
            ("response_type"@, "code"@),
            ("redirect_uri"@, config.spotify.redirect_uri),
            (
                "scope"@,
                "user-read-playback-state user-read-currently-playing user-read-recently-played"@,
            ),
        ],
    )
}

/// A URL with pairs added to its query.
fn add_query(url: &str, pairs: &Vec<(String, String)>) -> (r: Option<String>)
    ensures
        opt_text(r) == with_query(url@, pair_views(pairs@)),
{
    if url.unicode_len() > MAX_ENCODED_CHARS || pairs.len() > MAX_QUERY_PAIRS {
        return None;
    }
    let ghost pv = pair_views(pairs@);
    let mut i: usize = 0;
    while i < pairs.len()
        invariant
            i <= pairs.len(),
            pv == pair_views(pairs@),
            forall|k: int|
                0 <= k < i ==> (#[trigger] pv[k]).0.len() <= MAX_ENCODED_CHARS && pv[k].1.len()
                    <= MAX_ENCODED_CHARS,
        decreases pairs.len() - i,
    {
        assert(pv[i as int] == (pairs@[i as int].0@, pairs@[i as int].1@));
        if pairs[i].0.as_str().unicode_len() > MAX_ENCODED_CHARS
            || pairs[i].1.as_str().unicode_len() > MAX_ENCODED_CHARS {
            return None;
        }
        i += 1;
    }
    match parse_with_params(url, pairs) {
        Ok(text) => Some(text),
        Err(_) => None,
    }
}

/// Whether a poll has found another track than the last one: the identity
/// differs, or a track has come or gone.
pub open spec fn is_track_change(current: Option<TrackModel>, last_id: Option<Seq<char>>) -> bool {
    match (current, last_id) {
        (Some(t), Some(id)) => t.id != id,
        (Some(_), None) => true,
        (None, Some(_)) => true,
        (None, None) => false,
    }
}

/// Whether a poll has found another track than the last one.
pub fn track_changed(current: &Option<TrackInfo>, last_id: &Option<String>) -> (r: bool)
    ensures
        r == is_track_change(track_model(*current), opt_text(*last_id)),
{
    match (current, last_id) {
        (Some(t), Some(id)) => !(t.id == *id),
        (Some(_), None) => true,
        (None, Some(_)) => true,
        (None, None) => false,
    }
}

impl SpotifyClient {
    /// The value of the authorization header that carries the credentials.
    pub fn authorization(&self) -> (r: Option<String>)
        ensures
            opt_text(r) == basic_authorization(self.config()),
    {
        let text = self.config.spotify.client_id.clone().concat(":").concat(
            self.config.spotify.client_secret.as_str(),
        );
        if text.as_str().unicode_len() > MAX_ENCODED_CHARS {
            return None;
        }
        Some(String::from_str("Basic ").concat(base64_encode(text.as_str()).as_str()))
    }

    /// The value of the authorization header that carries the token.
    pub fn bearer(&self) -> (r: Option<String>)
        ensures
            opt_text(r) == match self.token() {
                Some(t) => Some("Bearer "@ + t.access_token),
                None => None,
            },
    {
        match &self.token {
            Some(t) => Some(String::from_str("Bearer ").concat(t.access_token.as_str())),
            None => None,
        }
    }

    /// The URL of a query of a poll.
    pub fn url_of(&self, strategy: Strategy) -> (r: String)
        ensures
            r@ == query_url(strategy, self.country()),
    {
        let market = match &self.user_country {
            Some(c) => c.clone(),
            None => String::from_str("from_token"),
        };
        let base = String::from_str("https://api.spotify.com/v1/me/player");
        match strategy {
            Strategy::CurrentlyPlaying => base.concat("/currently-playing?market=").concat(
                market.as_str(),
            ).concat("&additional_types=track,episode"),
            Strategy::PlayerState => base.concat("?market=").concat(market.as_str()).concat(
                "&additional_types=track,episode",
            ),
            Strategy::RecentlyPlayed => base.concat("/recently-played?limit=1"),
        }
    }

    /// The URL at which the user grants access, or `None` where it cannot
    /// be built.
    pub fn generate_auth_url(&self) -> (r: Option<String>)
        ensures
            opt_text(r) == authorization_url(self.config()),
    {
        let mut pairs: Vec<(String, String)> = Vec::new();
        pairs.push((String::from_str("client_id"), self.config.spotify.client_id.clone()));
        pairs.push((String::from_str("response_type"), String::from_str("code")));
        pairs.push((String::from_str("redirect_uri"), self.config.spotify.redirect_uri.clone()));
        pairs.push(
            (
                String::from_str("scope"),
                String::from_str(
                    "user-read-playback-state user-read-currently-playing user-read-recently-played",
                ),
            ),
        );
        assert(pair_views(pairs@) =~= seq![
            ("client_id"@, self.config().spotify.client_id),
            ("response_type"@, "code"@),
            ("redirect_uri"@, self.config().spotify.redirect_uri),
            (
                "scope"@,
                "user-read-playback-state user-read-currently-playing user-read-recently-played"@,
            ),
        ]);
        add_query("https://accounts.spotify.com/authorize", &pairs)
    }

    /// The request that renews the token.
    pub fn refresh_token(&self) -> (r: Result<TokenRequest, AppError>)
        ensures
            match r {
                Ok(request) => refresh_request(self.config(), self.token()) == Ok::<
                    TokenRequestModel,
                    ErrorModel,
                >(request@),
                Err(e) => refresh_request(self.config(), self.token()) == Err::<
                    TokenRequestModel,
                    ErrorModel,
                >(e@),
            },
    {
        let token = match &self.token {
            Some(t) => t,
            None => {
                return Err(AppError::Config(String::from_str("No token to refresh")));
            },
        };
        let refresh = match &token.refresh_token {
            Some(r) => r,
            None => {
                return Err(AppError::Config(String::from_str("No refresh token available")));
            },
        };
        let authorization = match self.authorization() {
            Some(a) => a,
            None => {
                return Err(AppError::Config(String::from_str("Credentials too long")));
            },
        };
        let mut params: Vec<(String, String)> = Vec::new();
        params.push((String::from_str("grant_type"), String::from_str("refresh_token")));
        params.push((String::from_str("refresh_token"), refresh.clone()));
        let request = TokenRequest { authorization, params };
        assert(request@.params =~= seq![
            ("grant_type"@, "refresh_token"@),
            ("refresh_token"@, refresh@),
        ]);
        Ok(request)
    }

    /// Takes in the answer to a renewal at `now`. A grant becomes the token
    /// of the session, to be written to the backing store. A rejection is
    /// returned as the error; where it is final the session ends, and the
    /// user has to authenticate anew, else the session stays as it is.
    pub fn complete_refresh(&mut self, reply: TokenReply, now: u64) -> (r: Result<(), AppError>)
        ensures
            match reply@ {
                TokenReplyModel::Granted(granted) => r is Ok && final(self)@ == (ClientModel {
                    token: Some(renewed_token(old(self).token(), granted, now)),
                    ..old(self)@
                }),
                TokenReplyModel::Rejected { status, text } => r is Err && r->Err_0@
                    == ErrorModel::Config("Token refresh failed: "@ + text) && final(self)@ == (
                ClientModel {
                    token: if is_final_rejection(status) {
                        None
                    } else {
                        old(self).token()
                    },
                    ..old(self)@
                }),
            },
    {
        match reply {
            TokenReply::Granted(granted) => {
                let refresh_token = match granted.refresh_token {
                    Some(r) => Some(r),
                    None => match &self.token {
                        Some(held) => clone_opt_text(&held.refresh_token),
                        None => None,
                    },
                };
                self.token = Some(
                    SpotifyToken {
                        access_token: granted.access_token,
                        token_type: granted.token_type,
                        expires_in: granted.expires_in,
                        refresh_token,
                        scope: granted.scope,
                        obtained_at: Some(now),
                    },
                );
                Ok(())
            },
            TokenReply::Rejected { status, text } => {
                if 400 <= status && status < 500 {
                    self.token = None;
                }
                Err(
                    AppError::Config(
                        String::from_str("Token refresh failed: ").concat(text.as_str()),
                    ),
                )
            },
        }
    }

    /// The request that exchanges an authorization code for a token.
    pub fn exchange_code_for_token(&self, code: &str) -> (r: Result<TokenRequest, AppError>)
        ensures
            match r {
                Ok(request) => exchange_request(self.config(), code@) == Ok::<
                    TokenRequestModel,
                    ErrorModel,
                >(request@),
                Err(e) => exchange_request(self.config(), code@) == Err::<
                    TokenRequestModel,
                    ErrorModel,
                >(e@),
            },
    {
        let authorization = match self.authorization() {
            Some(a) => a,
            None => {
                return Err(AppError::Config(String::from_str("Credentials too long")));
            },
        };
        let mut params: Vec<(String, String)> = Vec::new();
        params.push((String::from_str("grant_type"), String::from_str("authorization_code")));
        params.push((String::from_str("code"), String::from_str(code)));
        params.push((String::from_str("redirect_uri"), self.config.spotify.redirect_uri.clone()));
        let request = TokenRequest { authorization, params };
        assert(request@.params =~= seq![
            ("grant_type"@, "authorization_code"@),
            ("code"@, code@),
            ("redirect_uri"@, self.config().spotify.redirect_uri),
        ]);
        Ok(request)
    }

    /// Takes in the answer to an exchange at `now` and so ends the
    /// authentication. A grant becomes the token of the session as it is,
    /// issued at `now`; a rejection leaves the session as it is.
    pub fn authenticate(&mut self, reply: TokenReply, now: u64) -> (r: Result<(), AppError>)
        ensures
            match reply@ {
                TokenReplyModel::Granted(granted) => r is Ok && final(self)@ == (ClientModel {
                    token: Some(renewed_token(None, granted, now)),
                    ..old(self)@
                }),
                TokenReplyModel::Rejected { status, text } => {
                    &&& r is Err
                    &&& r->Err_0@ == ErrorModel::Config(
                        "Failed to exchange code for token: "@ + text,
                    )
                    &&& final(self)@ == old(self)@
                },
            },
    {
        match reply {
            TokenReply::Granted(granted) => {
                self.token = Some(
                    SpotifyToken {
                        access_token: granted.access_token,
                        token_type: granted.token_type,
                        expires_in: granted.expires_in,
                        refresh_token: granted.refresh_token,
                        scope: granted.scope,
                        obtained_at: Some(now),
                    },
                );
                Ok(())
            },
            TokenReply::Rejected { status: _, text } => Err(
                AppError::Config(
                    String::from_str("Failed to exchange code for token: ").concat(text.as_str()),
                ),
            ),
        }
    }

    /// Starts a session at `now` with the token that was saved, if any, and
    /// says whether there is one: it then has to be checked with the user
    /// query; else the user has to authenticate.
    pub fn initialize(&mut self, saved: Option<SpotifyToken>, now: u64) -> (r: bool)
        ensures
            r == saved is Some,
            final(self)@ == (ClientModel {
                token: match saved {
                    Some(t) => Some(renewed_token(None, t@, now)),
                    None => old(self).token(),
                },
                ..old(self)@
            }),
    {
        match saved {
            Some(t) => {
                self.token = Some(
                    SpotifyToken {
                        access_token: t.access_token,
                        token_type: t.token_type,
                        expires_in: t.expires_in,
                        refresh_token: t.refresh_token,
                        scope: t.scope,
                        obtained_at: Some(now),
                    },
                );
                true
            },
            None => false,
        }
    }

    /// Takes in what the user query said of the saved token, and says
    /// whether the user has to authenticate: a confirmed token stays, with
    /// the market where it is named; a rejected one is dropped.
    pub fn get_current_user(&mut self, check: UserCheck) -> (r: bool)
        ensures
            final(self)@ == match check {
                UserCheck::Confirmed(country) => ClientModel {
                    country: if country is Some {
                        opt_text(country)
                    } else {
                        old(self).country()
                    },
                    ..old(self)@
                },
                UserCheck::Rejected => ClientModel { token: None, ..old(self)@ },
            },
            r == final(self).token() is None,
    {
        match check {
            UserCheck::Confirmed(country) => {
                if let Some(c) = country {
                    self.user_country = Some(c);
                }
            },
            UserCheck::Rejected => {
                self.token = None;
            },
        }
        self.token.is_none()
    }

    /// Ends the session: the token is dropped, and its saved copy is to be
    /// removed.
    pub fn clear_token(&mut self)
        ensures
            final(self)@ == (ClientModel { token: None, ..old(self)@ }),
    {
        self.token = None;
    }
}

/// How long a token lasts where the answer does not say, in seconds.
pub const DEFAULT_EXPIRES_IN: u64 = 3600;

/// What names a token in a document: each field as far as it is there.
#[derive(Debug, PartialEq, Eq)]
pub struct TokenFields {
    pub access_token: Option<String>,
    pub expires_in: Option<u64>,
    pub refresh_token: Option<String>,
    pub scope: Option<String>,
}

/// Model of a [`TokenFields`].
pub struct TokenFieldsModel {
    pub access_token: Option<Seq<char>>,
    pub expires_in: Option<u64>,
    pub refresh_token: Option<Seq<char>>,
    pub scope: Option<Seq<char>>,
}

impl View for TokenFields {
    type V = TokenFieldsModel;

    open spec fn view(&self) -> TokenFieldsModel {
        TokenFieldsModel {
            access_token: opt_text(self.access_token),
            expires_in: self.expires_in,
            refresh_token: opt_text(self.refresh_token),
            scope: opt_text(self.scope),
        }
    }
}

/// The bearer token that the fields name, issued at `now`; none where they
/// name no access token.
pub open spec fn token_from_fields(fields: TokenFieldsModel, now: u64) -> Option<TokenModel> {
    match fields.access_token {
        Some(access) => Some(
            TokenModel {
                access_token: access,
                token_type: "Bearer"@,
                expires_in: match fields.expires_in {
                    Some(e) => e,
                    None => DEFAULT_EXPIRES_IN,
                },
                refresh_token: fields.refresh_token,
                scope: fields.scope,
                obtained_at: Some(now),
            },
        ),
        None => None,
    }
}

/// The bearer token that the fields name, issued at `now`.
fn token_of_fields(fields: TokenFields, now: u64) -> (r: Option<SpotifyToken>)
    ensures
        token_of(r) == token_from_fields(fields@, now),
{
    match fields.access_token {
        Some(access) => Some(
            SpotifyToken {
                access_token: access,
                token_type: String::from_str("Bearer"),
                expires_in: match fields.expires_in {
                    Some(e) => e,
                    None => DEFAULT_EXPIRES_IN,
                },
                refresh_token: fields.refresh_token,
                scope: fields.scope,
                obtained_at: Some(now),
            },
        ),
        None => None,
    }
}

/// Model of an optional set of token fields.
pub open spec fn fields_of(fields: Option<TokenFields>) -> Option<TokenFieldsModel> {
    match fields {
        Some(f) => Some(f@),
        None => None,
    }
}

/// The token with which a session starts at `now`: that of the helper's
/// cache where it names an access token, else the one that was saved.
pub open spec fn loaded_token(
    helper_cache: Option<TokenFieldsModel>,
    saved: Option<TokenModel>,
    now: u64,
) -> Option<TokenModel> {
    if helper_cache is Some && helper_cache->0.access_token is Some {
        token_from_fields(helper_cache->0, now)
    } else {
        saved
    }
}

/// Chooses the token with which a session starts at `now`, from the cache
/// of the authentication helper and the token that was saved, each as far
/// as it could be read.
pub fn load_token(helper_cache: Option<TokenFields>, saved: Option<SpotifyToken>, now: u64) -> (r:
    Result<SpotifyToken, AppError>)
    ensures
        match r {
            Ok(t) => loaded_token(fields_of(helper_cache), token_of(saved), now) == Some(t@),
            Err(e) => loaded_token(fields_of(helper_cache), token_of(saved), now) is None && e@
                == ErrorModel::Config("No saved token found"@),
        },
{
    if let Some(fields) = helper_cache {
        if let Some(token) = token_of_fields(fields, now) {
            return Ok(token);
        }
    }
    match saved {
        Some(token) => Ok(token),
        None => Err(AppError::Config(String::from_str("No saved token found"))),
    }
}

/// The request that asks for a token on the credentials of the client
/// alone, or the error that stands in its way.
pub open spec fn credentials_request(config: AppConfigModel) -> Result<
    TokenRequestModel,
    ErrorModel,
> {
    if basic_authorization(config) is None {
        Err(ErrorModel::Config("Credentials too long"@))
    } else {
        Ok(
            TokenRequestModel {
                authorization: basic_authorization(config)->0,
                params: seq![("grant_type"@, "client_credentials"@)],
            },
        )
    }
}

/// What the token endpoint answered to a request on the credentials of the
/// client.
#[derive(Debug, PartialEq, Eq)]
pub enum CredentialsReply {
    /// A successful answer, with the fields of its body.
    Granted(TokenFields),
    /// An answer with a status other than success, with its body.
    Rejected(String),
}

/// The token that an answer to such a request gives at `now`.
pub open spec fn credentials_token(reply: CredentialsReply, now: u64) -> Result<
    TokenModel,
    ErrorModel,
> {
    match reply {
        CredentialsReply::Rejected(text) => Err(ErrorModel::Spotify("Auth failed: "@ + text@)),
        CredentialsReply::Granted(fields) => if fields@.access_token is Some {
            Ok(
                TokenModel {
                    refresh_token: None,
                    scope: None,
                    ..token_from_fields(fields@, now)->0
                },
            )
        } else {
            Err(ErrorModel::Spotify("No access token in response"@))
        },
    }
}

impl SpotifyClient {
    /// The request that asks for a token on the credentials of the client
    /// alone.
    pub fn authenticate_client_credentials(&self) -> (r: Result<TokenRequest, AppError>)
        ensures
            match r {
                Ok(request) => credentials_request(self.config()) == Ok::<
                    TokenRequestModel,
                    ErrorModel,
                >(request@),
                Err(e) => credentials_request(self.config()) == Err::<
                    TokenRequestModel,
                    ErrorModel,
                >(e@),
            },
    {
        let authorization = match self.authorization() {
            Some(a) => a,
            None => {
                return Err(AppError::Config(String::from_str("Credentials too long")));
            },
        };
        let mut params: Vec<(String, String)> = Vec::new();
        params.push((String::from_str("grant_type"), String::from_str("client_credentials")));
        let request = TokenRequest { authorization, params };
        assert(request@.params =~= seq![("grant_type"@, "client_credentials"@)]);
        Ok(request)
    }

    /// The token that an answer to a request on the credentials of the
    /// client gives at `now`. It carries no refresh token.
    pub fn client_credentials_token(reply: CredentialsReply, now: u64) -> (r: Result<
        SpotifyToken,
        AppError,
    >)
        ensures
            match r {
                Ok(t) => credentials_token(reply, now) == Ok::<TokenModel, ErrorModel>(t@),
                Err(e) => credentials_token(reply, now) == Err::<TokenModel, ErrorModel>(e@),
            },
    {
        match reply {
            CredentialsReply::Rejected(text) => Err(
                AppError::Spotify(String::from_str("Auth failed: ").concat(text.as_str())),
            ),
            CredentialsReply::Granted(fields) => match fields.access_token {
                Some(access) => Ok(
                    SpotifyToken {
                        access_token: access,
                        token_type: String::from_str("Bearer"),
                        expires_in: match fields.expires_in {
                            Some(e) => e,
                            None => DEFAULT_EXPIRES_IN,
                        },
                        refresh_token: None,
                        scope: None,
                        obtained_at: Some(now),
                    },
                ),
                None => Err(AppError::Spotify(String::from_str("No access token in response"))),
            },
        }
    }
}

} // verus!
