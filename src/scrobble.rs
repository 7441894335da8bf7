//! The scrobble decision engine: from successive playback samples, decides when
//! to announce a track, fetch its artwork, and submit it as played.
use vstd::prelude::*;

use crate::media::{MediaInfo, MediaStatus, TrackIdentity, TrackKey};
use crate::text::{opt_text, text_eq};

verus! {

/// Work for the dispatch worker.
#[derive(Debug, Clone)]
pub enum Action {
    NowPlaying(TrackIdentity),
    FetchArtwork(TrackIdentity),
    /// The track and when its playback began, in Unix seconds.
    Scrobble(TrackIdentity, u64),
}

/// An action, as text.
pub enum ActionView {
    NowPlaying(TrackKey),
    FetchArtwork(TrackKey),
    Scrobble(TrackKey, u64),
}

impl View for Action {
    type V = ActionView;

    open spec fn view(&self) -> ActionView {
        match self {
            Action::NowPlaying(t) => ActionView::NowPlaying(t@),
            Action::FetchArtwork(t) => ActionView::FetchArtwork(t@),
            Action::Scrobble(t, at) => ActionView::Scrobble(t@, *at),
        }
    }
}

/// The engine's state, as text.
pub struct StateView {
    pub current: Option<TrackKey>,
    pub started_at: Option<u64>,
    pub scrobbled: bool,
    pub artwork: Seq<char>,
}

/// Whole seconds in a microsecond count; negative counts are taken as zero.
pub open spec fn whole_seconds(us: i64) -> int {
    if us <= 0 {
        0
    } else {
        us / 1_000_000
    }
}

/// The service's rule: a track longer than thirty seconds counts as played
/// once more than half of it has been heard, and only once.
pub open spec fn scrobble_due(length_us: i64, position_us: i64, scrobbled: bool) -> bool {
    &&& whole_seconds(length_us) > 30
    &&& whole_seconds(position_us) > whole_seconds(length_us) / 2
    &&& !scrobbled
}

/// Whether a sample counts as playing: its status is `Playing` and, when a
/// primary player is set, it comes from that player.
pub open spec fn is_active(sample: MediaInfo, primary: Option<Seq<char>>) -> bool {
    &&& sample.status == MediaStatus::Playing
    &&& match primary {
        Some(p) => sample.player_name@ == p,
        None => true,
    }
}

/// Whether an active sample starts a new track occupancy.
pub open spec fn is_new_track(s: StateView, sample: MediaInfo) -> bool {
    s.current != Some(sample.key())
}

/// The state after a sample taken at `now` (Unix seconds).
pub open spec fn next_state(
    s: StateView,
    sample: MediaInfo,
    now: u64,
    primary: Option<Seq<char>>,
) -> StateView {
    if !is_active(sample, primary) {
        s
    } else if is_new_track(s, sample) {
        StateView {
            current: Some(sample.key()),
            started_at: Some(now),
            scrobbled: false,
            artwork: Seq::empty(),
        }
    } else if scrobble_due(sample.end_time, sample.current_position, s.scrobbled) {
        StateView { scrobbled: true, ..s }
    } else {
        s
    }
}

/// When the current occupancy began.
pub open spec fn start_of(s: StateView, now: u64) -> u64 {
    match s.started_at {
        Some(t) => t,
        None => now,
    }
}

/// The actions a sample taken at `now` gives rise to.
pub open spec fn step_actions(
    s: StateView,
    sample: MediaInfo,
    now: u64,
    primary: Option<Seq<char>>,
) -> Seq<ActionView> {
    if !is_active(sample, primary) {
        seq![]
    } else if is_new_track(s, sample) {
        seq![ActionView::NowPlaying(sample.key()), ActionView::FetchArtwork(sample.key())]
    } else if scrobble_due(sample.end_time, sample.current_position, s.scrobbled) {
        seq![ActionView::Scrobble(sample.key(), start_of(s, now))]
    } else {
        seq![]
    }
}

/// What one sample leads to: whether the status display is to be cleared,
/// and the actions for the dispatch worker, in order.
pub struct Step {
    pub clear_status: bool,
    pub actions: Vec<Action>,
}

impl Step {
    pub open spec fn actions_view(&self) -> Seq<ActionView> {
        self.actions@.map_values(|a: Action| a@)
    }
}

/// The state of the current track occupancy.
pub struct ScrobbleState {
    current: Option<TrackIdentity>,
    started_at: Option<u64>,
    scrobbled: bool,
    artwork_url: String,
}

impl View for ScrobbleState {
    type V = StateView;

    closed spec fn view(&self) -> StateView {
        StateView {
            current: match self.current {
                Some(t) => Some(t@),
                None => None,
            },
            started_at: self.started_at,
            scrobbled: self.scrobbled,
            artwork: self.artwork_url@,
        }
    }
}

/// A start time is kept exactly while a track is current; nothing is
/// scrobbled and no artwork is held while none is.
pub open spec fn state_wf(s: StateView) -> bool {
    &&& s.current is Some <==> s.started_at is Some
    &&& s.current is None ==> !s.scrobbled && s.artwork.len() == 0
}

impl ScrobbleState {
    #[verifier::type_invariant]
    closed spec fn consistent(&self) -> bool {
        state_wf(self@)
    }

    /// Nothing playing yet.
    pub fn new() -> (s: ScrobbleState)
        ensures
            state_wf(s@),
            s@ == (StateView {
                current: None,
                started_at: None,
                scrobbled: false,
                artwork: Seq::empty(),
            }),
    {
        ScrobbleState { current: None, started_at: None, scrobbled: false, artwork_url: String::new() }
    }

    /// Takes one sample, taken at `now` (Unix seconds). With `primary` set,
    /// samples from any other player count as idle.
    pub fn on_sample(&mut self, sample: &MediaInfo, now: u64, primary: Option<&str>) -> (step: Step)
        ensures
            state_wf(final(self)@),
            final(self)@ == next_state(old(self)@, *sample, now, opt_text(primary)),
            step.clear_status == !is_active(*sample, opt_text(primary)),
            step.actions_view() == step_actions(old(self)@, *sample, now, opt_text(primary)),
    {
        proof {
            use_type_invariant(&*self);
        }
        let playing = match sample.status {
            MediaStatus::Playing => true,
            _ => false,
        };
        let from_primary = match primary {
            Some(p) => text_eq(sample.player_name.as_str(), p),
            None => true,
        };
        let mut actions: Vec<Action> = Vec::new();
        if !(playing && from_primary) {
            assert(actions@.map_values(|a: Action| a@) =~= Seq::<ActionView>::empty());
            return Step { clear_status: true, actions };
        }
        let id = sample.identity();
        let is_new = match &self.current {
            Some(cur) => !(*cur == id),
            None => true,
        };
        if is_new {
            let first = sample.identity();
            let second = sample.identity();
            actions.push(Action::NowPlaying(first));
            actions.push(Action::FetchArtwork(second));
            *self = ScrobbleState {
                current: Some(id),
                started_at: Some(now),
                scrobbled: false,
                artwork_url: String::new(),
            };
        } else {
            let song_len = seconds_of(sample.end_time);
            let elapsed = seconds_of(sample.current_position);
            if song_len > 30 && elapsed > song_len / 2 && !self.scrobbled {
                let started = match self.started_at {
                    Some(t) => t,
                    None => now,
                };
                actions.push(Action::Scrobble(id, started));
                self.scrobbled = true;
            }
        }
        proof {
            use_type_invariant(&*self);
        }
        let step = Step { clear_status: false, actions };
        assert(step.actions_view() =~= step_actions(old(self)@, *sample, now, opt_text(primary)));
        step
    }

    /// The track of the current occupancy, if any.
    pub fn current(&self) -> (r: Option<&TrackIdentity>)
        ensures
            match r {
                Some(t) => self@.current == Some(t@),
                None => self@.current is None,
            },
    {
        match &self.current {
            Some(t) => Some(t),
            None => None,
        }
    }

    /// When the current occupancy began, in Unix seconds.
    pub fn started_at(&self) -> (r: Option<u64>)
        ensures
            r == self@.started_at,
    {
        self.started_at
    }

    /// Whether the current occupancy has been scrobbled.
    pub fn has_scrobbled(&self) -> (r: bool)
        ensures
            r == self@.scrobbled,
    {
        self.scrobbled
    }

    /// The cover address recorded for the current occupancy; empty if none.
    pub fn artwork_url(&self) -> (r: &str)
        ensures
            r@ == self@.artwork,
    {
        self.artwork_url.as_str()
    }

    /// Records the artwork address fetched for `track`; kept only while that
    /// track is current and no artwork has been recorded for it yet.
    pub fn artwork_arrived(&mut self, track: &TrackIdentity, url: &str)
        ensures
            state_wf(final(self)@),
            final(self)@ == (if old(self)@.current == Some(track@) && old(self)@.artwork.len() == 0 {
                StateView { artwork: url@, ..old(self)@ }
            } else {
                old(self)@
            }),
    {
        proof {
            use_type_invariant(&*self);
        }
        let matches = match &self.current {
            Some(cur) => *cur == *track,
            None => false,
        };
        if matches && self.artwork_url.as_str().is_empty() {
            self.artwork_url = url.to_owned();
        }
        proof {
            use_type_invariant(&*self);
        }
    }
}

/// Some action announces a track as now playing.
pub open spec fn announces(acts: Seq<ActionView>) -> bool {
    exists|i: int| 0 <= i < acts.len() && acts[i] is NowPlaying
}

/// Some action submits a scrobble.
pub open spec fn submits(acts: Seq<ActionView>) -> bool {
    exists|i: int| 0 <= i < acts.len() && acts[i] is Scrobble
}

/// The state after a run of timed samples.
pub open spec fn run_state(
    s: StateView,
    samples: Seq<(MediaInfo, u64)>,
    primary: Option<Seq<char>>,
) -> StateView
    decreases samples.len(),
{
    if samples.len() == 0 {
        s
    } else {
        next_state(
            run_state(s, samples.drop_last(), primary),
            samples.last().0,
            samples.last().1,
            primary,
        )
    }
}

/// Once a track is current, later samples of it announce nothing, whatever
/// their position.
pub proof fn lemma_same_track_announced_once(
    s: StateView,
    a: MediaInfo,
    t1: u64,
    b: MediaInfo,
    t2: u64,
    primary: Option<Seq<char>>,
)
    requires
        is_active(a, primary),
        a.key() == b.key(),
    ensures
        !announces(step_actions(next_state(s, a, t1, primary), b, t2, primary)),
{
}

proof fn lemma_scrobbled_state_fixed(
    s: StateView,
    later: Seq<(MediaInfo, u64)>,
    primary: Option<Seq<char>>,
)
    requires
        s.scrobbled,
        forall|i: int| 0 <= i < later.len() ==> Some(#[trigger] later[i].0.key()) == s.current,
    ensures
        run_state(s, later, primary) == s,
    decreases later.len(),
{
    if later.len() > 0 {
        lemma_scrobbled_state_fixed(s, later.drop_last(), primary);
        assert(Some(later[later.len() - 1].0.key()) == s.current);
    }
}

/// A sample that scrobbles is the only one of its occupancy to do so: no
/// later sample of the same track scrobbles again.
pub proof fn lemma_one_scrobble_per_occupancy(
    s: StateView,
    a: MediaInfo,
    t: u64,
    later: Seq<(MediaInfo, u64)>,
    primary: Option<Seq<char>>,
)
    requires
        submits(step_actions(s, a, t, primary)),
        forall|i: int| 0 <= i < later.len() ==> (#[trigger] later[i].0.key()) == a.key(),
    ensures
        forall|i: int|
            0 <= i < later.len() ==> !submits(
                #[trigger] step_actions(
                    run_state(next_state(s, a, t, primary), later.take(i), primary),
                    later[i].0,
                    later[i].1,
                    primary,
                ),
            ),
{
    let n = next_state(s, a, t, primary);
    assert(n.scrobbled && n.current == Some(a.key()));
    assert forall|i: int| 0 <= i < later.len() implies !submits(
        #[trigger] step_actions(run_state(n, later.take(i), primary), later[i].0, later[i].1, primary),
    ) by {
        let pre = later.take(i);
        assert forall|j: int| 0 <= j < pre.len() implies Some(#[trigger] pre[j].0.key()) == n.current by {
            assert(pre[j] == later[j]);
        }
        lemma_scrobbled_state_fixed(n, pre, primary);
        assert(later[i].0.key() == a.key());
    }
}

/// A track of thirty seconds or less is never scrobbled, however much of it
/// has played.
pub proof fn lemma_short_track_never_scrobbled(
    s: StateView,
    sample: MediaInfo,
    now: u64,
    primary: Option<Seq<char>>,
)
    requires
        whole_seconds(sample.end_time) <= 30,
    ensures
        !submits(step_actions(s, sample, now, primary)),
        next_state(s, sample, now, primary).scrobbled ==> s.scrobbled,
{
}

/// A sample that is not playing clears the display, asks for nothing, and
/// leaves the state, its scrobbled flag included, as it was.
pub proof fn lemma_idle_sample_changes_nothing(
    s: StateView,
    sample: MediaInfo,
    now: u64,
    primary: Option<Seq<char>>,
)
    requires
        sample.status != MediaStatus::Playing,
    ensures
        !is_active(sample, primary),
        step_actions(s, sample, now, primary) == Seq::<ActionView>::empty(),
        next_state(s, sample, now, primary) == s,
{
}

/// Whole seconds in a microsecond count; negative counts give zero.
pub fn seconds_of(us: i64) -> (s: i64)
    ensures
        s == whole_seconds(us),
{
    if us <= 0 {
        0
    } else {
        us / 1_000_000
    }
}

} // verus!
