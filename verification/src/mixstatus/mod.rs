//! The mix status processor: turns the stream of player states into
//! "now playing" / "stopped" / set lifecycle events.
//!
//! [`MixState::handle_state`] takes the current state of the processor and
//! a player's status, and gives the next state and the events to fire, in
//! order. The caller fires them, and runs the set-ending timer: it starts
//! it on [`MixEvent::StartSetEndTimer`] (replacing a running one), stops it
//! on [`MixEvent::CancelSetEndTimer`], and when it runs out calls
//! [`MixState::set_end_elapsed`]. Timing is handed in as milliseconds: the
//! time now, and how long a track must play before it is reported and how
//! long it may be interrupted, as the caller computes them from the tempo.

pub mod utils;

use vstd::prelude::*;
use crate::mixstatus::utils::{is_playing, is_stopping};
use crate::types::PlayState;

verus! {

/// Payload of the `stopped` event.
#[derive(Debug, Clone, Copy, PartialEq, Eq, Structural)]
pub struct Stopped {
    pub device_id: u8,
}

/// The mixstatus reporting mode.
#[derive(Debug, Clone, Copy, PartialEq, Eq, Hash, Structural)]
pub enum MixstatusMode {
    /// The master player is the one reported as now playing.
    FollowsMaster,
    /// A track is reported once it has played for long enough, or when it
    /// is the only one playing.
    SmartTiming,
    /// A track is reported only when nothing else is playing.
    WaitsForSilence,
}

/// The parts of the configuration the decisions read.
#[derive(Debug, Clone, Copy, PartialEq, Eq, Structural)]
pub struct MixRules {
    pub mode: MixstatusMode,
    /// When false, the on-air flag of a status is not read: every player
    /// counts as on air.
    pub use_on_air_status: bool,
}

/// What the processor reads of a player's status.
#[derive(Debug, Clone, Copy, PartialEq, Eq, Structural)]
pub struct PlayerStatus {
    pub device_id: u8,
    pub track_id: u32,
    pub play_state: PlayState,
    pub is_on_air: bool,
    pub is_master: bool,
}

/// What the processor keeps of one player.
#[derive(Debug, Clone, Copy, PartialEq, Eq, Structural)]
pub struct Deck {
    /// The most recent status of the player.
    pub last_state: Option<PlayerStatus>,
    /// When the player last started playing a track.
    pub start_time: Option<u64>,
    /// When the player entered a 'may stop' state.
    pub stopped_time: Option<u64>,
    /// Whether the player has been reported as live.
    pub live: bool,
    /// The last track reported as now playing on this player.
    pub last_emitted: Option<u32>,
}

/// An event to fire, or a timer action to take.
#[derive(Debug, Clone, Copy, PartialEq, Eq, Structural)]
pub enum MixEvent {
    /// The player's track is now on air and heard by the audience.
    NowPlaying(u8),
    /// The player's track stopped or went off air.
    Stopped(u8),
    /// The first track of a set has begun playing.
    SetStarted,
    /// (Re)start the set-ending timer.
    StartSetEndTimer,
    /// Stop the set-ending timer.
    CancelSetEndTimer,
}

/// The state of the processor.
pub struct MixV {
    /// One deck per device number.
    pub decks: Seq<Deck>,
    /// Whether a DJ set is active.
    pub is_set_active: bool,
    /// Whether the set-ending timer is running.
    pub set_ending: bool,
    pub rules: MixRules,
}

pub open spec fn no_deck() -> Deck {
    Deck { last_state: None, start_time: None, stopped_time: None, live: false, last_emitted: None }
}

pub open spec fn is_playing_state(s: PlayerStatus) -> bool {
    s.play_state == PlayState::Playing || s.play_state == PlayState::Looping
}

pub open spec fn is_stopping_state(s: PlayerStatus) -> bool {
    s.play_state == PlayState::Cued || s.play_state == PlayState::Ended || s.play_state == PlayState::Loading
}

/// On air, or every player when the on-air flag is not read.
pub open spec fn on_air(r: MixRules, s: PlayerStatus) -> bool {
    if r.use_on_air_status {
        s.is_on_air
    } else {
        true
    }
}

pub open spec fn with_deck(v: MixV, d: int, deck: Deck) -> MixV {
    MixV { decks: v.decks.update(d, deck), ..v }
}

/// Reports a player as live, unless it is off air or not playing, already
/// live, or its track is the one last reported on it. The first report
/// starts the set, and any report stops the set-ending timer.
pub open spec fn promote(v: MixV, s: PlayerStatus) -> (MixV, Seq<MixEvent>) {
    let d = s.device_id as int;
    if !on_air(v.rules, s) || !is_playing_state(s) || v.decks[d].live || v.decks[d].last_emitted == Some(s.track_id) {
        (v, Seq::empty())
    } else {
        let e1: Seq<MixEvent> = if v.is_set_active {
            Seq::empty()
        } else {
            seq![MixEvent::SetStarted]
        };
        let e2: Seq<MixEvent> = if v.set_ending {
            seq![MixEvent::CancelSetEndTimer]
        } else {
            Seq::empty()
        };
        let deck = Deck { live: true, last_emitted: Some(s.track_id), ..v.decks[d] };
        (
            MixV { decks: v.decks.update(d, deck), is_set_active: true, set_ending: false, ..v },
            e1 + e2 + seq![MixEvent::NowPlaying(s.device_id)],
        )
    }
}

/// A player that could be reported next: playing, not yet live, with a
/// start time.
pub open spec fn is_candidate(v: MixV, i: int) -> bool {
    &&& v.decks[i].start_time is Some
    &&& !v.decks[i].live
    &&& v.decks[i].last_state matches Some(s) && is_playing_state(s)
}

/// Among the players numbered below `n`, the candidate that started
/// playing first (the lowest number among equals).
pub open spec fn next_candidate(v: MixV, n: int) -> Option<int>
    decreases n,
{
    if n <= 0 {
        None
    } else {
        let b = next_candidate(v, n - 1);
        if is_candidate(v, n - 1) && (b is None || v.decks[n - 1].start_time->0 < v.decks[b->0].start_time->0) {
            Some(n - 1)
        } else {
            b
        }
    }
}

/// Some player is playing on air.
pub open spec fn any_on_air_playing(v: MixV) -> bool {
    exists|i: int|
        0 <= i < v.decks.len() && ((#[trigger] v.decks[i]).last_state matches Some(s) && is_playing_state(s) && on_air(
            v.rules,
            s,
        ))
}

/// Once no player is playing on air during a set, the set-ending timer is
/// (re)started.
pub open spec fn set_may_stop(v: MixV) -> (MixV, Seq<MixEvent>) {
    if !v.is_set_active || any_on_air_playing(v) {
        (v, Seq::empty())
    } else {
        (MixV { set_ending: true, ..v }, seq![MixEvent::StartSetEndTimer])
    }
}

/// Reports the player that has been playing the longest and is not yet
/// live; with none, the set may be ending.
pub open spec fn promote_next(v: MixV) -> (MixV, Seq<MixEvent>) {
    match next_candidate(v, v.decks.len() as int) {
        Some(i) => promote(v, v.decks[i].last_state->0),
        None => set_may_stop(v),
    }
}

/// Marks a player stopped: it is no longer live or timed, the next player
/// is reported, and then the stop.
pub open spec fn mark_stopped(v: MixV, d: u8) -> (MixV, Seq<MixEvent>) {
    let deck = Deck { stopped_time: None, start_time: None, live: false, ..v.decks[d as int] };
    let r = promote_next(with_deck(v, d as int, deck));
    (r.0, r.1.push(MixEvent::Stopped(d)))
}

/// Another player than `s`'s is playing on air.
pub open spec fn others_playing(v: MixV, s: PlayerStatus) -> bool {
    exists|i: int|
        0 <= i < v.decks.len() && ((#[trigger] v.decks[i]).last_state matches Some(o) && o.device_id != s.device_id
            && on_air(v.rules, o) && is_playing_state(o))
}

/// A player that may be the first to play is reported when no other is
/// playing on air.
pub open spec fn may_be_first(v: MixV, s: PlayerStatus) -> (MixV, Seq<MixEvent>) {
    if others_playing(v, s) {
        (v, Seq::empty())
    } else {
        promote(v, s)
    }
}

/// A player that stopped playing but may come back on air.
pub open spec fn may_stop(v: MixV, d: u8, now: u64) -> MixV {
    with_deck(v, d as int, Deck { stopped_time: Some(now), ..v.decks[d as int] })
}

pub open spec fn clear_stop(v: MixV, d: u8) -> MixV {
    with_deck(v, d as int, Deck { stopped_time: None, ..v.decks[d as int] })
}

/// A player reported a different play state than before.
pub open spec fn playstate_change(v: MixV, last: PlayerStatus, s: PlayerStatus, now: u64) -> (MixV, Seq<MixEvent>) {
    let d = s.device_id;
    let following = v.rules.mode == MixstatusMode::FollowsMaster && s.is_master;
    let now_playing = is_playing_state(s);
    let was_playing = is_playing_state(last);
    let started = now_playing && !was_playing;
    if v.decks[d as int].stopped_time is Some && now_playing && on_air(v.rules, s) {
        // Back on air playing after a 'may stop'.
        (clear_stop(v, d), Seq::empty())
    } else if started {
        let r1 = if following {
            promote(v, s)
        } else {
            (v, Seq::<MixEvent>::empty())
        };
        let v2 = with_deck(r1.0, d as int, Deck { start_time: Some(now), ..r1.0.decks[d as int] });
        let r3 = may_be_first(v2, s);
        (r3.0, r1.1 + r3.1)
    } else if was_playing && is_stopping_state(s) {
        mark_stopped(v, d)
    } else if was_playing && !now_playing {
        (may_stop(v, d, now), Seq::empty())
    } else {
        (v, Seq::empty())
    }
}

/// A player went on or off air.
pub open spec fn onair_change(v: MixV, s: PlayerStatus, now: u64) -> (MixV, Seq<MixEvent>) {
    let d = s.device_id;
    let r = may_be_first(v, s);
    if !r.0.decks[d as int].live {
        r
    } else if !on_air(r.0.rules, s) {
        (may_stop(r.0, d, now), r.1)
    } else {
        (clear_stop(r.0, d), r.1)
    }
}

/// `a - b`, or 0 where `b` is the larger.
pub open spec fn since(a: u64, b: u64) -> u64 {
    if a >= b {
        (a - b) as u64
    } else {
        0
    }
}

/// A requirement of `req` milliseconds is met after `elapsed`; `None`
/// is never met.
pub open spec fn met(req: Option<u64>, elapsed: u64) -> bool {
    req matches Some(r) && r <= elapsed
}

/// The tail of handling a status: promotion by play time in smart timing
/// mode, then the stop of a player interrupted for too long.
pub open spec fn timing_checks(v: MixV, s: PlayerStatus, now: u64, play_ms: Option<u64>, stop_ms: Option<u64>) -> (MixV, Seq<MixEvent>) {
    let d = s.device_id as int;
    let r3 = if v.rules.mode == MixstatusMode::SmartTiming && v.decks[d].start_time is Some && met(
        play_ms,
        since(now, v.decks[d].start_time->0),
    ) {
        promote(v, s)
    } else {
        (v, Seq::<MixEvent>::empty())
    };
    let r4 = if r3.0.decks[d].stopped_time is Some && met(stop_ms, since(now, r3.0.decks[d].stopped_time->0)) {
        mark_stopped(r3.0, s.device_id)
    } else {
        (r3.0, Seq::<MixEvent>::empty())
    };
    (r4.0, r3.1 + r4.1)
}

/// Feeding a player's status to the processor at time `now`.
pub open spec fn handled(v: MixV, s: PlayerStatus, now: u64, play_ms: Option<u64>, stop_ms: Option<u64>) -> (MixV, Seq<MixEvent>) {
    let d = s.device_id as int;
    let last = v.decks[d].last_state;
    let v0 = with_deck(v, d, Deck { last_state: Some(s), ..v.decks[d] });
    if last is None && on_air(v.rules, s) && is_playing_state(s) {
        // First status of a player already playing on air.
        may_be_first(with_deck(v0, d, Deck { start_time: Some(now), ..v0.decks[d] }), s)
    } else {
        let r1 = if last matches Some(l) && l.play_state != s.play_state {
            playstate_change(v0, last->0, s, now)
        } else {
            (v0, Seq::<MixEvent>::empty())
        };
        let r2 = if last matches Some(l) && on_air(v.rules, l) != on_air(v.rules, s) {
            onair_change(r1.0, s, now)
        } else {
            (r1.0, Seq::<MixEvent>::empty())
        };
        if v.rules.mode == MixstatusMode::FollowsMaster && (last matches Some(l) && !l.is_master) && s.is_master {
            let r3 = promote(r2.0, s);
            (r3.0, r1.1 + r2.1 + r3.1)
        } else {
            let r3 = timing_checks(r2.0, s, now, play_ms, stop_ms);
            (r3.0, r1.1 + r2.1 + r3.1)
        }
    }
}

/// One deck for each device number, each holding its own device's status.
pub open spec fn mix_valid(v: MixV) -> bool {
    &&& v.decks.len() == 256
    &&& forall|i: int| 0 <= i < 256 ==> ((#[trigger] v.decks[i]).last_state matches Some(x) ==> x.device_id == i)
}

proof fn lemma_next_candidate_range(v: MixV, n: int)
    ensures
        next_candidate(v, n) matches Some(i) ==> 0 <= i < n && is_candidate(v, i),
    decreases n,
{
    if n > 0 {
        lemma_next_candidate_range(v, n - 1);
    }
}

proof fn lemma_next_candidate_min(v: MixV, n: int)
    ensures
        next_candidate(v, n) matches Some(b) ==> forall|j: int|
            0 <= j < n && #[trigger] is_candidate(v, j) ==> v.decks[b].start_time->0 < v.decks[j].start_time->0 || (
            v.decks[b].start_time->0 == v.decks[j].start_time->0 && b <= j),
        (exists|j: int| 0 <= j < n && #[trigger] is_candidate(v, j)) ==> next_candidate(v, n) is Some,
    decreases n,
{
    if n > 0 {
        lemma_next_candidate_min(v, n - 1);
        lemma_next_candidate_range(v, n - 1);
        if exists|j: int| 0 <= j < n && #[trigger] is_candidate(v, j) {
            let j = choose|j: int| 0 <= j < n && #[trigger] is_candidate(v, j);
            if j < n - 1 {
                assert(next_candidate(v, n - 1) is Some);
            }
        }
    }
}

/// What stopping player `d` leaves: its deck neither live nor timed.
pub open spec fn with_stopped(v: MixV, d: u8) -> MixV {
    with_deck(v, d as int, Deck { stopped_time: None, start_time: None, live: false, ..v.decks[d as int] })
}

/// Player `i` is the one that has been playing longest without being
/// reported: a candidate that started first (the lowest number among those
/// that started at once).
pub open spec fn longest_playing(v: MixV, i: int) -> bool {
    &&& 0 <= i < v.decks.len()
    &&& is_candidate(v, i)
    &&& forall|j: int|
        0 <= j < v.decks.len() && #[trigger] is_candidate(v, j) ==> v.decks[i].start_time->0 < v.decks[j].start_time->0
            || (v.decks[i].start_time->0 == v.decks[j].start_time->0 && i <= j)
}

/// When a player stops, the player that has been playing longest without
/// being reported is reported now playing (where it is on air and its
/// track is not the one last reported on it), and then the stop. Where no
/// other player plays unreported, nothing is reported and the set may end.
pub proof fn law_stop_promotes_the_longest_playing(v: MixV, d: u8, i: int)
    requires
        mix_valid(v),
    ensures
        mark_stopped(v, d).1.last() == MixEvent::Stopped(d),
        !mark_stopped(v, d).0.decks[d as int].live,
        longest_playing(with_stopped(v, d), i) && on_air(v.rules, v.decks[i].last_state->0)
            && v.decks[i].last_emitted != Some(v.decks[i].last_state->0.track_id) ==> {
            &&& i != d
            &&& mark_stopped(v, d).0.decks[i].live
            &&& mark_stopped(v, d).1 == promote(with_stopped(v, d), v.decks[i].last_state->0).1.push(MixEvent::Stopped(d))
            &&& mark_stopped(v, d).1[mark_stopped(v, d).1.len() - 2] == MixEvent::NowPlaying(i as u8)
        },
        (forall|j: int| 0 <= j < 256 ==> !#[trigger] is_candidate(with_stopped(v, d), j)) ==> mark_stopped(v, d).1 == set_may_stop(
            with_stopped(v, d),
        ).1.push(MixEvent::Stopped(d)),
{
    let c = with_stopped(v, d);
    lemma_next_candidate_range(c, 256);
    lemma_next_candidate_min(c, 256);
    assert(!is_candidate(c, d as int));
    match next_candidate(c, 256) {
        Some(b) => {
            if longest_playing(c, i) {
                assert(is_candidate(c, b));
                assert(b == i);
                assert(c.decks[i] == v.decks[i]);
                let s = v.decks[i].last_state->0;
                assert(s.device_id == i);
            }
            let s = c.decks[b].last_state->0;
            assert(s.device_id == b) by {
                if b != d as int {
                    assert(c.decks[b] == v.decks[b]);
                }
            }
        },
        None => {
            assert(!longest_playing(c, i));
        },
    }
}

/// A player is reported now playing exactly when it plays (playing or
/// looping) on air (or the on-air flag is not read), is not live already,
/// and its track is not the one last reported on it. Reporting makes it
/// live with that track, starts the set, and ends with the report; a player
/// that is not reported leaves everything as it was.
pub proof fn law_report_conditions(v: MixV, s: PlayerStatus)
    requires
        mix_valid(v),
    ensures
        promote(v, s).1.len() > 0 <==> ((!v.rules.use_on_air_status || s.is_on_air) && (s.play_state
            == PlayState::Playing || s.play_state == PlayState::Looping) && !v.decks[s.device_id as int].live
            && v.decks[s.device_id as int].last_emitted != Some(s.track_id)),
        promote(v, s).1.len() > 0 ==> {
            &&& promote(v, s).1.last() == MixEvent::NowPlaying(s.device_id)
            &&& promote(v, s).0.decks[s.device_id as int].live
            &&& promote(v, s).0.decks[s.device_id as int].last_emitted == Some(s.track_id)
            &&& promote(v, s).0.is_set_active
            &&& !promote(v, s).0.set_ending
            &&& forall|i: int| 0 <= i < 256 && i != s.device_id ==> #[trigger] promote(v, s).0.decks[i] == v.decks[i]
        },
        promote(v, s).1.len() == 0 ==> promote(v, s).0 == v,
{
}

/// The processor's state.
pub struct MixState {
    decks: Vec<Deck>,
    is_set_active: bool,
    set_ending: bool,
    rules: MixRules,
}

impl View for MixState {
    type V = MixV;

    closed spec fn view(&self) -> MixV {
        MixV { decks: self.decks@, is_set_active: self.is_set_active, set_ending: self.set_ending, rules: self.rules }
    }
}

impl MixState {

    pub fn new(rules: MixRules) -> (r: MixState)
        ensures
            mix_valid(r@),
            r@.decks == Seq::new(256, |i: int| no_deck()),
            !r@.is_set_active,
            !r@.set_ending,
            r@.rules == rules,
    {
        let mut decks: Vec<Deck> = Vec::new();
        let mut i: usize = 0;
        while i < 256
            invariant
                i <= 256,
                decks@ == Seq::new(i as nat, |j: int| no_deck()),
            decreases 256 - i,
        {
            decks.push(Deck { last_state: None, start_time: None, stopped_time: None, live: false, last_emitted: None });
            assert(decks@ =~= Seq::new((i + 1) as nat, |j: int| no_deck()));
            i = i + 1;
        }
        MixState { decks, is_set_active: false, set_ending: false, rules }
    }

    /// The rules the decisions follow.
    pub fn rules(&self) -> (r: MixRules)
        ensures
            r == self@.rules,
    {
        self.rules
    }

    /// Change the rules.
    pub fn set_rules(&mut self, rules: MixRules)
        requires
            mix_valid(old(self)@),
        ensures
            mix_valid(final(self)@),
            final(self)@ == (MixV { rules, ..old(self)@ }),
    {
        self.rules = rules;
    }

    /// The deck of a device.
    pub fn deck(&self, device_id: u8) -> (r: Deck)
        requires
            mix_valid(self@),
        ensures
            r == self@.decks[device_id as int],
    {
        self.decks[device_id as usize]
    }

    /// Whether a DJ set is active.
    pub fn is_set_active(&self) -> (r: bool)
        ensures
            r == self@.is_set_active,
    {
        self.is_set_active
    }

    fn on_air(&self, s: &PlayerStatus) -> (r: bool)
        ensures
            r == on_air(self@.rules, *s),
    {
        if self.rules.use_on_air_status {
            s.is_on_air
        } else {
            true
        }
    }

    fn promote_player(&mut self, s: &PlayerStatus, events: &mut Vec<MixEvent>)
        requires
            mix_valid(old(self)@),
        ensures
            mix_valid(final(self)@),
            final(self)@ == promote(old(self)@, *s).0,
            final(events)@ == old(events)@ + promote(old(self)@, *s).1,
    {
        let d = s.device_id as usize;
        let deck = self.decks[d];
        let same_track = match deck.last_emitted {
            Some(t) => t == s.track_id,
            None => false,
        };
        if !self.on_air(s) || !is_playing(s.play_state) || deck.live || same_track {
            assert(events@ =~= old(events)@ + Seq::<MixEvent>::empty());
            return;
        }
        let ghost e0 = events@;
        if !self.is_set_active {
            self.is_set_active = true;
            events.push(MixEvent::SetStarted);
        }
        if self.set_ending {
            self.set_ending = false;
            events.push(MixEvent::CancelSetEndTimer);
        }
        self.is_set_active = true;
        self.decks.set(d, Deck { live: true, last_emitted: Some(s.track_id), ..deck });
        events.push(MixEvent::NowPlaying(s.device_id));
        proof {
            let v = old(self)@;
            let e1: Seq<MixEvent> = if v.is_set_active {
                Seq::empty()
            } else {
                seq![MixEvent::SetStarted]
            };
            let e2: Seq<MixEvent> = if v.set_ending {
                seq![MixEvent::CancelSetEndTimer]
            } else {
                Seq::empty()
            };
            assert(events@ =~= e0 + (e1 + e2 + seq![MixEvent::NowPlaying(s.device_id)]));
        }
    }

    fn next_candidate(&self) -> (r: Option<u8>)
        requires
            mix_valid(self@),
        ensures
            match next_candidate(self@, 256) {
                Some(i) => r == Some(i as u8),
                None => r is None,
            },
    {
        let mut best: Option<u8> = None;
        let mut best_time: u64 = 0;
        let mut i: usize = 0;
        while i < 256
            invariant
                mix_valid(self@),
                i <= 256,
                match next_candidate(self@, i as int) {
                    Some(b) => best == Some(b as u8) && best_time == self@.decks[b].start_time->0,
                    None => best is None,
                },
            decreases 256 - i,
        {
            proof {
                lemma_next_candidate_range(self@, i as int);
            }
            let deck = self.decks[i];
            let playing = match deck.last_state {
                Some(st) => is_playing(st.play_state),
                None => false,
            };
            match deck.start_time {
                Some(t) => {
                    if !deck.live && playing && (best.is_none() || t < best_time) {
                        best = Some(i as u8);
                        best_time = t;
                    }
                },
                None => {},
            }
            i = i + 1;
        }
        proof {
            lemma_next_candidate_range(self@, 256);
        }
        best
    }

    fn any_on_air_playing(&self) -> (r: bool)
        requires
            mix_valid(self@),
        ensures
            r == any_on_air_playing(self@),
    {
        let mut i: usize = 0;
        while i < 256
            invariant
                mix_valid(self@),
                i <= 256,
                forall|j: int|
                    0 <= j < i ==> !((#[trigger] self@.decks[j]).last_state matches Some(s) && is_playing_state(s)
                        && on_air(self@.rules, s)),
            decreases 256 - i,
        {
            match self.decks[i].last_state {
                Some(s) => {
                    if is_playing(s.play_state) && self.on_air(&s) {
                        assert(self@.decks[i as int].last_state matches Some(s) && is_playing_state(s) && on_air(
                            self@.rules,
                            s,
                        ));
                        return true;
                    }
                },
                None => {},
            }
            i = i + 1;
        }
        false
    }

    fn others_playing(&self, s: &PlayerStatus) -> (r: bool)
        requires
            mix_valid(self@),
        ensures
            r == others_playing(self@, *s),
    {
        let mut i: usize = 0;
        while i < 256
            invariant
                mix_valid(self@),
                i <= 256,
                forall|j: int|
                    0 <= j < i ==> !((#[trigger] self@.decks[j]).last_state matches Some(o) && o.device_id
                        != s.device_id && on_air(self@.rules, o) && is_playing_state(o)),
            decreases 256 - i,
        {
            match self.decks[i].last_state {
                Some(o) => {
                    if o.device_id != s.device_id && self.on_air(&o) && is_playing(o.play_state) {
                        assert(self@.decks[i as int].last_state matches Some(o) && o.device_id != s.device_id
                            && on_air(self@.rules, o) && is_playing_state(o));
                        return true;
                    }
                },
                None => {},
            }
            i = i + 1;
        }
        false
    }

    fn set_may_stop(&mut self, events: &mut Vec<MixEvent>)
        requires
            mix_valid(old(self)@),
        ensures
            mix_valid(final(self)@),
            final(self)@ == set_may_stop(old(self)@).0,
            final(events)@ == old(events)@ + set_may_stop(old(self)@).1,
    {
        if !self.is_set_active || self.any_on_air_playing() {
            assert(events@ =~= old(events)@ + Seq::<MixEvent>::empty());
            return;
        }
        self.set_ending = true;
        events.push(MixEvent::StartSetEndTimer);
    }

    fn promote_next_player(&mut self, events: &mut Vec<MixEvent>)
        requires
            mix_valid(old(self)@),
        ensures
            mix_valid(final(self)@),
            final(self)@ == promote_next(old(self)@).0,
            final(events)@ == old(events)@ + promote_next(old(self)@).1,
    {
        proof {
            lemma_next_candidate_range(self@, 256);
        }
        match self.next_candidate() {
            Some(i) => {
                match self.decks[i as usize].last_state {
                    Some(s) => self.promote_player(&s, events),
                    None => {},
                }
            },
            None => self.set_may_stop(events),
        }
    }

    fn mark_player_stopped(&mut self, d: u8, events: &mut Vec<MixEvent>)
        requires
            mix_valid(old(self)@),
        ensures
            mix_valid(final(self)@),
            final(self)@ == mark_stopped(old(self)@, d).0,
            final(events)@ == old(events)@ + mark_stopped(old(self)@, d).1,
    {
        let deck = self.decks[d as usize];
        self.decks.set(d as usize, Deck { stopped_time: None, start_time: None, live: false, ..deck });
        let ghost e0 = events@;
        let ghost v1 = self@;
        self.promote_next_player(events);
        events.push(MixEvent::Stopped(d));
        proof {
            assert(events@ =~= e0 + promote_next(v1).1.push(MixEvent::Stopped(d)));
        }
    }

    fn player_may_be_first(&mut self, s: &PlayerStatus, events: &mut Vec<MixEvent>)
        requires
            mix_valid(old(self)@),
        ensures
            mix_valid(final(self)@),
            final(self)@ == may_be_first(old(self)@, *s).0,
            final(events)@ == old(events)@ + may_be_first(old(self)@, *s).1,
    {
        if self.others_playing(s) {
            assert(events@ =~= old(events)@ + Seq::<MixEvent>::empty());
            return;
        }
        self.promote_player(s, events);
    }

    fn set_stopped_time(&mut self, d: u8, t: Option<u64>)
        requires
            mix_valid(old(self)@),
        ensures
            mix_valid(final(self)@),
            final(self)@ == with_deck(old(self)@, d as int, Deck { stopped_time: t, ..old(self)@.decks[d as int] }),
    {
        let deck = self.decks[d as usize];
        self.decks.set(d as usize, Deck { stopped_time: t, ..deck });
    }

    fn handle_playstate_change(&mut self, last: &PlayerStatus, s: &PlayerStatus, now: u64, events: &mut Vec<MixEvent>)
        requires
            mix_valid(old(self)@),
        ensures
            mix_valid(final(self)@),
            final(self)@ == playstate_change(old(self)@, *last, *s, now).0,
            final(events)@ == old(events)@ + playstate_change(old(self)@, *last, *s, now).1,
    {
        let d = s.device_id;
        let following = self.rules.mode == MixstatusMode::FollowsMaster && s.is_master;
        let now_playing = is_playing(s.play_state);
        let was_playing = is_playing(last.play_state);
        let started = now_playing && !was_playing;

        // Was this device in a 'may stop' state and it has begun on-air
        // playing again?
        if self.decks[d as usize].stopped_time.is_some() && now_playing && self.on_air(s) {
            self.set_stopped_time(d, None);
            assert(events@ =~= old(events)@ + Seq::<MixEvent>::empty());
            return;
        }
        if started {
            let ghost e0 = events@;
            if following {
                self.promote_player(s, events);
            }
            let ghost v1 = self@;
            let ghost e1 = events@;
            let deck = self.decks[d as usize];
            self.decks.set(d as usize, Deck { start_time: Some(now), ..deck });
            self.player_may_be_first(s, events);
            proof {
                let r1 = if following {
                    promote(old(self)@, *s)
                } else {
                    (old(self)@, Seq::<MixEvent>::empty())
                };
                assert(v1 == r1.0);
                assert(e1 =~= e0 + r1.1);
                let v2 = with_deck(r1.0, d as int, Deck { start_time: Some(now), ..r1.0.decks[d as int] });
                let r3 = may_be_first(v2, *s);
                assert(events@ =~= e0 + (r1.1 + r3.1));
            }
            return;
        }
        if was_playing && is_stopping(s.play_state) {
            self.mark_player_stopped(d, events);
            return;
        }
        if was_playing && !now_playing {
            self.set_stopped_time(d, Some(now));
        }
        assert(events@ =~= old(events)@ + Seq::<MixEvent>::empty());
    }

    fn handle_onair_change(&mut self, s: &PlayerStatus, now: u64, events: &mut Vec<MixEvent>)
        requires
            mix_valid(old(self)@),
        ensures
            mix_valid(final(self)@),
            final(self)@ == onair_change(old(self)@, *s, now).0,
            final(events)@ == old(events)@ + onair_change(old(self)@, *s, now).1,
    {
        let d = s.device_id;
        // Player may have just been brought on with nothing else playing
        self.player_may_be_first(s, events);
        if !self.decks[d as usize].live {
            return;
        }
        if !self.on_air(s) {
            self.set_stopped_time(d, Some(now));
            return;
        }
        // Play has come back on air
        self.set_stopped_time(d, None);
    }

    fn timing_checks(
        &mut self,
        s: &PlayerStatus,
        now: u64,
        play_ms: Option<u64>,
        stop_ms: Option<u64>,
        events: &mut Vec<MixEvent>,
    )
        requires
            mix_valid(old(self)@),
        ensures
            mix_valid(final(self)@),
            final(self)@ == timing_checks(old(self)@, *s, now, play_ms, stop_ms).0,
            final(events)@ == old(events)@ + timing_checks(old(self)@, *s, now, play_ms, stop_ms).1,
    {
        let d = s.device_id as usize;
        let ghost e0 = events@;
        // If a device has been playing for the required number of beats, we
        // may be able to report it as live
        if self.rules.mode == MixstatusMode::SmartTiming {
            match (self.decks[d].start_time, play_ms) {
                (Some(started_at), Some(req)) => {
                    let elapsed = if now >= started_at {
                        now - started_at
                    } else {
                        0
                    };
                    if req <= elapsed {
                        self.promote_player(s, events);
                    }
                },
                _ => {},
            }
        }
        let ghost v3 = self@;
        let ghost e3 = events@;
        // If a device has been in a 'potentially stopped' state for long
        // enough, we can mark the track as truly stopped.
        match (self.decks[d].stopped_time, stop_ms) {
            (Some(stopped_at), Some(req)) => {
                let elapsed = if now >= stopped_at {
                    now - stopped_at
                } else {
                    0
                };
                if req <= elapsed {
                    self.mark_player_stopped(s.device_id, events);
                }
            },
            _ => {},
        }
        proof {
            let v = old(self)@;
            let dd = s.device_id as int;
            let r3 = if v.rules.mode == MixstatusMode::SmartTiming && v.decks[dd].start_time is Some && met(
                play_ms,
                since(now, v.decks[dd].start_time->0),
            ) {
                promote(v, *s)
            } else {
                (v, Seq::<MixEvent>::empty())
            };
            assert(v3 == r3.0);
            assert(e3 =~= e0 + r3.1);
            let r4 = if r3.0.decks[dd].stopped_time is Some && met(
                stop_ms,
                since(now, r3.0.decks[dd].stopped_time->0),
            ) {
                mark_stopped(r3.0, s.device_id)
            } else {
                (r3.0, Seq::<MixEvent>::empty())
            };
            assert(self@ == r4.0);
            assert(events@ =~= e0 + (r3.1 + r4.1));
        }
    }

    /// Feed a player's status to the processor at time `now` (in
    /// milliseconds). `play_ms` is how long a track must have been playing
    /// to be reported in smart timing mode, `stop_ms` how long it may be
    /// interrupted before it counts as stopped; `None` where the tempo is
    /// not known, which no time meets. Returns the events to fire, in order.
    pub fn handle_state(&mut self, s: PlayerStatus, now: u64, play_ms: Option<u64>, stop_ms: Option<u64>) -> (r: Vec<
        MixEvent,
    >)
        requires
            mix_valid(old(self)@),
        ensures
            mix_valid(final(self)@),
            final(self)@ == handled(old(self)@, s, now, play_ms, stop_ms).0,
            r@ == handled(old(self)@, s, now, play_ms, stop_ms).1,
    {
        let mut events: Vec<MixEvent> = Vec::new();
        let d = s.device_id as usize;
        let last = self.decks[d].last_state;
        let deck = self.decks[d];
        self.decks.set(d, Deck { last_state: Some(s), ..deck });
        let ghost v0 = self@;

        // If this is the first time we've heard from this CDJ, and it is on
        // air and playing, report it immediately. This is different from
        // reporting the first playing track, as the CDJ will have already
        // sent many states.
        if last.is_none() && self.on_air(&s) && is_playing(s.play_state) {
            let deck = self.decks[d];
            self.decks.set(d, Deck { start_time: Some(now), ..deck });
            self.player_may_be_first(&s, &mut events);
            assert(events@ =~= Seq::<MixEvent>::empty() + may_be_first(
                with_deck(v0, d as int, Deck { start_time: Some(now), ..v0.decks[d as int] }),
                s,
            ).1);
            return events;
        }

        // Play state has changed since this player last reported
        match last {
            Some(l) => {
                if l.play_state != s.play_state {
                    self.handle_playstate_change(&l, &s, now, &mut events);
                }
            },
            None => {},
        }
        let ghost v1 = self@;
        let ghost e1 = events@;

        match last {
            Some(l) => {
                if self.on_air(&l) != self.on_air(&s) {
                    self.handle_onair_change(&s, now, &mut events);
                }
            },
            None => {},
        }
        let ghost v2 = self@;
        let ghost e2 = events@;

        // Are we simply following master?
        let was_not_master = match last {
            Some(l) => !l.is_master,
            None => false,
        };
        if self.rules.mode == MixstatusMode::FollowsMaster && was_not_master && s.is_master {
            self.promote_player(&s, &mut events);
        } else {
            self.timing_checks(&s, now, play_ms, stop_ms, &mut events);
        }
        proof {
            let v = old(self)@;
            let r1 = if last matches Some(l) && l.play_state != s.play_state {
                playstate_change(v0, last->0, s, now)
            } else {
                (v0, Seq::<MixEvent>::empty())
            };
            assert(v1 == r1.0);
            assert(e1 =~= r1.1);
            let r2 = if last matches Some(l) && on_air(v.rules, l) != on_air(v.rules, s) {
                onair_change(r1.0, s, now)
            } else {
                (r1.0, Seq::<MixEvent>::empty())
            };
            assert(v2 == r2.0);
            assert(e2 =~= r1.1 + r2.1);
        }
        events
    }

    /// Manually reports the track that has been playing the longest which
    /// has not yet been reported as live.
    pub fn trigger_next_track(&mut self) -> (r: Vec<MixEvent>)
        requires
            mix_valid(old(self)@),
        ensures
            mix_valid(final(self)@),
            final(self)@ == promote_next(old(self)@).0,
            r@ == promote_next(old(self)@).1,
    {
        let mut events: Vec<MixEvent> = Vec::new();
        self.promote_next_player(&mut events);
        assert(events@ =~= Seq::<MixEvent>::empty() + promote_next(old(self)@).1);
        events
    }

    /// The set-ending timer ran out: whether the set ended (it ends only
    /// while a set is active).
    pub fn set_end_elapsed(&mut self) -> (r: bool)
        requires
            mix_valid(old(self)@),
        ensures
            mix_valid(final(self)@),
            final(self)@ == (MixV { set_ending: false, ..old(self)@ }),
            r == old(self)@.is_set_active,
    {
        self.set_ending = false;
        self.is_set_active
    }
}


/// No event reports player `d` as now playing.
pub open spec fn quiet(e: Seq<MixEvent>, d: u8) -> bool {
    forall|k: int| 0 <= k < e.len() ==> e[k] != MixEvent::NowPlaying(d)
}

/// The deck of `s`'s player holds `s` and last reported `s`'s track.
spec fn holds_reported(v: MixV, s: PlayerStatus) -> bool {
    &&& mix_valid(v)
    &&& v.decks[s.device_id as int].last_emitted == Some(s.track_id)
    &&& v.decks[s.device_id as int].last_state == Some(s)
}

proof fn lemma_quiet_concat(a: Seq<MixEvent>, b: Seq<MixEvent>, d: u8)
    requires
        quiet(a, d),
        quiet(b, d),
    ensures
        quiet(a + b, d),
{
    assert forall|k: int| 0 <= k < (a + b).len() implies (a + b)[k] != MixEvent::NowPlaying(d) by {
        if k < a.len() {
            assert((a + b)[k] == a[k]);
        } else {
            assert((a + b)[k] == b[k - a.len()]);
        }
    }
}

proof fn lemma_promote_quiet(v: MixV, s: PlayerStatus, x: PlayerStatus)
    requires
        holds_reported(v, s),
        x.device_id == s.device_id ==> x.track_id == s.track_id,
    ensures
        holds_reported(promote(v, x).0, s),
        quiet(promote(v, x).1, s.device_id),
{
    let r = promote(v, x);
    if x.device_id != s.device_id {
        assert forall|i: int| 0 <= i < 256 implies ((#[trigger] r.0.decks[i]).last_state matches Some(y) ==> y.device_id
            == i) by {
            assert(r.0.decks[i].last_state == v.decks[i].last_state);
        }
        assert forall|k: int| 0 <= k < r.1.len() implies r.1[k] != MixEvent::NowPlaying(s.device_id) by {
            if let MixEvent::NowPlaying(e) = r.1[k] {
                assert(e == x.device_id);
            }
        }
    }
}

proof fn lemma_set_may_stop_quiet(v: MixV, s: PlayerStatus)
    requires
        holds_reported(v, s),
    ensures
        holds_reported(set_may_stop(v).0, s),
        quiet(set_may_stop(v).1, s.device_id),
{
}

proof fn lemma_promote_next_quiet(v: MixV, s: PlayerStatus)
    requires
        holds_reported(v, s),
    ensures
        holds_reported(promote_next(v).0, s),
        quiet(promote_next(v).1, s.device_id),
{
    lemma_next_candidate_range(v, 256);
    match next_candidate(v, 256) {
        Some(i) => {
            let x = v.decks[i].last_state->0;
            assert(v.decks[i].last_state matches Some(y) ==> y.device_id == i);
            if x.device_id == s.device_id {
                assert(x == s);
            }
            lemma_promote_quiet(v, s, x);
        },
        None => lemma_set_may_stop_quiet(v, s),
    }
}

/// A deck change that keeps each deck's status and last report.
spec fn same_reports(a: MixV, b: MixV) -> bool {
    &&& a.decks.len() == b.decks.len()
    &&& forall|i: int| 0 <= i < a.decks.len() ==> (#[trigger] b.decks[i]).last_state == a.decks[i].last_state
        && b.decks[i].last_emitted == a.decks[i].last_emitted
}

proof fn lemma_same_reports(a: MixV, b: MixV, s: PlayerStatus)
    requires
        holds_reported(a, s),
        same_reports(a, b),
    ensures
        holds_reported(b, s),
{
    assert forall|i: int| 0 <= i < 256 implies ((#[trigger] b.decks[i]).last_state matches Some(y) ==> y.device_id
        == i) by {
        assert(b.decks[i].last_state == a.decks[i].last_state);
        assert(a.decks[i].last_state matches Some(y) ==> y.device_id == i);
    }
}

proof fn lemma_mark_stopped_quiet(v: MixV, s: PlayerStatus, e: u8)
    requires
        holds_reported(v, s),
    ensures
        holds_reported(mark_stopped(v, e).0, s),
        quiet(mark_stopped(v, e).1, s.device_id),
{
    let deck = Deck { stopped_time: None, start_time: None, live: false, ..v.decks[e as int] };
    let v1 = with_deck(v, e as int, deck);
    lemma_same_reports(v, v1, s);
    lemma_promote_next_quiet(v1, s);
    let r = promote_next(v1);
    assert(quiet(seq![MixEvent::Stopped(e)], s.device_id));
    lemma_quiet_concat(r.1, seq![MixEvent::Stopped(e)], s.device_id);
    assert(r.1.push(MixEvent::Stopped(e)) =~= r.1 + seq![MixEvent::Stopped(e)]);
}

proof fn lemma_may_be_first_quiet(v: MixV, s: PlayerStatus)
    requires
        holds_reported(v, s),
    ensures
        holds_reported(may_be_first(v, s).0, s),
        quiet(may_be_first(v, s).1, s.device_id),
{
    if !others_playing(v, s) {
        lemma_promote_quiet(v, s, s);
    }
}

proof fn lemma_with_times_quiet(v: MixV, s: PlayerStatus, d: u8, deck: Deck)
    requires
        holds_reported(v, s),
        deck.last_state == v.decks[d as int].last_state,
        deck.last_emitted == v.decks[d as int].last_emitted,
    ensures
        holds_reported(with_deck(v, d as int, deck), s),
{
    lemma_same_reports(v, with_deck(v, d as int, deck), s);
}

proof fn lemma_playstate_change_quiet(v: MixV, last: PlayerStatus, s: PlayerStatus, now: u64)
    requires
        holds_reported(v, s),
    ensures
        holds_reported(playstate_change(v, last, s, now).0, s),
        quiet(playstate_change(v, last, s, now).1, s.device_id),
{
    let d = s.device_id;
    let following = v.rules.mode == MixstatusMode::FollowsMaster && s.is_master;
    let now_playing = is_playing_state(s);
    let was_playing = is_playing_state(last);
    let started = now_playing && !was_playing;
    if v.decks[d as int].stopped_time is Some && now_playing && on_air(v.rules, s) {
        lemma_with_times_quiet(v, s, d, Deck { stopped_time: None, ..v.decks[d as int] });
    } else if started {
        let r1 = if following {
            promote(v, s)
        } else {
            (v, Seq::<MixEvent>::empty())
        };
        if following {
            lemma_promote_quiet(v, s, s);
        }
        let v2 = with_deck(r1.0, d as int, Deck { start_time: Some(now), ..r1.0.decks[d as int] });
        lemma_with_times_quiet(r1.0, s, d, Deck { start_time: Some(now), ..r1.0.decks[d as int] });
        lemma_may_be_first_quiet(v2, s);
        lemma_quiet_concat(r1.1, may_be_first(v2, s).1, d);
    } else if was_playing && is_stopping_state(s) {
        lemma_mark_stopped_quiet(v, s, d);
    } else if was_playing && !now_playing {
        lemma_with_times_quiet(v, s, d, Deck { stopped_time: Some(now), ..v.decks[d as int] });
    }
}

proof fn lemma_onair_change_quiet(v: MixV, s: PlayerStatus, now: u64)
    requires
        holds_reported(v, s),
    ensures
        holds_reported(onair_change(v, s, now).0, s),
        quiet(onair_change(v, s, now).1, s.device_id),
{
    let d = s.device_id;
    lemma_may_be_first_quiet(v, s);
    let r = may_be_first(v, s);
    lemma_with_times_quiet(r.0, s, d, Deck { stopped_time: Some(now), ..r.0.decks[d as int] });
    lemma_with_times_quiet(r.0, s, d, Deck { stopped_time: None, ..r.0.decks[d as int] });
}

proof fn lemma_timing_checks_quiet(v: MixV, s: PlayerStatus, now: u64, play_ms: Option<u64>, stop_ms: Option<u64>)
    requires
        holds_reported(v, s),
    ensures
        holds_reported(timing_checks(v, s, now, play_ms, stop_ms).0, s),
        quiet(timing_checks(v, s, now, play_ms, stop_ms).1, s.device_id),
{
    let d = s.device_id as int;
    let r3 = if v.rules.mode == MixstatusMode::SmartTiming && v.decks[d].start_time is Some && met(
        play_ms,
        since(now, v.decks[d].start_time->0),
    ) {
        promote(v, s)
    } else {
        (v, Seq::<MixEvent>::empty())
    };
    lemma_promote_quiet(v, s, s);
    lemma_mark_stopped_quiet(r3.0, s, s.device_id);
    let r4 = if r3.0.decks[d].stopped_time is Some && met(stop_ms, since(now, r3.0.decks[d].stopped_time->0)) {
        mark_stopped(r3.0, s.device_id)
    } else {
        (r3.0, Seq::<MixEvent>::empty())
    };
    lemma_quiet_concat(r3.1, r4.1, s.device_id);
}

/// A player is not reported as now playing again for the track it was last
/// reported with: cueing and resuming the same track on a deck reports
/// nothing new, whatever the rest of the status says.
pub proof fn law_same_track_not_reported_again(
    v: MixV,
    s: PlayerStatus,
    now: u64,
    play_ms: Option<u64>,
    stop_ms: Option<u64>,
)
    requires
        mix_valid(v),
        v.decks[s.device_id as int].last_emitted == Some(s.track_id),
    ensures
        quiet(handled(v, s, now, play_ms, stop_ms).1, s.device_id),
{
    let d = s.device_id as int;
    let last = v.decks[d].last_state;
    let v0 = with_deck(v, d, Deck { last_state: Some(s), ..v.decks[d] });
    assert forall|i: int| 0 <= i < 256 implies ((#[trigger] v0.decks[i]).last_state matches Some(y) ==> y.device_id
        == i) by {
        if i != d {
            assert(v0.decks[i] == v.decks[i]);
        }
    }
    assert(holds_reported(v0, s));
    if last is None && on_air(v.rules, s) && is_playing_state(s) {
        let v1 = with_deck(v0, d, Deck { start_time: Some(now), ..v0.decks[d] });
        lemma_with_times_quiet(v0, s, s.device_id, Deck { start_time: Some(now), ..v0.decks[d] });
        lemma_may_be_first_quiet(v1, s);
    } else {
        let r1 = if last matches Some(l) && l.play_state != s.play_state {
            playstate_change(v0, last->0, s, now)
        } else {
            (v0, Seq::<MixEvent>::empty())
        };
        lemma_playstate_change_quiet(v0, last->0, s, now);
        let r2 = if last matches Some(l) && on_air(v.rules, l) != on_air(v.rules, s) {
            onair_change(r1.0, s, now)
        } else {
            (r1.0, Seq::<MixEvent>::empty())
        };
        lemma_onair_change_quiet(r1.0, s, now);
        lemma_quiet_concat(r1.1, r2.1, s.device_id);
        lemma_promote_quiet(r2.0, s, s);
        lemma_timing_checks_quiet(r2.0, s, now, play_ms, stop_ms);
        lemma_quiet_concat(r1.1 + r2.1, promote(r2.0, s).1, s.device_id);
        lemma_quiet_concat(r1.1 + r2.1, timing_checks(r2.0, s, now, play_ms, stop_ms).1, s.device_id);
    }
}

proof fn lemma_active_kept_promote(v: MixV, x: PlayerStatus)
    ensures
        v.is_set_active ==> promote(v, x).0.is_set_active,
        promote(v, x).0.rules == v.rules,
{
}

proof fn lemma_active_kept_promote_next(v: MixV)
    ensures
        v.is_set_active ==> promote_next(v).0.is_set_active,
        promote_next(v).0.rules == v.rules,
{
    match next_candidate(v, v.decks.len() as int) {
        Some(i) => lemma_active_kept_promote(v, v.decks[i].last_state->0),
        None => {},
    }
}

proof fn lemma_active_kept_mark_stopped(v: MixV, d: u8)
    ensures
        v.is_set_active ==> mark_stopped(v, d).0.is_set_active,
        mark_stopped(v, d).0.rules == v.rules,
{
    let deck = Deck { stopped_time: None, start_time: None, live: false, ..v.decks[d as int] };
    lemma_active_kept_promote_next(with_deck(v, d as int, deck));
}

/// Once a DJ set has started it stays started: no status ends it, only the
/// set-ending timer reports its end. Nor does a status change the rules.
pub proof fn law_set_stays_active(v: MixV, s: PlayerStatus, now: u64, play_ms: Option<u64>, stop_ms: Option<u64>)
    ensures
        v.is_set_active ==> handled(v, s, now, play_ms, stop_ms).0.is_set_active,
        handled(v, s, now, play_ms, stop_ms).0.rules == v.rules,
{
    let d = s.device_id as int;
    let last = v.decks[d].last_state;
    let v0 = with_deck(v, d, Deck { last_state: Some(s), ..v.decks[d] });
    if last is None && on_air(v.rules, s) && is_playing_state(s) {
        let v1 = with_deck(v0, d, Deck { start_time: Some(now), ..v0.decks[d] });
        lemma_active_kept_promote(v1, s);
    } else {
        let l = last->0;
        let following = v0.rules.mode == MixstatusMode::FollowsMaster && s.is_master;
        let r1a = if following {
            promote(v0, s)
        } else {
            (v0, Seq::<MixEvent>::empty())
        };
        lemma_active_kept_promote(v0, s);
        lemma_active_kept_promote(with_deck(r1a.0, d, Deck { start_time: Some(now), ..r1a.0.decks[d] }), s);
        lemma_active_kept_mark_stopped(v0, s.device_id);
        let r1 = if last matches Some(l) && l.play_state != s.play_state {
            playstate_change(v0, last->0, s, now)
        } else {
            (v0, Seq::<MixEvent>::empty())
        };
        lemma_active_kept_promote(r1.0, s);
        let r2 = if last matches Some(l) && on_air(v.rules, l) != on_air(v.rules, s) {
            onair_change(r1.0, s, now)
        } else {
            (r1.0, Seq::<MixEvent>::empty())
        };
        lemma_active_kept_promote(r2.0, s);
        let r3 = if r2.0.rules.mode == MixstatusMode::SmartTiming && r2.0.decks[d].start_time is Some && met(
            play_ms,
            since(now, r2.0.decks[d].start_time->0),
        ) {
            promote(r2.0, s)
        } else {
            (r2.0, Seq::<MixEvent>::empty())
        };
        lemma_active_kept_mark_stopped(r3.0, s.device_id);
    }
}

} // verus!
