use alphatheta_connect::mixstatus::utils::{is_playing, is_stopping};
use alphatheta_connect::mixstatus::{MixEvent, MixRules, MixState, MixstatusMode, PlayerStatus};
use alphatheta_connect::types::PlayState;

const NOW: u64 = 1_000;
// 128 beats and 8 beats at 128 BPM, in milliseconds.
const PLAY_MS: Option<u64> = Some(60_000);
const STOP_MS: Option<u64> = Some(3_750);

fn state(device_id: u8, track_id: u32, play_state: PlayState, on_air: bool) -> PlayerStatus {
    PlayerStatus { device_id, track_id, play_state, is_on_air: on_air, is_master: false }
}

fn processor(mode: MixstatusMode) -> MixState {
    MixState::new(MixRules { mode, use_on_air_status: true })
}

fn feed(p: &mut MixState, s: PlayerStatus) -> Vec<MixEvent> {
    p.handle_state(s, NOW, PLAY_MS, STOP_MS)
}

fn now_playing(events: &[MixEvent]) -> Vec<u8> {
    events
        .iter()
        .filter_map(|e| match e {
            MixEvent::NowPlaying(d) => Some(*d),
            _ => None,
        })
        .collect()
}

#[test]
fn first_on_air_playing_player_is_now_playing() {
    let mut p = processor(MixstatusMode::SmartTiming);
    let events = feed(&mut p, state(1, 10, PlayState::Playing, true));
    assert_eq!(events, vec![MixEvent::SetStarted, MixEvent::NowPlaying(1)]);
    assert_eq!(p.deck(1).last_emitted, Some(10));
    assert!(p.is_set_active());
}

#[test]
fn second_player_waits_while_first_plays() {
    let mut p = processor(MixstatusMode::SmartTiming);
    assert_eq!(now_playing(&feed(&mut p, state(1, 10, PlayState::Playing, true))), vec![1]);
    assert!(feed(&mut p, state(2, 20, PlayState::Cued, true)).is_empty());
    assert!(now_playing(&feed(&mut p, state(2, 20, PlayState::Playing, true))).is_empty());

    // Player 1 cues: player 2 is promoted and player 1 reports stopped.
    let events = feed(&mut p, state(1, 10, PlayState::Cued, true));
    assert_eq!(events, vec![MixEvent::NowPlaying(2), MixEvent::Stopped(1)]);
}

#[test]
fn same_track_resume_does_not_re_emit() {
    let mut p = processor(MixstatusMode::SmartTiming);
    assert_eq!(now_playing(&feed(&mut p, state(1, 10, PlayState::Playing, true))), vec![1]);
    feed(&mut p, state(1, 10, PlayState::Cued, true));
    assert!(now_playing(&feed(&mut p, state(1, 10, PlayState::Playing, true))).is_empty());
    feed(&mut p, state(1, 11, PlayState::Cued, true));
    let events = feed(&mut p, state(1, 11, PlayState::Playing, true));
    assert_eq!(now_playing(&events), vec![1]);
    assert_eq!(p.deck(1).last_emitted, Some(11));
}

#[test]
fn follows_master_mode() {
    let mut p = processor(MixstatusMode::FollowsMaster);
    assert_eq!(now_playing(&feed(&mut p, state(1, 10, PlayState::Playing, true))), vec![1]);
    feed(&mut p, state(2, 20, PlayState::Cued, true));
    assert!(now_playing(&feed(&mut p, state(2, 20, PlayState::Playing, true))).is_empty());
    let mut master = state(2, 20, PlayState::Playing, true);
    master.is_master = true;
    assert_eq!(now_playing(&feed(&mut p, master)), vec![2]);
}

#[test]
fn set_ends_after_silence() {
    let mut p = processor(MixstatusMode::SmartTiming);
    feed(&mut p, state(1, 10, PlayState::Playing, true));
    let events = feed(&mut p, state(1, 10, PlayState::Cued, true));
    assert_eq!(events, vec![MixEvent::StartSetEndTimer, MixEvent::Stopped(1)]);
    // a stop does not end the set; the caller's timer running out does
    assert!(p.is_set_active());
    assert!(p.set_end_elapsed());
}

#[test]
fn smart_timing_reports_after_enough_beats() {
    let mut p = processor(MixstatusMode::SmartTiming);
    feed(&mut p, state(1, 10, PlayState::Playing, true));
    feed(&mut p, state(2, 20, PlayState::Cued, true));
    feed(&mut p, state(2, 20, PlayState::Playing, true));
    let early = p.handle_state(state(2, 20, PlayState::Playing, true), NOW + 59_999, PLAY_MS, STOP_MS);
    assert!(early.is_empty());
    let late = p.handle_state(state(2, 20, PlayState::Playing, true), NOW + 60_000, PLAY_MS, STOP_MS);
    assert_eq!(late, vec![MixEvent::NowPlaying(2)]);
    // without a tempo no time is long enough
    let mut q = processor(MixstatusMode::SmartTiming);
    feed(&mut q, state(1, 10, PlayState::Playing, true));
    feed(&mut q, state(2, 20, PlayState::Cued, true));
    feed(&mut q, state(2, 20, PlayState::Playing, true));
    assert!(q.handle_state(state(2, 20, PlayState::Playing, true), u64::MAX, None, None).is_empty());
}

#[test]
fn interruption_becomes_a_stop_after_enough_beats() {
    let mut p = processor(MixstatusMode::SmartTiming);
    feed(&mut p, state(1, 10, PlayState::Playing, true));
    // paused: may stop
    assert!(feed(&mut p, state(1, 10, PlayState::Paused, true)).is_empty());
    assert_eq!(p.deck(1).stopped_time, Some(NOW));
    let events = p.handle_state(state(1, 10, PlayState::Paused, true), NOW + 3_750, PLAY_MS, STOP_MS);
    assert_eq!(events, vec![MixEvent::StartSetEndTimer, MixEvent::Stopped(1)]);
}

#[test]
fn going_off_air_and_back_keeps_the_player_live() {
    let mut p = processor(MixstatusMode::SmartTiming);
    feed(&mut p, state(1, 10, PlayState::Playing, true));
    assert!(feed(&mut p, state(1, 10, PlayState::Playing, false)).is_empty());
    assert_eq!(p.deck(1).stopped_time, Some(NOW));
    assert!(feed(&mut p, state(1, 10, PlayState::Playing, true)).is_empty());
    assert_eq!(p.deck(1).stopped_time, None);
    assert!(p.deck(1).live);
}

#[test]
fn manual_trigger_reports_the_longest_playing() {
    let mut p = processor(MixstatusMode::WaitsForSilence);
    feed(&mut p, state(1, 10, PlayState::Playing, true));
    feed(&mut p, state(3, 30, PlayState::Cued, true));
    p.handle_state(state(3, 30, PlayState::Playing, true), 5, PLAY_MS, STOP_MS);
    feed(&mut p, state(2, 20, PlayState::Cued, true));
    p.handle_state(state(2, 20, PlayState::Playing, true), 9, PLAY_MS, STOP_MS);
    assert_eq!(p.trigger_next_track(), vec![MixEvent::NowPlaying(3)]);
    assert_eq!(p.trigger_next_track(), vec![MixEvent::NowPlaying(2)]);
}

#[test]
fn play_state_classes() {
    assert!(is_playing(PlayState::Looping));
    assert!(!is_playing(PlayState::Paused));
    assert!(is_stopping(PlayState::Loading));
    assert!(!is_stopping(PlayState::Paused));
}

#[test]
fn a_stop_promotes_the_player_that_started_first() {
    let mut p = processor(MixstatusMode::SmartTiming);
    assert_eq!(now_playing(&p.handle_state(state(1, 10, PlayState::Playing, true), 1_000, PLAY_MS, STOP_MS)), vec![1]);
    // Player 3 starts before player 2; neither is reported while 1 plays.
    p.handle_state(state(3, 30, PlayState::Cued, true), 2_000, PLAY_MS, STOP_MS);
    assert!(now_playing(&p.handle_state(state(3, 30, PlayState::Playing, true), 2_000, PLAY_MS, STOP_MS)).is_empty());
    p.handle_state(state(2, 20, PlayState::Cued, true), 3_000, PLAY_MS, STOP_MS);
    assert!(now_playing(&p.handle_state(state(2, 20, PlayState::Playing, true), 3_000, PLAY_MS, STOP_MS)).is_empty());
    let events = p.handle_state(state(1, 10, PlayState::Cued, true), 4_000, PLAY_MS, STOP_MS);
    assert_eq!(events, vec![MixEvent::NowPlaying(3), MixEvent::Stopped(1)]);
}
