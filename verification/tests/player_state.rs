use logic::player::state::PlayerState;
use logic::server_time::ServerTime;

#[test]
fn new_player_starts_inside_current_reset_windows() {
    let now = 1_753_457_089_856;
    let state = PlayerState::new(7_316_298, now);

    assert_eq!(state.last_daily_reset_time, Some(now));
    assert_eq!(state.last_weekly_reset_time, Some(now));
    assert_eq!(state.last_monthly_reset_time, Some(now));
    assert!(!state.is_new_server_day(now));
    assert!(!state.is_new_week(now));
    assert!(!state.is_new_month(now));
}

#[test]
fn next_day_is_a_new_server_day_week_boundary_and_month() {
    let now = 1_784_829_600_000;
    let state = PlayerState::new(1, now);
    let next_day = ServerTime::next_daily_refresh_sec(now) * 1000;
    assert!(!state.is_new_server_day(next_day - 1));
    assert!(state.is_new_server_day(next_day));
    let next_week = ServerTime::next_weekly_refresh_sec(now) * 1000;
    assert!(!state.is_new_week(next_week - 1));
    assert!(state.is_new_week(next_week));
}

#[test]
fn claimed_reward_is_not_due_again_the_same_day() {
    let now = 1_784_829_600_000;
    let mut state = PlayerState::new(2, now);
    state.mark_daily_reward_claimed(now);
    assert!(!state.is_new_reward_day(now + 1000));
    let next_day = ServerTime::next_daily_refresh_sec(now) * 1000;
    assert!(state.is_new_reward_day(next_day));
}

#[test]
fn state_push_is_sent_once_per_day() {
    let now = 1_784_829_600_000;
    let mut state = PlayerState::new(3, now);
    state.mark_state_push_sent(now);
    assert!(!state.needs_state_push(now + 60_000));
}

#[test]
fn server_time_matches_the_event_expiry_values() {
    let now = 1_784_829_600_000;
    assert_eq!(ServerTime::next_daily_refresh_sec(now), 1_784_887_200);
    assert_eq!(ServerTime::next_weekly_refresh_sec(now), 1_785_146_400);
    assert_eq!(ServerTime::server_utc_offset_ms(), -18_000_000);
}
