use crate::server_time::{server_day_spec, server_month_spec, server_week_spec, ServerTime};
use vstd::prelude::*;

verus! {

/// Per-player bookkeeping of logins, pushes, claims and period resets, all as
/// millisecond timestamps.
#[derive(Debug, Clone)]
pub struct PlayerState {
    pub player_id: i64,
    pub initial_login_complete: bool,
    pub created_at: i64,
    pub updated_at: i64,
    pub last_login_timestamp: Option<i64>,
    pub last_state_push_sent_timestamp: Option<i64>,
    pub last_activity_push_sent_timestamp: Option<i64>,
    pub last_daily_reward_time: Option<i64>,
    pub last_daily_reset_time: Option<i64>,
    pub month_card_claimed: bool,
    pub last_month_card_claim_timestamp: Option<i64>,
    pub last_sign_in_day: i64,
    pub last_sign_in_time: Option<i64>,
    pub vip_level: i32,
    pub last_energy_refill_time: Option<i64>,
    pub last_weekly_reset_time: Option<i64>,
    pub last_monthly_reset_time: Option<i64>,
}

/// No stamp yet, or a stamp in another server day than `now`.
pub open spec fn new_day_since(stamp: Option<i64>, now: i64) -> bool {
    match stamp {
        Some(ts) => server_day_spec(ts as int) != server_day_spec(now as int),
        None => true,
    }
}

/// No stamp yet, or a stamp in another server week than `now`.
pub open spec fn new_week_since(stamp: Option<i64>, now: i64) -> bool {
    match stamp {
        Some(ts) => server_week_spec(ts as int) != server_week_spec(now as int),
        None => true,
    }
}

/// No stamp yet, or a stamp in another server month than `now`.
pub open spec fn new_month_since(stamp: Option<i64>, now: i64) -> bool {
    match stamp {
        Some(ts) => server_month_spec(ts as int) != server_month_spec(now as int),
        None => true,
    }
}

/// A player made at `now` is inside the day, week and month that hold `now`:
/// none of the resets is due at that moment.
pub proof fn law_new_player_inside_reset_windows(player_id: i64, now: i64, s: PlayerState)
    requires
        s == PlayerState::new_value(player_id, now),
    ensures
        !s.new_server_day(now),
        !s.new_week(now),
        !s.new_month(now),
        s.new_reward_day(now),
        s.state_push_due(now),
        s.activity_push_due(now),
{
}

/// Once the daily reward is claimed at `now`, it is not due again in that server day.
pub proof fn law_reward_claimed_not_due_same_day(s: PlayerState, now: i64, later: i64)
    requires
        server_day_spec(later as int) == server_day_spec(now as int),
    ensures
        !(PlayerState { last_daily_reward_time: Some(now), updated_at: now, ..s }).new_reward_day(
            later,
        ),
{
}

/// Once the state push is sent at `now`, it is not due again in that server day,
/// and it is due again in any other server day.
pub proof fn law_state_push_once_per_day(s: PlayerState, now: i64, later: i64)
    ensures
        (PlayerState { last_state_push_sent_timestamp: Some(now), updated_at: now, ..s })
            .state_push_due(later) <==> server_day_spec(later as int) != server_day_spec(
            now as int,
        ),
{
}

/// Once the activity pushes are sent, they are due again only after the daily reset.
pub proof fn law_activity_push_waits_for_reset(s: PlayerState, now: i64, later: i64)
    ensures
        (PlayerState { last_activity_push_sent_timestamp: Some(now), updated_at: now, ..s })
            .activity_push_due(later) == s.new_server_day(later),
{
}

fn differs_day(stamp: Option<i64>, now_ms: i64) -> (res: bool)
    ensures
        res == new_day_since(stamp, now_ms),
{
    match stamp {
        Some(ts) => ServerTime::server_day(ts) != ServerTime::server_day(now_ms),
        None => true,
    }
}

impl PlayerState {
    /// `is_new_server_day` as a spec function.
    pub open spec fn new_server_day(self, now: i64) -> bool {
        new_day_since(self.last_daily_reset_time, now)
    }

    /// `is_new_reward_day` as a spec function.
    pub open spec fn new_reward_day(self, now: i64) -> bool {
        new_day_since(self.last_daily_reward_time, now)
    }

    /// `is_new_week` as a spec function.
    pub open spec fn new_week(self, now: i64) -> bool {
        new_week_since(self.last_weekly_reset_time, now)
    }

    /// `is_new_month` as a spec function.
    pub open spec fn new_month(self, now: i64) -> bool {
        new_month_since(self.last_monthly_reset_time, now)
    }

    /// `needs_state_push` as a spec function.
    pub open spec fn state_push_due(self, now: i64) -> bool {
        new_day_since(self.last_state_push_sent_timestamp, now)
    }

    /// `needs_activity_push` as a spec function.
    pub open spec fn activity_push_due(self, now: i64) -> bool {
        self.new_server_day(now) || self.last_activity_push_sent_timestamp is None
    }

    /// The state that `new` makes.
    pub open spec fn new_value(player_id: i64, now_ms: i64) -> PlayerState {
        PlayerState {
                player_id,
                initial_login_complete: false,
                created_at: now_ms,
                updated_at: now_ms,
                last_login_timestamp: Some(now_ms),
                last_state_push_sent_timestamp: None,
                last_activity_push_sent_timestamp: None,
                last_daily_reward_time: None,
                last_daily_reset_time: Some(now_ms),
                month_card_claimed: false,
                last_month_card_claim_timestamp: None,
                last_sign_in_day: server_day_spec(now_ms as int) as i64,
                last_sign_in_time: Some(now_ms),
                vip_level: 0,
                last_energy_refill_time: None,
                last_weekly_reset_time: Some(now_ms),
                last_monthly_reset_time: Some(now_ms),
            }
    }

    /// A fresh player, logged in at `now_ms` and inside the current day, week and
    /// month reset windows.
    pub fn new(player_id: i64, now_ms: i64) -> (s: Self)
        ensures
            s == PlayerState::new_value(player_id, now_ms),
    {
        let server_day = ServerTime::server_day(now_ms);
        PlayerState {
            player_id,
            initial_login_complete: false,
            created_at: now_ms,
            updated_at: now_ms,
            last_login_timestamp: Some(now_ms),
            last_state_push_sent_timestamp: None,
            last_activity_push_sent_timestamp: None,
            last_daily_reward_time: None,
            last_daily_reset_time: Some(now_ms),
            month_card_claimed: false,
            last_month_card_claim_timestamp: None,
            last_sign_in_day: server_day,
            last_sign_in_time: Some(now_ms),
            vip_level: 0,
            last_energy_refill_time: None,
            last_weekly_reset_time: Some(now_ms),
            last_monthly_reset_time: Some(now_ms),
        }
    }

    /// Whether the daily reset has not happened yet in the server day of `now_ms`.
    pub fn is_new_server_day(&self, now_ms: i64) -> (res: bool)
        ensures
            res == self.new_server_day(now_ms),
    {
        differs_day(self.last_daily_reset_time, now_ms)
    }

    /// Whether the daily reward has not been taken yet in the server day of `now_ms`.
    pub fn is_new_reward_day(&self, now_ms: i64) -> (res: bool)
        ensures
            res == self.new_reward_day(now_ms),
    {
        differs_day(self.last_daily_reward_time, now_ms)
    }

    /// Whether the weekly reset has not happened yet in the server week of `now_ms`.
    pub fn is_new_week(&self, now_ms: i64) -> (res: bool)
        ensures
            res == self.new_week(now_ms),
    {
        match self.last_weekly_reset_time {
            Some(ts) => ServerTime::server_week(ts) != ServerTime::server_week(now_ms),
            None => true,
        }
    }

    /// Whether the monthly reset has not happened yet in the server month of `now_ms`.
    pub fn is_new_month(&self, now_ms: i64) -> (res: bool)
        ensures
            res == self.new_month(now_ms),
    {
        match self.last_monthly_reset_time {
            Some(ts) => ServerTime::server_month(ts) != ServerTime::server_month(now_ms),
            None => true,
        }
    }

    /// Whether the state push is still to be sent in the server day of `now_ms`.
    pub fn needs_state_push(&self, now_ms: i64) -> (res: bool)
        ensures
            res == self.state_push_due(now_ms),
    {
        differs_day(self.last_state_push_sent_timestamp, now_ms)
    }

    /// Whether the activity pushes are due: on a new server day, or never sent.
    pub fn needs_activity_push(&self, now_ms: i64) -> (res: bool)
        ensures
            res == self.activity_push_due(now_ms),
    {
        self.is_new_server_day(now_ms) || self.last_activity_push_sent_timestamp.is_none()
    }

    pub fn mark_login_complete(&mut self, now_ms: i64)
        ensures
            *final(self) == (PlayerState {
                initial_login_complete: true,
                updated_at: now_ms,
                ..*old(self)
            }),
    {
        self.initial_login_complete = true;
        self.updated_at = now_ms;
    }

    pub fn mark_daily_reward_claimed(&mut self, now_ms: i64)
        ensures
            *final(self) == (PlayerState {
                last_daily_reward_time: Some(now_ms),
                updated_at: now_ms,
                ..*old(self)
            }),
    {
        self.last_daily_reward_time = Some(now_ms);
        self.updated_at = now_ms;
    }

    pub fn mark_activity_pushes_sent(&mut self, current_time: i64)
        ensures
            *final(self) == (PlayerState {
                last_activity_push_sent_timestamp: Some(current_time),
                updated_at: current_time,
                ..*old(self)
            }),
    {
        self.last_activity_push_sent_timestamp = Some(current_time);
        self.updated_at = current_time;
    }

    pub fn claim_month_card(&mut self, now_ms: i64)
        ensures
            *final(self) == (PlayerState {
                month_card_claimed: true,
                last_month_card_claim_timestamp: Some(now_ms),
                updated_at: now_ms,
                ..*old(self)
            }),
    {
        self.month_card_claimed = true;
        self.last_month_card_claim_timestamp = Some(now_ms);
        self.updated_at = now_ms;
    }

    pub fn mark_state_push_sent(&mut self, now_ms: i64)
        ensures
            *final(self) == (PlayerState {
                last_state_push_sent_timestamp: Some(now_ms),
                updated_at: now_ms,
                ..*old(self)
            }),
    {
        self.last_state_push_sent_timestamp = Some(now_ms);
        self.updated_at = now_ms;
    }

    pub fn mark_activity_push_sent(&mut self, now_ms: i64)
        ensures
            *final(self) == (PlayerState {
                last_activity_push_sent_timestamp: Some(now_ms),
                updated_at: now_ms,
                ..*old(self)
            }),
    {
        self.last_activity_push_sent_timestamp = Some(now_ms);
        self.updated_at = now_ms;
    }
}

} // verus!
