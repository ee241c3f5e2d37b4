use vstd::prelude::*;

verus! {

/// The server keeps UTC-5 wall-clock time.
pub const SERVER_UTC_OFFSET_MS: i64 = -18_000_000;

/// Daily, weekly and monthly periods turn over at 05:00 server time.
pub const DAILY_RESET_MS: i64 = 18_000_000;

pub const DAY_MS: i64 = 86_400_000;

/// A millisecond timestamp moved so that each server day starts at a multiple of `DAY_MS`.
pub open spec fn shifted_ms(ms: int) -> int {
    ms + SERVER_UTC_OFFSET_MS - DAILY_RESET_MS
}

/// The server day that holds `ms`: whole days since 1970-01-01 05:00 server time,
/// rounded down (days before then are negative).
pub open spec fn server_day_spec(ms: int) -> int {
    shifted_ms(ms) / (DAY_MS as int)
}

/// The server week that holds `ms`; weeks start on Monday at 05:00 server time.
/// Day 0 was a Thursday, hence the shift by three.
pub open spec fn server_week_spec(ms: int) -> int {
    (server_day_spec(ms) + 3) / 7
}

/// Proleptic Gregorian date of a day count since 1970-01-01, as
/// (year, month 1..=12), by the standard era-of-400-years conversion.
pub open spec fn civil_from_days(days: int) -> (int, int) {
    let z = days + 719468;
    let era = z / 146097;
    let doe = z - era * 146097;
    let yoe = (doe - doe / 1460 + doe / 36524 - doe / 146096) / 365;
    let doy = doe - (365 * yoe + yoe / 4 - yoe / 100);
    let mp = (5 * doy + 2) / 153;
    let m = if mp < 10 { mp + 3 } else { mp - 9 };
    let y = yoe + era * 400 + if m <= 2 { 1int } else { 0int };
    (y, m)
}

/// The server month that holds `ms`, counted as `year * 12 + month - 1` of the
/// server day's calendar date.
pub open spec fn server_month_spec(ms: int) -> int {
    let (y, m) = civil_from_days(server_day_spec(ms));
    y * 12 + m - 1
}

/// The first millisecond of the server day after the one that holds `ms`.
pub open spec fn next_daily_refresh_ms_spec(ms: int) -> int {
    (server_day_spec(ms) + 1) * (DAY_MS as int) - SERVER_UTC_OFFSET_MS + DAILY_RESET_MS
}

/// The first millisecond of the server week after the one that holds `ms`.
pub open spec fn next_weekly_refresh_ms_spec(ms: int) -> int {
    ((server_week_spec(ms) + 1) * 7 - 3) * (DAY_MS as int) - SERVER_UTC_OFFSET_MS
        + DAILY_RESET_MS
}

/// Time only moves forward through server days: a later timestamp never lies
/// in an earlier day or week.
pub proof fn law_server_periods_monotonic(a: int, b: int)
    requires
        a <= b,
    ensures
        server_day_spec(a) <= server_day_spec(b),
        server_week_spec(a) <= server_week_spec(b),
{
    assert(shifted_ms(a) / (DAY_MS as int) <= shifted_ms(b) / (DAY_MS as int)) by (nonlinear_arith)
        requires
            shifted_ms(a) <= shifted_ms(b),
    ;
    assert((server_day_spec(a) + 3) / 7 <= (server_day_spec(b) + 3) / 7) by (nonlinear_arith)
        requires
            server_day_spec(a) <= server_day_spec(b),
    ;
}

/// Two timestamps in one server day are in one server week and one server month.
pub proof fn law_same_day_same_week_and_month(a: int, b: int)
    requires
        server_day_spec(a) == server_day_spec(b),
    ensures
        server_week_spec(a) == server_week_spec(b),
        server_month_spec(a) == server_month_spec(b),
{
}

/// The next daily refresh lies strictly after `ms`, at the start of the following
/// server day.
pub proof fn law_next_daily_refresh_starts_next_day(ms: int)
    ensures
        next_daily_refresh_ms_spec(ms) > ms,
        server_day_spec(next_daily_refresh_ms_spec(ms)) == server_day_spec(ms) + 1,
{
    let d = server_day_spec(ms);
    let n = next_daily_refresh_ms_spec(ms);
    assert(d * 86_400_000 <= shifted_ms(ms) < (d + 1) * 86_400_000) by (nonlinear_arith)
        requires
            d == shifted_ms(ms) / 86_400_000,
    ;
    assert(shifted_ms(n) == (d + 1) * 86_400_000);
    assert(((d + 1) * 86_400_000) / 86_400_000 == d + 1) by (nonlinear_arith);
}

pub struct ServerTime;

impl ServerTime {
    pub fn server_utc_offset_ms() -> (res: i64)
        ensures
            res == SERVER_UTC_OFFSET_MS,
    {
        SERVER_UTC_OFFSET_MS
    }

    pub fn server_day(ms: i64) -> (res: i64)
        ensures
            res == server_day_spec(ms as int),
            -0x20_0000_0000 < res < 0x20_0000_0000,
    {
        let t: i128 = ms as i128 + SERVER_UTC_OFFSET_MS as i128 - DAILY_RESET_MS as i128;
        let r = t.checked_div_euclid(DAY_MS as i128);
        match r {
            Some(d) => {
                assert(-0x20_0000_0000 < (t as int) / (DAY_MS as int) < 0x20_0000_0000)
                    by (nonlinear_arith)
                    requires
                        -0x8000_0000_0000_0000 - 36_000_000 <= t <= 0x8000_0000_0000_0000,
                ;
                d as i64
            },
            None => {
                assert(false);
                0
            },
        }
    }

    pub fn server_week(ms: i64) -> (res: i64)
        ensures
            res == server_week_spec(ms as int),
            -0x20_0000_0000 < res < 0x20_0000_0000,
    {
        let day = Self::server_day(ms);
        proof {
            assert(-0x4000_0000_0000_0000 < server_day_spec(ms as int)
                < 0x4000_0000_0000_0000) by (nonlinear_arith)
                requires
                    -0x8000_0000_0000_0000 <= ms < 0x8000_0000_0000_0000,
            ;
        }
        let w = (day + 3).checked_div_euclid(7);
        match w {
            Some(w) => {
                assert(-0x20_0000_0000 < (day + 3) / 7 < 0x20_0000_0000)
                    by (nonlinear_arith)
                    requires
                        -0x20_0000_0000 < day < 0x20_0000_0000,
                ;
                w
            },
            None => {
                assert(false);
                0
            },
        }
    }

    pub fn server_month(ms: i64) -> (res: i64)
        ensures
            res == server_month_spec(ms as int),
    {
        let day = Self::server_day(ms);
        let (y, m) = civil_from_days_exec(day);
        proof {
            assert(-0x4000_0000_0000_0000 < server_day_spec(ms as int)
                < 0x4000_0000_0000_0000) by (nonlinear_arith)
                requires
                    -0x8000_0000_0000_0000 <= ms < 0x8000_0000_0000_0000,
            ;
        }
        y * 12 + m - 1
    }

    /// Seconds since the epoch at which the next server day begins.
    pub fn next_daily_refresh_sec(now_ms: i64) -> (res: i64)
        ensures
            res == next_daily_refresh_ms_spec(now_ms as int) / 1000,
    {
        let day = Self::server_day(now_ms);
        assert(-0x20_0000_0000 * 86_400_000 <= (day + 1) * 86_400_000 <= 0x20_0000_0000 * 86_400_000)
            by (nonlinear_arith)
            requires
                -0x20_0000_0000 < day < 0x20_0000_0000,
        ;
        let next: i128 = (day as i128 + 1) * (DAY_MS as i128) - SERVER_UTC_OFFSET_MS as i128
            + DAILY_RESET_MS as i128;
        (next / 1000) as i64
    }

    /// Seconds since the epoch at which the next server week begins.
    pub fn next_weekly_refresh_sec(now_ms: i64) -> (res: i64)
        ensures
            res == next_weekly_refresh_ms_spec(now_ms as int) / 1000,
    {
        let week = Self::server_week(now_ms);
        assert(-0x20_0000_0000 * 8 * 86_400_000 <= ((week + 1) * 7 - 3) * 86_400_000
            <= 0x20_0000_0000 * 8 * 86_400_000) by (nonlinear_arith)
            requires
                -0x20_0000_0000 < week < 0x20_0000_0000,
        ;
        let next: i128 = ((week as i128 + 1) * 7 - 3) * (DAY_MS as i128)
            - SERVER_UTC_OFFSET_MS as i128 + DAILY_RESET_MS as i128;
        (next / 1000) as i64
    }
}

fn civil_from_days_exec(days: i64) -> (res: (i64, i64))
    requires
        -0x4000_0000_0000_0000 < days < 0x4000_0000_0000_0000,
    ensures
        res.0 == civil_from_days(days as int).0,
        res.1 == civil_from_days(days as int).1,
        -0x0100_0000_0000_0000 < res.0 < 0x0100_0000_0000_0000,
        1 <= res.1 <= 12,
{
    let z: i64 = days + 719468;
    let era = match z.checked_div_euclid(146097) {
        Some(e) => e,
        None => {
            assert(false);
            0
        },
    };
    proof {
        assert(0 <= z - era * 146097 < 146097) by (nonlinear_arith)
            requires
                era == z / 146097,
        ;
        assert(-0x0001_0000_0000_0000 < era < 0x0001_0000_0000_0000) by (nonlinear_arith)
            requires
                era == z / 146097,
                -0x4000_0000_0000_0000 < z < 0x4000_0000_0010_0000,
        ;
    }
    let doe: i64 = z - era * 146097;
    let yoe: i64 = (doe - doe / 1460 + doe / 36524 - doe / 146096) / 365;
    proof {
        assert(0 <= yoe <= 400) by (nonlinear_arith)
            requires
                0 <= doe < 146097,
                yoe == (doe - doe / 1460 + doe / 36524 - doe / 146096) / 365,
        ;
    }
    let doy: i64 = doe - (365 * yoe + yoe / 4 - yoe / 100);
    proof {
        assert(0 <= doy <= 365) by (nonlinear_arith)
            requires
                0 <= doe < 146097,
                yoe == (doe - doe / 1460 + doe / 36524 - doe / 146096) / 365,
                doy == doe - (365 * yoe + yoe / 4 - yoe / 100),
        ;
    }
    let mp: i64 = (5 * doy + 2) / 153;
    let m: i64 = if mp < 10 { mp + 3 } else { mp - 9 };
    let y: i64 = yoe + era * 400 + if m <= 2 { 1i64 } else { 0i64 };
    (y, m)
}

} // verus!
