//! Check minutes: the moments of the trading day at which the trend table is read.
use vstd::prelude::*;
use vstd::utf8::*;

verus! {

/// First check of the day: one minute after the 09:15 open.
pub const OPEN_CHECK_MINUTE: u32 = 556;

/// Last check of the day: one minute after the 15:30 close. Caps intervals that
/// would otherwise land after the market.
pub const CLOSE_CHECK_MINUTE: u32 = 931;

/// The intervals of the trend table, in minutes.
pub const TREND_INTERVALS: [u32; 4] = [5, 15, 30, 60];

/// The least multiple of `step` at or above `x`.
pub open spec fn round_up(x: int, step: int) -> int {
    if x % step == 0 {
        x
    } else {
        x - x % step + step
    }
}

/// The check that a snapshot taken at `minute` belongs to: the first "interval
/// boundary + 1 minute" at or after it, never before the opening check and, for a
/// snapshot of the trading day, never after the closing one.
pub open spec fn check_of(minute: int, interval: int) -> int {
    let check = round_up(minute - 1, interval) + 1;
    let last = if minute > CLOSE_CHECK_MINUTE {
        minute
    } else {
        CLOSE_CHECK_MINUTE as int
    };
    if minute <= OPEN_CHECK_MINUTE {
        OPEN_CHECK_MINUTE as int
    } else if check < last {
        check
    } else {
        last
    }
}

/// Whether the check of `minute` can be computed in 32 bits: after the opening check
/// the interval divides, and the boundary after `minute` has to fit.
pub open spec fn check_defined(minute: int, interval: int) -> bool {
    minute > OPEN_CHECK_MINUTE ==> interval > 0 && round_up(minute - 1, interval) + 1 <= u32::MAX
}

/// The check a snapshot taken at `minute` (of day, IST) belongs to: the first
/// "interval boundary + 1 minute" at or after it: 09:16, 09:31, 09:46 and so on for
/// 15 minutes. Boundaries are clock-aligned multiples of `interval`; 09:16 is always
/// the first check and 15:31 always the last, whatever the interval (so 60 minutes
/// give 09:16, 10:01, 11:01 up to 15:01 and 15:31). The extra minute lets the
/// boundary minute complete before it is read.
pub fn check_minute(minute: u32, interval: u32) -> (r: u32)
    requires
        check_defined(minute as int, interval as int),
    ensures
        r == check_of(minute as int, interval as int),
{
    if minute <= OPEN_CHECK_MINUTE {
        return OPEN_CHECK_MINUTE;
    }
    let x: u32 = minute - 1;
    let past: u32 = x % interval;
    assert(past <= x) by (nonlinear_arith)
        requires
            interval > 0,
            past == x % interval,
    ;
    let boundary: u32 = if past == 0 {
        x
    } else {
        x - past + interval
    };
    let last: u32 = if minute > CLOSE_CHECK_MINUTE {
        minute
    } else {
        CLOSE_CHECK_MINUTE
    };
    if boundary + 1 < last {
        boundary + 1
    } else {
        last
    }
}

/// The number that two bytes spell: two digits, or a plus sign and a digit.
pub open spec fn two_byte_number(a: u8, b: u8) -> Option<int> {
    if !(48 <= b <= 57) {
        None
    } else if 48 <= a <= 57 {
        Some((a - 48) * 10 + (b - 48))
    } else if a == 43 {
        Some(b - 48)
    } else {
        None
    }
}

/// The minute of day in a timestamp's bytes: the hour stands at 11 and 12, the minute
/// at 14 and 15.
pub open spec fn minute_in_bytes(ts: Seq<u8>) -> Option<int> {
    if ts.len() < 16 {
        None
    } else {
        match (two_byte_number(ts[11], ts[12]), two_byte_number(ts[14], ts[15])) {
            (Some(h), Some(m)) => Some(h * 60 + m),
            _ => None,
        }
    }
}

/// The minute of day in a timestamp `YYYY-MM-DD HH:MM..`, where it holds one.
pub open spec fn minute_in(ts: Seq<char>) -> Option<int> {
    minute_in_bytes(encode_utf8(ts))
}

fn parse_two(a: u8, b: u8) -> (r: Option<u32>)
    ensures
        r is Some <==> two_byte_number(a, b) is Some,
        r is Some ==> r->0 == two_byte_number(a, b)->0 && r->0 <= 99,
{
    if b < 48 || b > 57 {
        None
    } else if 48 <= a && a <= 57 {
        Some((a - 48) as u32 * 10 + (b - 48) as u32)
    } else if a == 43 {
        Some((b - 48) as u32)
    } else {
        None
    }
}

/// The minute of day of a timestamp `YYYY-MM-DD HH:MM:SS`. The hour and the minute are
/// read as numbers of two places, whatever stands around them.
pub fn minute_of_day(ts: &str) -> (r: Option<u32>)
    ensures
        r is Some <==> minute_in(ts@) is Some,
        r is Some ==> r->0 == minute_in(ts@)->0,
        r is Some ==> r->0 <= 6039,
{
    let b = ts.as_bytes();
    if b.len() < 16 {
        return None;
    }
    match (parse_two(b[11], b[12]), parse_two(b[14], b[15])) {
        (Some(h), Some(m)) => Some(h * 60 + m),
        _ => None,
    }
}

/// A check is never before its snapshot.
pub proof fn check_at_or_after_snapshot(minute: int, interval: int)
    requires
        minute >= 0,
        interval > 0,
    ensures
        check_of(minute, interval) >= minute,
{
    if minute > OPEN_CHECK_MINUTE {
        round_up_is_least_multiple(minute - 1, interval);
    }
}

/// `round_up` is a multiple, lies less than a step above its argument, and no other
/// multiple lies between.
pub proof fn round_up_is_least_multiple(x: int, step: int)
    requires
        step > 0,
    ensures
        round_up(x, step) % step == 0,
        x <= round_up(x, step) < x + step,
        forall|y: int| y >= x && #[trigger] (y % step) == 0 ==> y >= round_up(x, step),
{
    let r = x % step;
    let q = x / step;
    assert(x == q * step + r && 0 <= r < step) by (nonlinear_arith)
        requires
            step > 0,
            r == x % step,
            q == x / step,
    ;
    if r != 0 {
        assert(round_up(x, step) == (q + 1) * step) by (nonlinear_arith)
            requires
                x == q * step + r,
                round_up(x, step) == x - r + step,
        ;
        assert(((q + 1) * step) % step == 0) by (nonlinear_arith)
            requires
                step > 0,
        ;
    }
    assert forall|y: int| y >= x && #[trigger] (y % step) == 0 implies y >= round_up(x, step) by {
        let k = y / step;
        assert(y == k * step) by (nonlinear_arith)
            requires
                step > 0,
                k == y / step,
                y % step == 0,
        ;
        if r != 0 && y < round_up(x, step) {
            assert(round_up(x, step) == (q + 1) * step) by (nonlinear_arith)
                requires
                    x == q * step + r,
                    round_up(x, step) == x - r + step,
            ;
            assert(false) by (nonlinear_arith)
                requires
                    step > 0,
                    k * step >= q * step + r,
                    0 < r,
                    k * step < (q + 1) * step,
            ;
        }
    }
}

/// Between the opening and the closing check, whatever the interval, every snapshot's
/// check lies between them too, and is the opening check, the closing check, or one
/// minute past a boundary.
pub proof fn check_within_trading_day(minute: int, interval: int)
    requires
        0 <= minute <= CLOSE_CHECK_MINUTE,
        interval > 0,
    ensures
        OPEN_CHECK_MINUTE <= check_of(minute, interval) <= CLOSE_CHECK_MINUTE,
        ({
            let c = check_of(minute, interval);
            c == OPEN_CHECK_MINUTE || c == CLOSE_CHECK_MINUTE || (c - 1) % interval == 0
        }),
{
    if minute > OPEN_CHECK_MINUTE {
        round_up_is_least_multiple(minute - 1, interval);
    }
}

/// No earlier moment would do: after the opening check, every minute from the snapshot
/// up to its check is neither past a boundary by one minute nor the closing check.
pub proof fn check_is_first_candidate(minute: int, interval: int, m: int)
    requires
        OPEN_CHECK_MINUTE < minute <= m < check_of(minute, interval),
        interval > 0,
    ensures
        (m - 1) % interval != 0,
        m != CLOSE_CHECK_MINUTE,
{
    round_up_is_least_multiple(minute - 1, interval);
    if (m - 1) % interval == 0 {
        assert(m - 1 >= round_up(minute - 1, interval));
    }
}

/// A later snapshot never belongs to an earlier check.
pub proof fn checks_keep_order(a: int, b: int, interval: int)
    requires
        0 <= a <= b,
        interval > 0,
    ensures
        check_of(a, interval) <= check_of(b, interval),
{
    check_at_or_after_snapshot(b, interval);
    if b > OPEN_CHECK_MINUTE {
        round_up_is_least_multiple(b - 1, interval);
        if a > OPEN_CHECK_MINUTE {
            round_up_is_least_multiple(a - 1, interval);
            assert(round_up(b - 1, interval) % interval == 0);
            assert(round_up(b - 1, interval) >= round_up(a - 1, interval));
        }
    }
}

/// A snapshot taken at a check belongs to that very check.
pub proof fn checks_are_stable(minute: int, interval: int)
    requires
        minute >= 0,
        interval > 0,
    ensures
        check_of(check_of(minute, interval), interval) == check_of(minute, interval),
{
    let c = check_of(minute, interval);
    if minute > OPEN_CHECK_MINUTE {
        round_up_is_least_multiple(minute - 1, interval);
        round_up_is_least_multiple(c - 1, interval);
        check_at_or_after_snapshot(minute, interval);
    }
}

/// A check one minute past a boundary takes the snapshots since the check one interval
/// before it, or since the opening check where that is later: the "11:01" check (15
/// minutes) those taken in (10:46, 11:01].
pub proof fn check_covers_its_interval(minute: int, interval: int, check: int)
    requires
        minute >= 0,
        interval > 0,
        OPEN_CHECK_MINUTE < check <= CLOSE_CHECK_MINUTE,
        (check - 1) % interval == 0,
    ensures
        check_of(minute, interval) == check <==> OPEN_CHECK_MINUTE < minute && check - interval
            < minute <= check,
{
    if minute > OPEN_CHECK_MINUTE {
        let boundary = round_up(minute - 1, interval);
        round_up_is_least_multiple(minute - 1, interval);
        if minute <= check {
            assert(boundary <= check - 1);
            if check - interval < minute && boundary < check - 1 {
                let p = (check - 1) / interval;
                let q = boundary / interval;
                assert(check - 1 == p * interval && boundary == q * interval) by (nonlinear_arith)
                    requires
                        interval > 0,
                        p == (check - 1) / interval,
                        q == boundary / interval,
                        (check - 1) % interval == 0,
                        boundary % interval == 0,
                ;
                assert(false) by (nonlinear_arith)
                    requires
                        interval > 0,
                        0 < p * interval - q * interval < interval,
                ;
            }
        }
    }
}

/// Coarser checks are made of finer ones: where one interval divides another, the finer
/// check of a snapshot belongs to the coarser check of that snapshot.
pub proof fn coarser_checks_take_finer_ones(minute: int, fine: int, coarse: int)
    requires
        minute >= 0,
        fine > 0,
        coarse > 0,
        coarse % fine == 0,
    ensures
        check_of(check_of(minute, fine), coarse) == check_of(minute, coarse),
{
    if minute > OPEN_CHECK_MINUTE {
        let x = minute - 1;
        let f = round_up(x, fine);
        let c = round_up(x, coarse);
        round_up_is_least_multiple(x, fine);
        round_up_is_least_multiple(x, coarse);
        assert(c % fine == 0) by (nonlinear_arith)
            requires
                fine > 0,
                coarse > 0,
                coarse % fine == 0,
                c % coarse == 0,
        {
            let k = coarse / fine;
            let n = c / coarse;
            assert(coarse == k * fine);
            assert(c == n * coarse);
            assert(c == (n * k) * fine);
            assert(((n * k) * fine) % fine == 0);
        }
        assert(f <= c);
        round_up_is_least_multiple(f, coarse);
        assert(round_up(f, coarse) == c) by {
            assert(c % coarse == 0);
            assert(round_up(f, coarse) % coarse == 0);
        }
        check_at_or_after_snapshot(minute, fine);
        round_up_is_least_multiple(check_of(minute, fine) - 1, coarse);
    }
}

/// In a timestamp of ASCII characters the minute is read off characters 11 to 15.
pub proof fn minute_in_ascii(ts: Seq<char>)
    requires
        is_ascii_chars(ts),
        ts.len() >= 16,
    ensures
        minute_in(ts) == (match (
            two_byte_number(ts[11] as u8, ts[12] as u8),
            two_byte_number(ts[14] as u8, ts[15] as u8),
        ) {
            (Some(h), Some(m)) => Some(h * 60 + m),
            _ => None::<int>,
        }),
{
    is_ascii_chars_encode_utf8(ts);
}

/// The opening check takes every snapshot up to 09:16 and none after it, and after 15:31
/// every snapshot is a check of its own, whatever the interval.
pub proof fn checks_outside_the_day(minute: int, interval: int)
    requires
        minute >= 0,
        interval > 0,
    ensures
        check_of(minute, interval) == 9 * 60 + 16 <==> minute <= 9 * 60 + 16,
        minute > 15 * 60 + 31 ==> check_of(minute, interval) == minute,
{
    if minute > OPEN_CHECK_MINUTE {
        round_up_is_least_multiple(minute - 1, interval);
        check_at_or_after_snapshot(minute, interval);
    }
}

/// Within the day the check is one minute past a boundary or 15:31, whichever comes first
/// at or after the snapshot.
pub proof fn checks_within_the_day(minute: int, interval: int)
    requires
        9 * 60 + 16 < minute <= 15 * 60 + 31,
        interval > 0,
    ensures
        ({
            let c = check_of(minute, interval);
            &&& minute <= c <= 15 * 60 + 31
            &&& c == 15 * 60 + 31 || (c - 1) % interval == 0
            &&& forall|m: int|
                minute <= m < c ==> #[trigger] ((m - 1) % interval) != 0 && m != 15 * 60 + 31
        }),
{
    let c = check_of(minute, interval);
    check_within_trading_day(minute, interval);
    check_at_or_after_snapshot(minute, interval);
    assert forall|m: int| minute <= m < c implies #[trigger] ((m - 1) % interval) != 0 && m != 15
        * 60 + 31 by {
        check_is_first_candidate(minute, interval, m);
    }
}

/// A timestamp's minute depends on four bytes only: two for the hour at 11 and two for the
/// minute at 14, each pair two digits or a plus sign and a digit. Sixty times the hour and
/// the minute make the minute of day; shorter timestamps and other bytes have none.
pub proof fn minutes_stand_at_fixed_places(ts: Seq<char>)
    ensures
        ({
            let b = encode_utf8(ts);
            let tens_ok = |x: u8| 48 <= x <= 57 || x == 43;
            let tens = |x: u8| if x == 43 { 0int } else { x - 48 };
            let readable = b.len() >= 16 && tens_ok(b[11]) && 48 <= b[12] <= 57 && tens_ok(b[14])
                && 48 <= b[15] <= 57;
            &&& minute_in(ts) is Some <==> readable
            &&& readable ==> minute_in(ts)->0 == 600 * tens(b[11]) + 60 * (b[12] - 48) + 10
                * tens(b[14]) + (b[15] - 48)
        }),
{
}

} // verus!
