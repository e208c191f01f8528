use upstox_market::checks::{
    check_minute, minute_of_day, CLOSE_CHECK_MINUTE, OPEN_CHECK_MINUTE, TREND_INTERVALS,
};

fn hm(h: u32, m: u32) -> u32 {
    h * 60 + m
}

#[test]
fn checks_one_minute_after_each_boundary() {
    // Opening snapshots all belong to the 09:16 check, for every interval.
    for iv in [5, 15, 30, 60] {
        assert_eq!(check_minute(hm(9, 15), iv), hm(9, 16));
        assert_eq!(check_minute(hm(9, 16), iv), hm(9, 16));
    }
    assert_eq!(check_minute(hm(9, 17), 5), hm(9, 21));
    assert_eq!(check_minute(hm(9, 21), 5), hm(9, 21));
    assert_eq!(check_minute(hm(9, 17), 15), hm(9, 31));
    assert_eq!(check_minute(hm(9, 31), 15), hm(9, 31));
    assert_eq!(check_minute(hm(9, 32), 15), hm(9, 46));
    assert_eq!(check_minute(hm(9, 17), 30), hm(9, 31));
    assert_eq!(check_minute(hm(9, 32), 30), hm(10, 1));
    assert_eq!(check_minute(hm(9, 17), 60), hm(10, 1));
    assert_eq!(check_minute(hm(10, 2), 60), hm(11, 1));
    assert_eq!(check_minute(hm(15, 30), 15), hm(15, 31));
    // 60 min: the afternoon tail closes at 15:31, not 16:01.
    assert_eq!(check_minute(hm(15, 1), 60), hm(15, 1));
    assert_eq!(check_minute(hm(15, 2), 60), hm(15, 31));
    assert_eq!(check_minute(hm(15, 31), 60), hm(15, 31));
}

#[test]
fn minutes_are_read_from_timestamps() {
    assert_eq!(minute_of_day("2026-09-24 11:01:02"), Some(661));
    assert_eq!(minute_of_day("2026-09-24 00:00"), Some(0));
    // Only the places of hour and minute are looked at.
    assert_eq!(minute_of_day("2026-09-24T23:59+05:30"), Some(1439));
    assert_eq!(minute_of_day("xxxxxxxxxxx99x99"), Some(6039));
    assert_eq!(minute_of_day("2026-09-24 +9:+5:00"), Some(545));
    assert_eq!(minute_of_day("2026-09-24 11:0"), None);
    assert_eq!(minute_of_day("2026-09-24 1a:00:00"), None);
    assert_eq!(minute_of_day("2026-09-24 -1:00:00"), None);
    assert_eq!(minute_of_day("2026-09-24 11: 1:00"), None);
    assert_eq!(minute_of_day(""), None);
    // Places are counted in bytes.
    assert_eq!(minute_of_day("\u{20b9}6-09-24 11:01"), Some(661));
    assert_eq!(minute_of_day("2026-09-24\u{20b9}11:01:02"), None);
}

#[test]
fn checks_follow_snapshots_in_order() {
    for iv in TREND_INTERVALS {
        let mut last = 0;
        for m in 0..1440 {
            let c = check_minute(m, iv);
            assert!(c >= m && c >= last);
            assert_eq!(check_minute(c, iv), c);
            if m <= CLOSE_CHECK_MINUTE {
                assert!((OPEN_CHECK_MINUTE..=CLOSE_CHECK_MINUTE).contains(&c));
            } else {
                assert_eq!(c, m);
            }
            last = c;
        }
    }
    // Before the open the interval plays no part.
    assert_eq!(check_minute(0, 0), OPEN_CHECK_MINUTE);
}

#[test]
fn checks_take_the_snapshots_of_their_interval() {
    // The 11:01 check at 15 minutes: (10:46, 11:01].
    let taken: Vec<u32> = (0..1440).filter(|m| check_minute(*m, 15) == 661).collect();
    assert_eq!(taken, (647..=661).collect::<Vec<u32>>());
    // The 10:01 check at 60 minutes begins after the opening check.
    let taken: Vec<u32> = (0..1440).filter(|m| check_minute(*m, 60) == 601).collect();
    assert_eq!(taken, (557..=601).collect::<Vec<u32>>());
}

#[test]
fn coarser_checks_are_made_of_finer_ones() {
    for (fine, coarse) in [(5, 15), (5, 30), (5, 60), (15, 30), (15, 60), (30, 60)] {
        for m in 0..1440 {
            assert_eq!(check_minute(check_minute(m, fine), coarse), check_minute(m, coarse));
        }
    }
}
