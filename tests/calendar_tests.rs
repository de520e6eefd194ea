use commit_calendar::{
    current_window, day_of_timestamp, intensity, render_grid, scan_commits, scan_step,
    timestamp_of_day, window_start, Calendar, CommitRecord, Intensity, Window, WindowError,
    EPOCH_DAY,
};

// 2026-10-17, a Saturday.
const SATURDAY: i32 = 739906;
// 2026-10-18, a Sunday.
const SUNDAY: i32 = 739907;
// 2026-10-12, a Monday.
const MONDAY: i32 = 739901;

fn commit(email: &str, time: i64) -> CommitRecord {
    CommitRecord { email: Some(email.to_string()), time }
}

fn sample_window() -> Window {
    window_start(SATURDAY, 52).unwrap()
}

fn noon(day: i32) -> i64 {
    timestamp_of_day(day) + 43200
}

#[test]
fn window_ends_with_the_sunday_of_the_current_week() {
    let w = window_start(SATURDAY, 52).unwrap();
    assert_eq!(w.start_day, SUNDAY - 364);
    assert_eq!(w.start_day, 739543);
    assert_eq!(w.nb_weeks, 52);
    let w = window_start(MONDAY, 0).unwrap();
    assert_eq!(w.start_day, SUNDAY);
    let w = window_start(SUNDAY, 1).unwrap();
    assert_eq!(w.start_day, SUNDAY - 7);
}

#[test]
fn window_always_starts_on_a_sunday() {
    for today in MONDAY - 20..SUNDAY + 20 {
        for weeks in [0u64, 1, 3, 52, 1000] {
            let w = window_start(today, weeks).unwrap();
            assert_eq!(w.start_day % 7, 0);
            assert!(w.start_day <= today + 6 - 7 * weeks as i32);
            assert!(w.start_day > today - 7 * weeks as i32 - 1);
        }
    }
}

#[test]
fn window_before_the_first_date_is_refused() {
    assert_eq!(window_start(SATURDAY, 20_000_000).err(), Some(WindowError::OutOfRange));
    assert_eq!(window_start(SATURDAY, u64::MAX).err(), Some(WindowError::OutOfRange));
    assert_eq!(window_start(SATURDAY, 1 << 31).err(), Some(WindowError::OutOfRange));
    assert!(window_start(SATURDAY, 100_000).is_ok());
}

#[test]
fn current_window_starts_on_a_sunday() {
    let w = current_window(52).unwrap();
    assert_eq!(w.start_day % 7, 0);
    assert_eq!(w.nb_weeks, 52);
    // 2020-01-01 lies well before any clock this runs under.
    assert!(w.start_day > 737425 - 364);
}

#[test]
fn window_opens_at_noon_of_its_first_day() {
    let w = sample_window();
    assert_eq!(w.start_timestamp(), 1760875200);
    let w = Window { start_day: 719166, nb_weeks: 1 };
    assert_eq!(w.start_timestamp(), 302400);
}

#[test]
fn timestamps_fall_on_utc_days() {
    assert_eq!(day_of_timestamp(0), EPOCH_DAY);
    assert_eq!(day_of_timestamp(86399), 719163);
    assert_eq!(day_of_timestamp(86400), 719164);
    assert_eq!(day_of_timestamp(-1), 719162);
    assert_eq!(day_of_timestamp(-86400), 719162);
    assert_eq!(day_of_timestamp(-86401), 719161);
    assert_eq!(day_of_timestamp(1760875200), 739543);
    assert_eq!(timestamp_of_day(719163), 0);
    assert_eq!(timestamp_of_day(739543), 1760832000);
}

#[test]
fn intensity_follows_the_threshold_table() {
    assert_eq!(intensity(0), Intensity::Lowest);
    assert_eq!(intensity(1), Intensity::Low);
    assert_eq!(intensity(2), Intensity::Medium);
    assert_eq!(intensity(3), Intensity::High);
    assert_eq!(intensity(4), Intensity::Highest);
    assert_eq!(intensity(u64::MAX), Intensity::Highest);
    assert_eq!(Intensity::Lowest.color(), 238);
    assert_eq!(Intensity::Low.color(), 246);
    assert_eq!(Intensity::Medium.color(), 249);
    assert_eq!(Intensity::High.color(), 251);
    assert_eq!(Intensity::Highest.color(), 255);
}

#[test]
fn matching_commits_count_once_each() {
    let w = sample_window();
    let mut cal = Calendar::new();
    let t = noon(739600);
    assert!(scan_step(&mut cal, &w, &"me@x.org".to_string(), &commit("me@x.org", t)));
    assert_eq!(cal.count(739600), 1);
    assert!(scan_step(&mut cal, &w, &"me@x.org".to_string(), &commit("me@x.org", t + 5)));
    assert_eq!(cal.count(739600), 2);
    assert_eq!(cal.count(739601), 0);
}

#[test]
fn other_authors_and_missing_emails_are_skipped() {
    let w = sample_window();
    let mut cal = Calendar::new();
    let user = "me@x.org".to_string();
    let t = noon(739600);
    assert!(scan_step(&mut cal, &w, &user, &commit("Me@x.org", t)));
    assert!(scan_step(&mut cal, &w, &user, &commit("you@x.org", t)));
    assert!(scan_step(&mut cal, &w, &user, &CommitRecord { email: None, time: t }));
    assert_eq!(cal.count(739600), 0);
}

#[test]
fn commit_at_window_start_is_counted() {
    let w = sample_window();
    let mut cal = Calendar::new();
    let user = "me@x.org".to_string();
    assert!(scan_step(&mut cal, &w, &user, &commit("me@x.org", w.start_timestamp())));
    assert_eq!(cal.count(739543), 1);
    assert!(!scan_step(&mut cal, &w, &user, &commit("me@x.org", w.start_timestamp() - 1)));
    assert_eq!(cal.count(739543), 1);
    let grid = render_grid(&cal, &w);
    assert_eq!(grid[0][0], Intensity::Low);
}

#[test]
fn scan_stops_at_first_old_commit() {
    let w = sample_window();
    let mut cal = Calendar::new();
    let user = "me@x.org".to_string();
    let old = w.start_timestamp() - 10;
    let commits = vec![
        commit("me@x.org", noon(739700)),
        commit("me@x.org", old),
        commit("me@x.org", noon(739700)),
    ];
    assert_eq!(scan_commits(&mut cal, &w, &user, &commits), 1);
    assert_eq!(cal.count(739700), 1);
    assert_eq!(cal.count(day_of_timestamp(old)), 0);
}

#[test]
fn scan_without_old_commit_takes_all() {
    let w = sample_window();
    let mut cal = Calendar::new();
    let user = "me@x.org".to_string();
    let commits = vec![
        commit("me@x.org", noon(739700)),
        commit("you@x.org", noon(739700)),
        commit("me@x.org", noon(739600)),
    ];
    assert_eq!(scan_commits(&mut cal, &w, &user, &commits), 3);
    assert_eq!(cal.count(739700), 1);
    assert_eq!(cal.count(739600), 1);
}

#[test]
fn scanning_twice_gives_the_same_calendar() {
    let w = sample_window();
    let user = "me@x.org".to_string();
    let commits = vec![
        commit("me@x.org", noon(739700)),
        commit("me@x.org", noon(739700) - 100),
        commit("me@x.org", noon(739650)),
        commit("me@x.org", w.start_timestamp() - 1),
    ];
    let mut first = Calendar::new();
    let mut second = Calendar::new();
    assert_eq!(scan_commits(&mut first, &w, &user, &commits), 3);
    assert_eq!(scan_commits(&mut second, &w, &user, &commits), 3);
    assert_eq!(render_grid(&first, &w), render_grid(&second, &w));
    for day in 739500..739950 {
        assert_eq!(first.count(day), second.count(day));
    }
}

#[test]
fn rendering_twice_gives_the_same_grid() {
    let w = sample_window();
    let mut cal = Calendar::new();
    let user = "me@x.org".to_string();
    let commits = vec![commit("me@x.org", noon(739700)), commit("me@x.org", noon(739701))];
    scan_commits(&mut cal, &w, &user, &commits);
    assert_eq!(render_grid(&cal, &w), render_grid(&cal, &w));
}

#[test]
fn three_commits_on_one_day_render_high() {
    let w = sample_window();
    let mut cal = Calendar::new();
    let user = "me@x.org".to_string();
    // 739700 is 157 days after the start: week 22, row 3.
    let commits = vec![
        commit("me@x.org", noon(739700) + 3),
        commit("me@x.org", noon(739700) + 2),
        commit("me@x.org", noon(739700) + 1),
    ];
    scan_commits(&mut cal, &w, &user, &commits);
    let grid = render_grid(&cal, &w);
    assert_eq!(grid.len(), 7);
    for (row, cells) in grid.iter().enumerate() {
        assert_eq!(cells.len(), 52);
        for (week, cell) in cells.iter().enumerate() {
            if row == 3 && week == 22 {
                assert_eq!(*cell, Intensity::High);
            } else {
                assert_eq!(*cell, Intensity::Lowest);
            }
        }
    }
}

#[test]
fn zero_weeks_render_seven_empty_rows() {
    let w = window_start(SATURDAY, 0).unwrap();
    let grid = render_grid(&Calendar::new(), &w);
    assert_eq!(grid.len(), 7);
    for cells in grid.iter() {
        assert!(cells.is_empty());
    }
}

#[test]
fn no_matching_commit_renders_all_lowest() {
    let w = sample_window();
    let mut cal = Calendar::new();
    let user = "me@x.org".to_string();
    let commits = vec![commit("you@x.org", noon(739700)), commit("ME@X.ORG", noon(739600))];
    scan_commits(&mut cal, &w, &user, &commits);
    let grid = render_grid(&cal, &w);
    assert_eq!(grid.len(), 7);
    for cells in grid.iter() {
        assert_eq!(cells.len(), 52);
        assert!(cells.iter().all(|c| *c == Intensity::Lowest));
    }
}

#[test]
fn four_or_more_commits_render_highest() {
    let w = Window { start_day: 719166, nb_weeks: 2 };
    let mut cal = Calendar::new();
    for _ in 0..6 {
        cal.record(719174);
    }
    cal.record(719167);
    cal.record(719167);
    let grid = render_grid(&cal, &w);
    assert_eq!(grid[1], vec![Intensity::Medium, Intensity::Highest]);
    assert_eq!(grid[0], vec![Intensity::Lowest, Intensity::Lowest]);
}
