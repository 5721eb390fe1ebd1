use worklog::calendar::{is_leap, month_length, Date, Moment};
use worklog::entry::{
    contains_bytes, end_task, header_addition, rfind_before, start_task, unfinished_task_offset,
};
use worklog::layout::{
    clock_time_bytes, log_file_name, month_directory_name, todays_header, week_location,
};

fn moment(year: i32, month: u32, day: u32, weekday: u32, hour: u32, minute: u32) -> Moment {
    Moment::new(year, month, day, weekday, hour, minute).expect("valid moment")
}

fn text(b: &[u8]) -> String {
    String::from_utf8(b.to_vec()).unwrap()
}

fn concat(a: &[u8], b: &[u8]) -> Vec<u8> {
    let mut v = a.to_vec();
    v.extend_from_slice(b);
    v
}

/// Resolves today's entry on `contents`, as the command line does.
fn resolve(contents: &[u8], m: &Moment) -> Vec<u8> {
    let header = todays_header(m);
    concat(contents, &header_addition(&contents.to_vec(), &header))
}

#[test]
fn start_task_in_empty_directory_on_wednesday() {
    let m = moment(2026, 10, 21, 3, 9, 15);
    let (dir, file) = week_location(&m);
    assert_eq!(text(&dir), "2026-10 (October 2026)");
    assert_eq!(text(&file), "2026-10-18.worklog");
    let contents = resolve(b"", &m);
    assert_eq!(text(&contents), "Wednesday 2026-10-21\n====================\n\n");
    let header = todays_header(&m);
    let contents = end_task(&contents, &header, 9, 15);
    let contents = concat(&contents, &start_task(&contents, 9, 15));
    assert_eq!(
        text(&contents),
        "Wednesday 2026-10-21\n====================\n\n09:15 - __:__\n"
    );
}

#[test]
fn end_task_later_the_same_day_patches_the_line() {
    let m = moment(2026, 10, 21, 3, 17, 30);
    let contents = b"Wednesday 2026-10-21\n====================\n\n09:15 - __:__\n".to_vec();
    let contents = resolve(&contents, &m);
    let header = todays_header(&m);
    let at = unfinished_task_offset(&contents, &header);
    assert_eq!(at, Some(51));
    let after = end_task(&contents, &header, 17, 30);
    assert_eq!(
        text(&after),
        "Wednesday 2026-10-21\n====================\n\n09:15 - 17:30\n"
    );
    assert_eq!(after.len(), contents.len());
}

#[test]
fn end_task_twice_changes_nothing_the_second_time() {
    let m = moment(2026, 10, 21, 3, 17, 31);
    let contents = b"Wednesday 2026-10-21\n====================\n\n09:15 - 17:30\n".to_vec();
    let header = todays_header(&m);
    assert_eq!(unfinished_task_offset(&contents, &header), None);
    assert_eq!(end_task(&contents, &header, 17, 31), contents);
}

#[test]
fn header_is_added_once() {
    let m = moment(2026, 10, 22, 4, 8, 0);
    let first = resolve(b"Wednesday 2026-10-21\n====================\n\n09:15 - 17:30\n", &m);
    assert_eq!(
        text(&first),
        "Wednesday 2026-10-21\n====================\n\n09:15 - 17:30\nThursday  2026-10-22\n====================\n\n"
    );
    let second = resolve(&first, &m);
    assert_eq!(second, first);
    assert!(header_addition(&first, &todays_header(&m)).is_empty());
}

#[test]
fn same_week_same_file() {
    let sunday = moment(2026, 10, 18, 0, 0, 0);
    let saturday = moment(2026, 10, 24, 6, 23, 59);
    assert_eq!(week_location(&sunday), week_location(&saturday));
    let next_sunday = moment(2026, 10, 25, 0, 7, 0);
    assert_ne!(week_location(&next_sunday), week_location(&saturday));
}

#[test]
fn week_crossing_a_year_is_named_by_its_sunday() {
    let m = moment(2027, 1, 1, 5, 12, 0);
    assert_eq!(m.week_start(), Date::new(2026, 12, 27).unwrap());
    let (dir, file) = week_location(&m);
    assert_eq!(text(&dir), "2026-12 (December 2026)");
    assert_eq!(text(&file), "2026-12-27.worklog");
}

#[test]
fn week_start_crosses_a_leap_day() {
    let m = moment(2024, 3, 1, 5, 12, 0);
    assert_eq!(m.week_start(), Date::new(2024, 2, 25).unwrap());
    let d = Date::new(2024, 3, 1).unwrap();
    assert_eq!(d.pred(), Date::new(2024, 2, 29).unwrap());
    let d = Date::new(2023, 3, 1).unwrap();
    assert_eq!(d.pred(), Date::new(2023, 2, 28).unwrap());
}

#[test]
fn week_start_of_year_one() {
    let m = moment(1, 1, 1, 1, 0, 0);
    assert_eq!(m.week_start(), Date::new(0, 12, 31).unwrap());
    let (dir, file) = week_location(&m);
    assert_eq!(text(&dir), "0000-12 (December 0000)");
    assert_eq!(text(&file), "0000-12-31.worklog");
}

#[test]
fn start_then_end_round_trip() {
    let m = moment(2026, 10, 23, 5, 8, 5);
    let header = todays_header(&m);
    let before = resolve(b"Thursday  2026-10-22\n====================\n\n10:00 - 11:00\n", &m);
    let started = concat(&before, &start_task(&before, 8, 5));
    let ended = end_task(&started, &header, 23, 59);
    assert_eq!(text(&ended), format!("{}08:05 - 23:59\n", text(&before)));
}

#[test]
fn separator_after_text_without_newline() {
    assert_eq!(text(&start_task(&b"notes".to_vec(), 7, 3)), "\n\n07:03 - __:__\n");
    assert_eq!(text(&start_task(&b"notes\n".to_vec(), 7, 3)), "\n07:03 - __:__\n");
    assert_eq!(text(&start_task(&b"notes\n\n".to_vec(), 7, 3)), "07:03 - __:__\n");
    assert_eq!(text(&start_task(&Vec::new(), 0, 0)), "\n\n00:00 - __:__\n");
}

#[test]
fn placeholder_of_a_previous_day_is_left_alone() {
    let m = moment(2026, 10, 22, 4, 9, 0);
    let header = todays_header(&m);
    let contents = resolve(b"Wednesday 2026-10-21\n====================\n\n09:15 - __:__\n\n", &m);
    assert_eq!(unfinished_task_offset(&contents, &header), None);
    assert_eq!(end_task(&contents, &header, 9, 0), contents);
}

#[test]
fn placeholder_in_free_text_is_not_a_task() {
    let m = moment(2026, 10, 21, 3, 12, 0);
    let header = todays_header(&m);
    let contents =
        resolve(b"", &m).into_iter().chain(b"note: fill __:__ in later\n".iter().copied()).collect::<Vec<u8>>();
    assert_eq!(unfinished_task_offset(&contents, &header), None);
    assert_eq!(end_task(&contents, &header, 12, 0), contents);
}

#[test]
fn free_text_placeholder_after_a_task_is_skipped() {
    let m = moment(2026, 10, 21, 3, 12, 0);
    let header = todays_header(&m);
    let mut contents = resolve(b"", &m);
    contents.extend_from_slice(b"09:15 - __:__\nsee __:__\n");
    assert_eq!(unfinished_task_offset(&contents, &header), Some(51));
    let ended = end_task(&contents, &header, 12, 0);
    assert_eq!(
        text(&ended),
        "Wednesday 2026-10-21\n====================\n\n09:15 - 12:00\nsee __:__\n"
    );
}

#[test]
fn latest_unfinished_task_is_ended() {
    let m = moment(2026, 10, 21, 3, 15, 45);
    let header = todays_header(&m);
    let mut contents = resolve(b"", &m);
    contents.extend_from_slice(b"09:15 - __:__\n\n10:00 - __:__\n");
    let ended = end_task(&contents, &header, 15, 45);
    assert_eq!(
        text(&ended),
        "Wednesday 2026-10-21\n====================\n\n09:15 - __:__\n\n10:00 - 15:45\n"
    );
}

#[test]
fn overlapping_placeholder_hides_the_task_before_it() {
    // The window shrinks to what precedes the rejected placeholder, so the
    // one that shares its first bytes is not looked at.
    let m = moment(2026, 10, 21, 3, 15, 45);
    let header = todays_header(&m);
    let mut contents = resolve(b"", &m);
    contents.extend_from_slice(b"09:15 - __:__:__\n");
    assert_eq!(unfinished_task_offset(&contents, &header), None);
}

#[test]
fn header_pads_weekday_to_ten() {
    let m = moment(2026, 10, 18, 0, 6, 30);
    assert_eq!(text(&todays_header(&m)), "Sunday    2026-10-18\n====================");
    let m = moment(2026, 10, 21, 3, 6, 30);
    assert_eq!(text(&todays_header(&m)), "Wednesday 2026-10-21\n====================");
}

#[test]
fn names_of_dates() {
    let d = Date::new(987, 5, 9).unwrap();
    assert_eq!(text(&month_directory_name(&d)), "0987-05 (May 0987)");
    assert_eq!(text(&log_file_name(&d)), "0987-05-09.worklog");
    assert_eq!(text(&clock_time_bytes(23, 7)), "23:07");
    assert_eq!(text(&clock_time_bytes(0, 59)), "00:59");
}

#[test]
fn invalid_dates_and_moments_are_refused() {
    assert!(Date::new(2023, 2, 29).is_none());
    assert!(Date::new(2024, 2, 29).is_some());
    assert!(Date::new(1900, 2, 29).is_none());
    assert!(Date::new(2000, 2, 29).is_some());
    assert!(Date::new(2026, 4, 31).is_none());
    assert!(Date::new(2026, 13, 1).is_none());
    assert!(Date::new(10000, 1, 1).is_none());
    assert!(Date::new(-1, 1, 1).is_none());
    assert!(Moment::new(0, 1, 1, 0, 0, 0).is_none());
    assert!(Moment::new(2026, 1, 1, 7, 0, 0).is_none());
    assert!(Moment::new(2026, 1, 1, 4, 24, 0).is_none());
    assert!(Moment::new(2026, 1, 1, 4, 23, 60).is_none());
    assert!(is_leap(2024) && !is_leap(2100) && is_leap(2000));
    assert_eq!(month_length(2026, 2), 28);
    assert_eq!(month_length(2026, 9), 30);
}

#[test]
fn search_helpers() {
    let c = b"ab__:__cd__:__".to_vec();
    let p = b"__:__".to_vec();
    assert_eq!(rfind_before(&c, &p, c.len()), Some(9));
    assert_eq!(rfind_before(&c, &p, 13), Some(2));
    assert_eq!(rfind_before(&c, &p, 6), None);
    assert!(contains_bytes(&c, &p));
    assert!(!contains_bytes(&c, &b"x".to_vec()));
}

#[test]
fn clock_reads_a_valid_moment() {
    let m = Moment::now().expect("current year lies in range");
    assert!(m.hour < 24 && m.minute < 60 && m.weekday < 7);
    assert!(m.date.month >= 1 && m.date.month <= 12 && m.date.day >= 1);
    let (dir, file) = week_location(&m);
    assert!(text(&dir).contains(" (") && text(&dir).ends_with(")"));
    assert!(text(&file).ends_with(".worklog"));
}
