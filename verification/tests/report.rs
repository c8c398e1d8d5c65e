use attendance_bot::report::{group_by_date, monthly_report, render_day, DayRecord, RawEvent};
use attendance_bot::types::{AttendanceAction, Timestamp};

fn at(text: &str) -> Timestamp {
    let dt = chrono::DateTime::parse_from_rfc3339(text).unwrap();
    Timestamp { secs: dt.timestamp(), nanos: dt.timestamp_subsec_nanos() }
}

fn event(date: &str, time: &str, action: &str) -> RawEvent {
    RawEvent {
        date: date.to_string(),
        timestamp: at(&format!("{}T{}+09:00", date, time)),
        action: action.to_string(),
    }
}

const IN: &str = "出勤";
const OUT: &str = "退勤";
const BREAK: &str = "休憩入り";
const BACK: &str = "休憩戻り";

#[test]
fn full_day_with_one_break() {
    let events = vec![
        event("2024-03-01", "09:00:00", IN),
        event("2024-03-01", "12:00:00", BREAK),
        event("2024-03-01", "12:30:00", BACK),
        event("2024-03-01", "18:00:00", OUT),
    ];
    let report = monthly_report(&events, 2024, 3);
    assert_eq!(report.total_minutes, 510);
    assert_eq!(report.work_days, 1);
    assert_eq!(
        report.text,
        "2024年3月の勤怠レポート\n\n2024-03-01  09:00 - 18:00  勤務: 8時間30分  休憩: 0時間30分\n\n合計: 1日勤務  8時間30分"
    );
}

#[test]
fn month_without_events_has_no_records() {
    let report = monthly_report(&Vec::new(), 2024, 3);
    assert_eq!(report.text, "2024年3月の勤怠レポート\n\n勤務記録がありません");
    assert_eq!(report.total_minutes, 0);
    assert_eq!(report.work_days, 0);
    assert!(report.days.is_empty());
}

#[test]
fn day_with_only_a_clock_in_counts_for_nothing() {
    let events = vec![event("2024-03-01", "09:00:00", IN)];
    let report = monthly_report(&events, 2024, 3);
    assert_eq!(report.text, "2024年3月の勤怠レポート\n\n勤務記録がありません");
    assert_eq!(report.total_minutes, 0);
    assert_eq!(report.work_days, 0);
    assert_eq!(report.days.len(), 1);
    assert_eq!(report.days[0].record.in_time, Some(at("2024-03-01T09:00:00+09:00")));
    assert_eq!(report.days[0].record.out_time, None);
}

#[test]
fn incomplete_day_between_complete_days_is_left_out() {
    let events = vec![
        event("2024-03-01", "09:00:00", IN),
        event("2024-03-01", "17:00:00", OUT),
        event("2024-03-02", "09:00:00", IN),
        event("2024-03-03", "10:00:00", IN),
        event("2024-03-03", "15:30:00", OUT),
    ];
    let report = monthly_report(&events, 2024, 3);
    assert_eq!(report.work_days, 2);
    assert_eq!(report.total_minutes, 480 + 330);
    assert_eq!(
        report.text,
        "2024年3月の勤怠レポート\n\n\
         2024-03-01  09:00 - 17:00  勤務: 8時間0分  休憩: 0時間0分\n\
         2024-03-03  10:00 - 15:30  勤務: 5時間30分  休憩: 0時間0分\n\n\
         合計: 2日勤務  13時間30分"
    );
}

#[test]
fn stray_return_is_ignored() {
    let events = vec![
        event("2024-03-01", "09:00:00", IN),
        event("2024-03-01", "10:00:00", BACK),
        event("2024-03-01", "12:00:00", BREAK),
        event("2024-03-01", "12:45:00", BACK),
        event("2024-03-01", "13:00:00", BACK),
        event("2024-03-01", "18:00:00", OUT),
    ];
    let report = monthly_report(&events, 2024, 3);
    assert_eq!(report.total_minutes, 540 - 45);
    let breaks = &report.days[0].record.breaks;
    assert_eq!(breaks.len(), 1);
    assert_eq!(breaks[0].start, at("2024-03-01T12:00:00+09:00"));
    assert_eq!(breaks[0].end, Some(at("2024-03-01T12:45:00+09:00")));
}

#[test]
fn open_break_deducts_nothing() {
    let events = vec![
        event("2024-03-01", "09:00:00", IN),
        event("2024-03-01", "12:00:00", BREAK),
        event("2024-03-01", "18:00:00", OUT),
    ];
    let report = monthly_report(&events, 2024, 3);
    assert_eq!(report.total_minutes, 540);
    assert_eq!(
        report.text,
        "2024年3月の勤怠レポート\n\n2024-03-01  09:00 - 18:00  勤務: 9時間0分  休憩: 0時間0分\n\n合計: 1日勤務  9時間0分"
    );
}

#[test]
fn return_closes_the_latest_open_break() {
    let events = vec![
        event("2024-03-01", "09:00:00", IN),
        event("2024-03-01", "10:00:00", BREAK),
        event("2024-03-01", "11:00:00", BREAK),
        event("2024-03-01", "11:10:00", BACK),
        event("2024-03-01", "18:00:00", OUT),
    ];
    let report = monthly_report(&events, 2024, 3);
    let breaks = &report.days[0].record.breaks;
    assert_eq!(breaks.len(), 2);
    assert_eq!(breaks[0].end, None);
    assert_eq!(breaks[1].end, Some(at("2024-03-01T11:10:00+09:00")));
    assert_eq!(report.total_minutes, 540 - 10);
}

#[test]
fn days_come_out_in_order_of_date() {
    let events = vec![
        event("2024-03-15", "09:00:00", IN),
        event("2024-03-02", "09:30:00", IN),
        event("2024-03-15", "18:00:00", OUT),
        event("2024-03-02", "17:30:00", OUT),
        event("2024-03-10", "08:00:00", IN),
        event("2024-03-10", "12:05:00", OUT),
    ];
    let days = group_by_date(&events);
    let dates: Vec<&str> = days.iter().map(|d| d.date.as_str()).collect();
    assert_eq!(dates, vec!["2024-03-02", "2024-03-10", "2024-03-15"]);
    let report = monthly_report(&events, 2024, 3);
    assert_eq!(
        report.text,
        "2024年3月の勤怠レポート\n\n\
         2024-03-02  09:30 - 17:30  勤務: 8時間0分  休憩: 0時間0分\n\
         2024-03-10  08:00 - 12:05  勤務: 4時間5分  休憩: 0時間0分\n\
         2024-03-15  09:00 - 18:00  勤務: 9時間0分  休憩: 0時間0分\n\n\
         合計: 3日勤務  21時間5分"
    );
    assert_eq!(report.total_minutes, 480 + 245 + 540);
}

#[test]
fn events_of_different_dates_may_arrive_in_any_order() {
    let a = vec![
        event("2024-03-01", "09:00:00", IN),
        event("2024-03-01", "18:00:00", OUT),
        event("2024-03-02", "10:00:00", IN),
        event("2024-03-02", "16:00:00", OUT),
    ];
    let b = vec![
        event("2024-03-02", "16:00:00", OUT),
        event("2024-03-01", "18:00:00", OUT),
        event("2024-03-02", "10:00:00", IN),
        event("2024-03-01", "09:00:00", IN),
    ];
    assert_eq!(monthly_report(&a, 2024, 3).text, monthly_report(&b, 2024, 3).text);
    assert_eq!(monthly_report(&a, 2024, 3).total_minutes, 900);
}

#[test]
fn later_clock_in_replaces_the_earlier() {
    let events = vec![
        event("2024-03-01", "09:00:00", IN),
        event("2024-03-01", "10:00:00", IN),
        event("2024-03-01", "18:00:00", OUT),
    ];
    assert_eq!(monthly_report(&events, 2024, 3).total_minutes, 480);
}

#[test]
fn unknown_label_changes_nothing() {
    let events = vec![
        event("2024-03-01", "09:00:00", IN),
        event("2024-03-01", "12:00:00", "昼寝"),
        event("2024-03-01", "12:00:00", ""),
        event("2024-03-01", "18:00:00", OUT),
    ];
    let report = monthly_report(&events, 2024, 3);
    assert_eq!(report.total_minutes, 540);
    assert!(report.days[0].record.breaks.is_empty());
}

#[test]
fn clock_out_before_clock_in_gives_negative_time() {
    let events = vec![
        event("2024-03-01", "18:00:00", IN),
        event("2024-03-01", "16:30:00", OUT),
    ];
    let report = monthly_report(&events, 2024, 3);
    assert_eq!(report.total_minutes, -90);
    assert_eq!(
        report.text,
        "2024年3月の勤怠レポート\n\n2024-03-01  18:00 - 16:30  勤務: -1時間-30分  休憩: 0時間0分\n\n合計: 1日勤務  -1時間-30分"
    );
}

#[test]
fn minutes_round_toward_zero() {
    let start = Timestamp { secs: 0, nanos: 500_000_000 };
    let end = Timestamp { secs: 3600, nanos: 400_000_000 };
    assert_eq!(start.minutes_until(&end), 59);
    assert_eq!(end.minutes_until(&start), -59);
    assert_eq!(start.minutes_until(&start), 0);
    let a = Timestamp { secs: 0, nanos: 0 };
    let b = Timestamp { secs: 59, nanos: 999_999_999 };
    assert_eq!(a.minutes_until(&b), 0);
    assert_eq!(b.minutes_until(&a), 0);
    let c = Timestamp { secs: 60, nanos: 0 };
    assert_eq!(a.minutes_until(&c), 1);
    assert_eq!(c.minutes_until(&a), -1);
    let far = Timestamp { secs: i64::MAX, nanos: 1_999_999_999 };
    let near = Timestamp { secs: i64::MIN, nanos: 0 };
    assert_eq!(near.minutes_until(&far), (u64::MAX as i128 * 1_000_000_000 + 1_999_999_999) / 60_000_000_000);
}

#[test]
fn time_of_day_is_read_in_the_zone_of_record() {
    let midnight_utc = Timestamp { secs: 0, nanos: 0 };
    assert_eq!(midnight_utc.hour_jst(), 9);
    assert_eq!(midnight_utc.minute_jst(), 0);
    let t = at("2024-03-01T23:59:59+09:00");
    assert_eq!((t.hour_jst(), t.minute_jst()), (23, 59));
    let u = at("2024-03-01T15:00:00Z");
    assert_eq!((u.hour_jst(), u.minute_jst()), (0, 0));
    let before_epoch = Timestamp { secs: -1, nanos: 0 };
    assert_eq!((before_epoch.hour_jst(), before_epoch.minute_jst()), (8, 59));
    let long_ago = Timestamp { secs: -32401, nanos: 0 };
    assert_eq!((long_ago.hour_jst(), long_ago.minute_jst()), (23, 59));
}

#[test]
fn report_shows_time_in_the_zone_of_record() {
    let events = vec![
        RawEvent { date: "2024-03-01".to_string(), timestamp: at("2024-03-01T00:05:00Z"), action: IN.to_string() },
        RawEvent { date: "2024-03-01".to_string(), timestamp: at("2024-03-01T08:00:00Z"), action: OUT.to_string() },
    ];
    let report = monthly_report(&events, 2024, 12);
    assert_eq!(
        report.text,
        "2024年12月の勤怠レポート\n\n2024-03-01  09:05 - 17:00  勤務: 7時間55分  休憩: 0時間0分\n\n合計: 1日勤務  7時間55分"
    );
}

#[test]
fn punches_build_a_day() {
    let mut day = DayRecord::new();
    assert_eq!(day.in_time, None);
    assert_eq!(day.out_time, None);
    assert!(day.breaks.is_empty());
    let t = |s: i64| Timestamp { secs: s, nanos: 0 };
    day.punch(t(10), Some(AttendanceAction::Back));
    assert!(day.breaks.is_empty());
    day.punch(t(20), Some(AttendanceAction::Break));
    day.punch(t(80), Some(AttendanceAction::Back));
    day.punch(t(90), Some(AttendanceAction::Back));
    day.punch(t(0), Some(AttendanceAction::In));
    day.punch(t(1000), Some(AttendanceAction::Out));
    day.punch(t(500), None);
    assert_eq!(day.in_time, Some(t(0)));
    assert_eq!(day.out_time, Some(t(1000)));
    assert_eq!(day.breaks.len(), 1);
    assert_eq!(day.breaks[0].end, Some(t(80)));
    assert_eq!(day.closed_break_minutes(), 1);
}

#[test]
fn heading_takes_year_and_month_as_given() {
    let events = vec![
        event("2024-02-29", "22:00:00", IN),
        event("2024-02-29", "23:30:00", OUT),
    ];
    let report = monthly_report(&events, -5, 2);
    assert_eq!(
        report.text,
        "-5年2月の勤怠レポート\n\n2024-02-29  22:00 - 23:30  勤務: 1時間30分  休憩: 0時間0分\n\n合計: 1日勤務  1時間30分"
    );
}

#[test]
fn line_of_a_complete_day() {
    let days = group_by_date(&vec![
        event("2024-03-04", "08:15:00", IN),
        event("2024-03-04", "12:00:00", BREAK),
        event("2024-03-04", "13:10:00", BACK),
        event("2024-03-04", "15:00:00", BREAK),
        event("2024-03-04", "15:05:30", BACK),
        event("2024-03-04", "19:45:00", OUT),
    ]);
    let (line, worked) = render_day(&days[0]);
    assert_eq!(line, "2024-03-04  08:15 - 19:45  勤務: 10時間15分  休憩: 1時間15分");
    assert_eq!(worked, 690 - 75);
}

#[test]
fn returns_close_open_breaks_from_the_latest_back() {
    let events = vec![
        event("2024-01-15", "09:00:00", IN),
        event("2024-01-15", "12:00:00", BREAK),
        event("2024-01-15", "12:10:00", BREAK),
        event("2024-01-15", "12:30:00", BACK),
        event("2024-01-15", "13:00:00", BACK),
        event("2024-01-15", "13:30:00", BACK),
        event("2024-01-15", "18:00:00", OUT),
    ];
    let report = monthly_report(&events, 2024, 1);
    let breaks = &report.days[0].record.breaks;
    assert_eq!(breaks.len(), 2);
    assert_eq!(breaks[0].end, Some(at("2024-01-15T13:00:00+09:00")));
    assert_eq!(breaks[1].end, Some(at("2024-01-15T12:30:00+09:00")));
    assert_eq!(report.total_minutes, 460);
    assert_eq!(
        report.text,
        "2024年1月の勤怠レポート\n\n2024-01-15  09:00 - 18:00  勤務: 7時間40分  休憩: 1時間20分\n\n合計: 1日勤務  7時間40分"
    );
}

#[test]
fn open_break_is_found_from_the_end() {
    let t = |s: i64| Timestamp { secs: s, nanos: 0 };
    let mut day = DayRecord::new();
    assert_eq!(day.open_break(), None);
    day.punch(t(10), Some(AttendanceAction::Break));
    day.punch(t(20), Some(AttendanceAction::Break));
    day.punch(t(30), Some(AttendanceAction::Break));
    assert_eq!(day.open_break(), Some(2));
    day.punch(t(40), Some(AttendanceAction::Back));
    assert_eq!(day.open_break(), Some(1));
    day.punch(t(50), Some(AttendanceAction::Back));
    assert_eq!(day.open_break(), Some(0));
    day.punch(t(60), Some(AttendanceAction::Back));
    assert_eq!(day.open_break(), None);
    day.punch(t(70), Some(AttendanceAction::Back));
    assert_eq!(day.breaks.len(), 3);
    assert_eq!(day.breaks[0].end, Some(t(60)));
    assert_eq!(day.breaks[1].end, Some(t(50)));
    assert_eq!(day.breaks[2].end, Some(t(40)));
}
