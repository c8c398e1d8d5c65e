use attendance_bot::json::{child, first_item, text_of, Json, JsonMember};
use attendance_bot::notion::{action_for_label, action_label, decode_page, decode_results};
use attendance_bot::notion::{month_key_text, monthly_report_of_reply, page_json, page_request};
use attendance_bot::notion::{query_request, QueryError};
use attendance_bot::types::{AttendanceAction, AttendanceRecord, Timestamp};

fn text(s: &str) -> Json {
    Json::Text(s.to_string())
}

fn object(members: Vec<(&str, Json)>) -> Json {
    Json::Object(
        members
            .into_iter()
            .map(|(name, value)| JsonMember { name: name.to_string(), value })
            .collect(),
    )
}

fn stored_page(date: &str, stamp: &str, action: &str) -> Json {
    object(vec![
        ("object", text("page")),
        (
            "properties",
            object(vec![
                (
                    "日付",
                    object(vec![(
                        "rich_text",
                        Json::List(vec![object(vec![
                            ("type", text("text")),
                            ("text", object(vec![("content", text(date))])),
                        ])]),
                    )]),
                ),
                ("タイムスタンプ", object(vec![("date", object(vec![("start", text(stamp))]))])),
                ("アクション", object(vec![("select", object(vec![("name", text(action))]))])),
            ]),
        ),
    ])
}

fn path<'a>(root: &'a Json, names: &[&str]) -> Option<&'a Json> {
    let mut at = Some(root);
    for name in names {
        at = child(at, name);
    }
    at
}

fn sample_record() -> AttendanceRecord {
    AttendanceRecord {
        user_id: "U123".to_string(),
        user_name: "alice".to_string(),
        action: AttendanceAction::Break,
        timestamp: Timestamp { secs: 1709251200, nanos: 0 },
        date: "2024-03-01".to_string(),
    }
}

#[test]
fn labels_and_actions_correspond() {
    assert_eq!(action_label(AttendanceAction::In), "出勤");
    assert_eq!(action_label(AttendanceAction::Break), "休憩入り");
    assert_eq!(action_label(AttendanceAction::Back), "休憩戻り");
    assert_eq!(action_label(AttendanceAction::Out), "退勤");
    for action in [
        AttendanceAction::In,
        AttendanceAction::Break,
        AttendanceAction::Back,
        AttendanceAction::Out,
    ] {
        assert_eq!(action_for_label(action_label(action)), Some(action));
    }
    assert_eq!(action_for_label(""), None);
    assert_eq!(action_for_label("in"), None);
    assert_eq!(action_for_label("休憩"), None);
}

#[test]
fn record_is_laid_out_as_a_page() {
    let request = page_request(&sample_record(), "db-1").unwrap();
    assert_eq!(request.parent.database_id, "db-1");
    assert_eq!(request.properties.user_id.title.len(), 1);
    assert_eq!(request.properties.user_id.title[0].text.content, "U123");
    assert_eq!(request.properties.user_name.rich_text.len(), 1);
    assert_eq!(request.properties.user_name.rich_text[0].text.content, "alice");
    assert_eq!(request.properties.action.select.name, "休憩入り");
    assert_eq!(request.properties.timestamp.date.start, "2024-03-01T09:00:00+09:00");
    assert_eq!(request.properties.date.rich_text.len(), 1);
    assert_eq!(request.properties.date.rich_text[0].text.content, "2024-03-01");
}

#[test]
fn timestamp_is_written_to_the_second() {
    let mut record = sample_record();
    record.timestamp = Timestamp { secs: 1709251259, nanos: 987_654_321 };
    let request = page_request(&record, "db").unwrap();
    assert_eq!(request.properties.timestamp.date.start, "2024-03-01T09:00:59+09:00");
}

#[test]
fn instant_out_of_range_has_no_page() {
    let mut record = sample_record();
    record.timestamp = Timestamp { secs: i64::MAX, nanos: 0 };
    assert!(page_request(&record, "db").is_none());
}

#[test]
fn page_is_written_as_json() {
    let request = page_request(&sample_record(), "db-1").unwrap();
    let json = page_json(&request);
    assert_eq!(text_of(path(&json, &["parent", "database_id"])), Some("db-1"));
    let title = first_item(path(&json, &["properties", "ユーザーID", "title"]));
    assert_eq!(text_of(child(child(title, "text"), "content")), Some("U123"));
    let name = first_item(path(&json, &["properties", "ユーザー名", "rich_text"]));
    assert_eq!(text_of(child(child(name, "text"), "content")), Some("alice"));
    assert_eq!(text_of(path(&json, &["properties", "アクション", "select", "name"])), Some("休憩入り"));
    assert_eq!(
        text_of(path(&json, &["properties", "タイムスタンプ", "date", "start"])),
        Some("2024-03-01T09:00:00+09:00")
    );
    let date = first_item(path(&json, &["properties", "日付", "rich_text"]));
    assert_eq!(text_of(child(child(date, "text"), "content")), Some("2024-03-01"));
    match &json {
        Json::Object(members) => {
            let names: Vec<&str> = members.iter().map(|m| m.name.as_str()).collect();
            assert_eq!(names, vec!["parent", "properties"]);
        }
        _ => panic!("a page is an object"),
    }
    match path(&json, &["properties"]) {
        Some(Json::Object(members)) => {
            let names: Vec<&str> = members.iter().map(|m| m.name.as_str()).collect();
            assert_eq!(names, vec!["ユーザーID", "ユーザー名", "アクション", "タイムスタンプ", "日付"]);
        }
        _ => panic!("properties are an object"),
    }
}

#[test]
fn page_round_trip_keeps_id_action_and_date() {
    for action in [
        AttendanceAction::In,
        AttendanceAction::Break,
        AttendanceAction::Back,
        AttendanceAction::Out,
    ] {
        let mut record = sample_record();
        record.action = action;
        let json = page_json(&page_request(&record, "db").unwrap());
        let title = first_item(path(&json, &["properties", "ユーザーID", "title"]));
        assert_eq!(text_of(child(child(title, "text"), "content")), Some("U123"));
        let event = decode_page(&json).unwrap();
        assert_eq!(event.date, "2024-03-01");
        assert_eq!(action_for_label(&event.action), Some(action));
        assert_eq!(event.timestamp, record.timestamp);
    }
}

#[test]
fn stored_page_is_read_as_an_event() {
    let event = decode_page(&stored_page("2024-03-01", "2024-03-01T09:00:00.000+09:00", "出勤")).unwrap();
    assert_eq!(event.date, "2024-03-01");
    assert_eq!(event.action, "出勤");
    assert_eq!(event.timestamp, Timestamp { secs: 1709251200, nanos: 0 });
    let utc = decode_page(&stored_page("2024-03-01", "2024-03-01T00:00:00.25Z", "退勤")).unwrap();
    assert_eq!(utc.timestamp, Timestamp { secs: 1709251200, nanos: 250_000_000 });
}

#[test]
fn page_without_a_readable_timestamp_is_no_event() {
    assert!(decode_page(&stored_page("2024-03-01", "", "出勤")).is_none());
    assert!(decode_page(&stored_page("2024-03-01", "2024-03-01", "出勤")).is_none());
    assert!(decode_page(&stored_page("2024-03-01", "yesterday", "出勤")).is_none());
    assert!(decode_page(&Json::Null).is_none());
    assert!(decode_page(&object(vec![("properties", Json::List(vec![]))])).is_none());
    let number = object(vec![(
        "properties",
        object(vec![
            ("日付", date_property(text("2024-03-01"))),
            ("タイムスタンプ", object(vec![("date", object(vec![("start", Json::Number("5".to_string()))]))])),
            ("アクション", object(vec![("select", object(vec![("name", text("出勤"))]))])),
        ]),
    )]);
    assert!(decode_page(&number).is_none());
}

#[test]
fn timestamp_within_a_leap_second_is_no_event() {
    assert!(decode_page(&stored_page("2024-03-01", "2024-03-01T08:59:60+09:00", "出勤")).is_none());
    assert!(decode_page(&stored_page("2024-03-01", "2024-03-01T08:59:59+09:00", "出勤")).is_some());
}

fn date_property(content: Json) -> Json {
    object(vec![(
        "rich_text",
        Json::List(vec![object(vec![("text", object(vec![("content", content)]))])]),
    )])
}

fn page_with(date: Option<Json>, action: Option<Json>) -> Json {
    let mut properties = vec![(
        "タイムスタンプ",
        object(vec![("date", object(vec![("start", text("2024-03-01T09:00:00+09:00"))]))]),
    )];
    if let Some(date) = date {
        properties.push(("日付", date));
    }
    if let Some(action) = action {
        properties.push(("アクション", action));
    }
    object(vec![("properties", object(properties))])
}

fn select(name: Json) -> Json {
    object(vec![("select", object(vec![("name", name)]))])
}

#[test]
fn page_without_a_date_is_no_event() {
    let action = || Some(select(text("出勤")));
    assert!(decode_page(&page_with(Some(date_property(text("2024-03-01"))), action())).is_some());
    assert!(decode_page(&page_with(None, action())).is_none());
    assert!(decode_page(&page_with(Some(date_property(Json::Null)), action())).is_none());
    assert!(decode_page(&page_with(Some(date_property(Json::Number("20240301".to_string()))), action())).is_none());
    assert!(decode_page(&page_with(Some(object(vec![("rich_text", Json::List(vec![]))])), action())).is_none());
    assert!(decode_page(&page_with(Some(text("2024-03-01")), action())).is_none());
}

#[test]
fn page_without_a_known_action_is_no_event() {
    let date = || Some(date_property(text("2024-03-01")));
    assert!(decode_page(&page_with(date(), None)).is_none());
    assert!(decode_page(&page_with(date(), Some(select(Json::Null)))).is_none());
    assert!(decode_page(&page_with(date(), Some(select(text(""))))).is_none());
    assert!(decode_page(&page_with(date(), Some(select(text("in"))))).is_none());
    assert!(decode_page(&page_with(date(), Some(select(text("昼寝"))))).is_none());
    assert!(decode_page(&page_with(date(), Some(object(vec![("select", Json::Null)])))).is_none());
    assert!(decode_page(&page_with(date(), Some(select(text("退勤"))))).is_some());
}

#[test]
fn malformed_page_leaves_the_report_as_it_is() {
    let good = || {
        vec![
            stored_page("2024-03-01", "2024-03-01T09:00:00+09:00", "出勤"),
            stored_page("2024-03-01", "2024-03-01T18:00:00+09:00", "退勤"),
        ]
    };
    let expected = monthly_report_of_reply(&object(vec![("results", Json::List(good()))]), 2024, 3).unwrap();
    let bad = || {
        vec![
            page_with(None, Some(select(text("出勤")))),
            page_with(None, Some(select(text("退勤")))),
            stored_page("2024-03-02", "not a date", "出勤"),
            stored_page("2024-03-02", "2024-03-02T09:00:00+09:00", "昼寝"),
            Json::Null,
        ]
    };
    for position in 0..=2 {
        for page in bad() {
            let mut pages = good();
            pages.insert(position, page);
            let report = monthly_report_of_reply(&object(vec![("results", Json::List(pages))]), 2024, 3).unwrap();
            assert_eq!(report.text, expected.text);
            assert_eq!(report.work_days, 1);
            assert_eq!(report.total_minutes, 540);
            assert_eq!(report.days.len(), 1);
        }
    }
}

#[test]
fn pages_without_a_date_make_no_day() {
    let pages = vec![
        page_with(None, Some(select(text("出勤")))),
        page_with(None, Some(select(text("退勤")))),
    ];
    let report = monthly_report_of_reply(&object(vec![("results", Json::List(pages))]), 2024, 3).unwrap();
    assert_eq!(report.work_days, 0);
    assert!(report.days.is_empty());
    assert_eq!(report.text, "2024年3月の勤怠レポート\n\n勤務記録がありません");
}

#[test]
fn each_return_closes_the_latest_open_break() {
    let page = |time: &str, action: &str| {
        stored_page("2024-01-15", &format!("2024-01-15T{}:00+09:00", time), action)
    };
    let pages = vec![
        page("09:00", "出勤"),
        page("12:00", "休憩入り"),
        page("12:10", "休憩入り"),
        page("12:30", "休憩戻り"),
        page("13:00", "休憩戻り"),
        page("18:00", "退勤"),
    ];
    let report = monthly_report_of_reply(&object(vec![("results", Json::List(pages))]), 2024, 1).unwrap();
    assert_eq!(report.total_minutes, 460);
    assert_eq!(
        report.text,
        "2024年1月の勤怠レポート\n\n2024-01-15  09:00 - 18:00  勤務: 7時間40分  休憩: 1時間20分\n\n合計: 1日勤務  7時間40分"
    );
}

#[test]
fn reply_without_results_is_an_error() {
    assert_eq!(decode_results(&Json::Null).err(), Some(QueryError::NoResults));
    assert_eq!(decode_results(&object(vec![])).err(), Some(QueryError::NoResults));
    assert_eq!(
        decode_results(&object(vec![("results", text("none"))])).err(),
        Some(QueryError::NoResults)
    );
    assert_eq!(
        decode_results(&object(vec![("results", Json::Null)])).err(),
        Some(QueryError::NoResults)
    );
    assert_eq!(decode_results(&Json::List(vec![])).err(), Some(QueryError::NoResults));
    assert_eq!(QueryError::NoResults.message(), "No results found");
}

#[test]
fn results_are_read_in_order_and_bad_pages_passed_over() {
    let reply = object(vec![
        ("object", text("list")),
        (
            "results",
            Json::List(vec![
                stored_page("2024-03-01", "2024-03-01T09:00:00+09:00", "出勤"),
                stored_page("2024-03-01", "broken", "休憩入り"),
                Json::Bool(true),
                stored_page("2024-03-01", "2024-03-01T18:00:00+09:00", "退勤"),
            ]),
        ),
    ]);
    let events = decode_results(&reply).unwrap();
    assert_eq!(events.len(), 2);
    assert_eq!(events[0].action, "出勤");
    assert_eq!(events[1].action, "退勤");
    assert_eq!(events[1].timestamp.secs - events[0].timestamp.secs, 9 * 3600);
    let empty = decode_results(&object(vec![("results", Json::List(vec![]))])).unwrap();
    assert!(empty.is_empty());
}

#[test]
fn month_key_is_year_and_padded_month() {
    assert_eq!(month_key_text(2024, 3), "2024-03");
    assert_eq!(month_key_text(2024, 12), "2024-12");
    assert_eq!(month_key_text(987, 1), "987-01");
    assert_eq!(month_key_text(-1, 0), "-1-00");
}

#[test]
fn query_filters_by_user_and_month_and_sorts_by_time() {
    let query = query_request("U123", 2024, 3);
    let conditions = path(&query, &["filter", "and"]).unwrap();
    let by_user = conditions.item(0);
    assert_eq!(text_of(child(by_user, "property")), Some("ユーザーID"));
    assert_eq!(text_of(child(child(by_user, "title"), "equals")), Some("U123"));
    let by_month = conditions.item(1);
    assert_eq!(text_of(child(by_month, "property")), Some("日付"));
    assert_eq!(text_of(child(child(by_month, "rich_text"), "contains")), Some("2024-03"));
    assert!(conditions.item(2).is_none());
    let sorts = path(&query, &["sorts"]).unwrap();
    assert_eq!(text_of(child(sorts.item(0), "property")), Some("タイムスタンプ"));
    assert_eq!(text_of(child(sorts.item(0), "direction")), Some("ascending"));
    assert!(sorts.item(1).is_none());
}

#[test]
fn lookups_follow_json() {
    let doc = object(vec![
        ("a", text("first")),
        ("b", Json::List(vec![text("x"), Json::Null])),
        ("a", text("second")),
    ]);
    assert_eq!(doc.field("a").and_then(|j| j.as_text()), Some("second"));
    assert!(doc.field("c").is_none());
    assert!(doc.item(0).is_none());
    let list = doc.field("b").unwrap();
    assert_eq!(list.as_list().map(|l| l.len()), Some(2));
    assert_eq!(list.item(0).and_then(|j| j.as_text()), Some("x"));
    assert!(list.item(1).unwrap().as_text().is_none());
    assert!(list.item(2).is_none());
    assert!(list.field("a").is_none());
    assert!(text("t").as_list().is_none());
    assert_eq!(Json::text("t").as_text(), Some("t"));
    assert_eq!(Json::object_with("k", Json::text("v")).field("k").and_then(|j| j.as_text()), Some("v"));
}

#[test]
fn reply_is_turned_into_a_report() {
    let reply = object(vec![(
        "results",
        Json::List(vec![
            stored_page("2024-03-01", "2024-03-01T09:00:00+09:00", "出勤"),
            stored_page("2024-03-01", "2024-03-01T12:00:00+09:00", "休憩入り"),
            stored_page("2024-03-01", "2024-03-01T12:30:00+09:00", "休憩戻り"),
            stored_page("2024-03-01", "2024-03-01T18:00:00+09:00", "退勤"),
        ]),
    )]);
    let report = monthly_report_of_reply(&reply, 2024, 3).unwrap();
    assert_eq!(report.total_minutes, 510);
    assert_eq!(
        report.text,
        "2024年3月の勤怠レポート\n\n2024-03-01  09:00 - 18:00  勤務: 8時間30分  休憩: 0時間30分\n\n合計: 1日勤務  8時間30分"
    );
}

#[test]
fn reply_without_pages_gives_the_no_records_report() {
    let reply = object(vec![("results", Json::List(vec![]))]);
    let report = monthly_report_of_reply(&reply, 2024, 3).unwrap();
    assert_eq!(report.text, "2024年3月の勤怠レポート\n\n勤務記録がありません");
    assert_eq!(report.total_minutes, 0);
    assert_eq!(report.work_days, 0);
    assert_eq!(monthly_report_of_reply(&Json::Null, 2024, 3).err(), Some(QueryError::NoResults));
}

#[test]
fn instants_are_written_up_to_the_writable_limit() {
    let mut record = sample_record();
    record.timestamp = Timestamp { secs: 8_000_000_000_000, nanos: 0 };
    assert!(page_request(&record, "db").is_some());
    record.timestamp = Timestamp { secs: 8_000_000_000_001, nanos: 0 };
    assert!(page_request(&record, "db").is_none());
    record.timestamp = Timestamp { secs: -8_000_000_000_000, nanos: 0 };
    assert!(page_request(&record, "db").is_some());
    record.timestamp = Timestamp { secs: -8_000_000_000_001, nanos: 0 };
    assert!(page_request(&record, "db").is_none());
}

#[test]
fn instant_is_written_in_the_zone_of_record() {
    let t = Timestamp { secs: 0, nanos: 0 };
    assert_eq!(t.rfc3339_jst(), Some("1970-01-01T09:00:00+09:00".to_string()));
    assert_eq!(t.date_jst(), Some("1970-01-01".to_string()));
    assert_eq!(t.date_time_jst(), Some("1970-01-01 09:00:00".to_string()));
    let late = Timestamp { secs: 1709251200 + 15 * 3600 - 1, nanos: 999_999_999 };
    assert_eq!(late.date_jst(), Some("2024-03-01".to_string()));
    assert_eq!(late.date_time_jst(), Some("2024-03-01 23:59:59".to_string()));
    assert_eq!(late.second_of_day_jst(), 86399);
    assert_eq!(Timestamp { secs: i64::MIN, nanos: 0 }.date_jst(), None);
    assert_eq!(Timestamp { secs: i64::MAX, nanos: 0 }.rfc3339_jst(), None);
    assert_eq!(Timestamp { secs: 0, nanos: 2_000_000_000 }.date_time_jst(), None);
}
