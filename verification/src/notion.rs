//! The document store's page schema: how a punch record is laid out as page
//! properties, and how stored labels read back as actions.

use vstd::prelude::*;
use vstd::string::*;
use crate::clock::{jst_rfc3339, parse_rfc3339, rfc3339_instant, timestamp_of};
use crate::json::{child, first_item, lemma_find_member, members_of, text_of, values_of};
use crate::json::{Json, JsonMember, JsonValue, MemberValue};
use crate::report::{complete_days, groups, monthly_report, report_text, total_worked};
use crate::report::{EventView, MonthlyReport, RawEvent};
use crate::text::{push_signed, push_two_digits, same_text, signed_decimal, two_digits};
use crate::types::{AttendanceAction, AttendanceRecord, Timestamp};
use crate::types::{NotionDate, NotionDateValue, NotionOption, NotionPageRequest, NotionParent};
use crate::types::{NotionProperties, NotionRichText, NotionSelect, NotionText};
use crate::types::{NotionTextContent, NotionTitle};

verus! {

/// The label under which the store keeps an action.
pub open spec fn label_of(action: AttendanceAction) -> Seq<char> {
    match action {
        AttendanceAction::In => "出勤"@,
        AttendanceAction::Break => "休憩入り"@,
        AttendanceAction::Back => "休憩戻り"@,
        AttendanceAction::Out => "退勤"@,
    }
}

/// The action that a stored label stands for, if it is one of the four.
pub open spec fn action_of_label(label: Seq<char>) -> Option<AttendanceAction> {
    if label == "出勤"@ {
        Some(AttendanceAction::In)
    } else if label == "退勤"@ {
        Some(AttendanceAction::Out)
    } else if label == "休憩入り"@ {
        Some(AttendanceAction::Break)
    } else if label == "休憩戻り"@ {
        Some(AttendanceAction::Back)
    } else {
        None
    }
}

/// Reading back the label of an action gives that action.
pub proof fn lemma_label_round_trip(action: AttendanceAction)
    ensures
        action_of_label(label_of(action)) == Some(action),
{
    reveal_strlit("出勤");
    reveal_strlit("退勤");
    reveal_strlit("休憩入り");
    reveal_strlit("休憩戻り");
    assert("出勤"@[0] != "退勤"@[0]);
    assert("休憩入り"@[2] != "休憩戻り"@[2]);
    assert("出勤"@.len() != "休憩入り"@.len());
    assert("退勤"@.len() != "休憩戻り"@.len());
}

/// The label under which the store keeps an action.
pub fn action_label(action: AttendanceAction) -> (label: &'static str)
    ensures
        label@ == label_of(action),
{
    match action {
        AttendanceAction::In => "出勤",
        AttendanceAction::Break => "休憩入り",
        AttendanceAction::Back => "休憩戻り",
        AttendanceAction::Out => "退勤",
    }
}

/// Reads a stored label back as an action.
pub fn action_for_label(label: &str) -> (action: Option<AttendanceAction>)
    ensures
        action == action_of_label(label@),
{
    if same_text(label, "出勤") {
        Some(AttendanceAction::In)
    } else if same_text(label, "退勤") {
        Some(AttendanceAction::Out)
    } else if same_text(label, "休憩入り") {
        Some(AttendanceAction::Break)
    } else if same_text(label, "休憩戻り") {
        Some(AttendanceAction::Back)
    } else {
        None
    }
}

/// The run holds exactly one piece of text, `text`.
pub open spec fn holds_one(items: Seq<NotionTextContent>, text: Seq<char>) -> bool {
    items.len() == 1 && items[0].text.content@ == text
}

/// `request` is the page for `record` in the collection `database_id`, with
/// the record's instant written as `stamp`.
pub open spec fn is_page_for(
    request: NotionPageRequest,
    record: AttendanceRecord,
    database_id: Seq<char>,
    stamp: Seq<char>,
) -> bool {
    &&& request.parent.database_id@ == database_id
    &&& holds_one(request.properties.user_id.title@, record.user_id@)
    &&& holds_one(request.properties.user_name.rich_text@, record.user_name@)
    &&& request.properties.action.select.name@ == label_of(record.action)
    &&& request.properties.timestamp.date.start@ == stamp
    &&& holds_one(request.properties.date.rich_text@, record.date@)
}

fn one_text(text: &str) -> (items: Vec<NotionTextContent>)
    ensures
        holds_one(items@, text@),
{
    let mut items: Vec<NotionTextContent> = Vec::new();
    items.push(NotionTextContent { text: NotionText { content: String::from_str(text) } });
    items
}

/// Lays a record out as a page, with the record's instant written as `stamp`.
pub fn page_with_stamp(record: &AttendanceRecord, database_id: &str, stamp: String) -> (request:
    NotionPageRequest)
    ensures
        is_page_for(request, *record, database_id@, stamp@),
{
    NotionPageRequest {
        parent: NotionParent { database_id: String::from_str(database_id) },
        properties: NotionProperties {
            user_id: NotionTitle { title: one_text(record.user_id.as_str()) },
            user_name: NotionRichText { rich_text: one_text(record.user_name.as_str()) },
            action: NotionSelect {
                select: NotionOption { name: String::from_str(action_label(record.action)) },
            },
            timestamp: NotionDate { date: NotionDateValue { start: stamp } },
            date: NotionRichText { rich_text: one_text(record.date.as_str()) },
        },
    }
}

/// Lays a record out as the page that the store is asked to create, with the
/// record's instant written as RFC 3339 text in the zone of record. There is
/// no page where the instant cannot be written as a date.
pub fn page_request(record: &AttendanceRecord, database_id: &str) -> (r: Option<NotionPageRequest>)
    ensures
        match jst_rfc3339(record.timestamp) {
            Some(stamp) => r is Some && is_page_for(r->0, *record, database_id@, stamp),
            None => r is None,
        },
{
    match record.timestamp.rfc3339_jst() {
        None => None,
        Some(stamp) => Some(page_with_stamp(record, database_id, stamp)),
    }
}

/// A named member.
pub open spec fn named(name: Seq<char>, value: JsonValue) -> MemberValue {
    MemberValue { name, value }
}

/// An object with one member.
pub open spec fn single(name: Seq<char>, value: JsonValue) -> JsonValue {
    JsonValue::Object(seq![named(name, value)])
}

/// The JSON document of one piece of text.
pub open spec fn content_value(c: NotionTextContent) -> JsonValue {
    single("text"@, single("content"@, JsonValue::Text(c.text.content@)))
}

/// The JSON document of a run of text pieces.
pub open spec fn contents_value(items: Seq<NotionTextContent>) -> JsonValue {
    JsonValue::List(Seq::new(items.len(), |i: int| content_value(items[i])))
}

/// The JSON document of a page's properties, under the store's property names.
pub open spec fn properties_value(p: NotionProperties) -> JsonValue {
    JsonValue::Object(
        seq![
            named("ユーザーID"@, single("title"@, contents_value(p.user_id.title@))),
            named("ユーザー名"@, single("rich_text"@, contents_value(p.user_name.rich_text@))),
            named("アクション"@, single("select"@, single("name"@, JsonValue::Text(p.action.select.name@)))),
            named(
                "タイムスタンプ"@,
                single("date"@, single("start"@, JsonValue::Text(p.timestamp.date.start@))),
            ),
            named("日付"@, single("rich_text"@, contents_value(p.date.rich_text@))),
        ],
    )
}

/// The JSON document of a page-creation request.
pub open spec fn page_value(request: NotionPageRequest) -> JsonValue {
    JsonValue::Object(
        seq![
            named("parent"@, single("database_id"@, JsonValue::Text(request.parent.database_id@))),
            named("properties"@, properties_value(request.properties)),
        ],
    )
}

fn member(name: &str, value: Json) -> (m: JsonMember)
    ensures
        m.name@ == name@,
        m.value@ == value@,
{
    JsonMember { name: String::from_str(name), value }
}

fn contents_json(items: &Vec<NotionTextContent>) -> (j: Json)
    ensures
        j@ == contents_value(items@),
{
    let mut out: Vec<Json> = Vec::new();
    let mut k: usize = 0;
    while k < items.len()
        invariant
            k <= items@.len(),
            out@.len() == k,
            forall|i: int| 0 <= i < k ==> (#[trigger] out@[i])@ == content_value(items@[i]),
        decreases items@.len() - k,
    {
        let text = Json::text(items[k].text.content.as_str());
        out.push(Json::object_with("text", Json::object_with("content", text)));
        k += 1;
    }
    assert(values_of(out@) =~= Seq::new(items@.len(), |i: int| content_value(items@[i])));
    Json::list(out)
}

fn properties_json(p: &NotionProperties) -> (j: Json)
    ensures
        j@ == properties_value(*p),
{
    let mut members: Vec<JsonMember> = Vec::new();
    members.push(member("ユーザーID", Json::object_with("title", contents_json(&p.user_id.title))));
    members.push(
        member("ユーザー名", Json::object_with("rich_text", contents_json(&p.user_name.rich_text))),
    );
    members.push(
        member(
            "アクション",
            Json::object_with(
                "select",
                Json::object_with("name", Json::text(p.action.select.name.as_str())),
            ),
        ),
    );
    members.push(
        member(
            "タイムスタンプ",
            Json::object_with(
                "date",
                Json::object_with("start", Json::text(p.timestamp.date.start.as_str())),
            ),
        ),
    );
    members.push(member("日付", Json::object_with("rich_text", contents_json(&p.date.rich_text))));
    assert(members_of(members@) =~= properties_value(*p)->Object_0);
    Json::object(members)
}

/// Writes a page-creation request as the JSON document that the store takes.
pub fn page_json(request: &NotionPageRequest) -> (j: Json)
    ensures
        j@ == page_value(*request),
{
    let mut members: Vec<JsonMember> = Vec::new();
    members.push(
        member(
            "parent",
            Json::object_with("database_id", Json::text(request.parent.database_id.as_str())),
        ),
    );
    members.push(member("properties", properties_json(&request.properties)));
    assert(members_of(members@) =~= page_value(*request)->Object_0);
    Json::object(members)
}

/// The key by which a month is found in the date field: `YYYY-MM`.
pub open spec fn month_key(year: i32, month: u32) -> Seq<char> {
    signed_decimal(year as int) + "-"@ + two_digits(month as nat)
}

/// Writes the key by which a month is found in the date field.
pub fn month_key_text(year: i32, month: u32) -> (key: String)
    ensures
        key@ == month_key(year, month),
{
    let mut key = String::new();
    push_signed(&mut key, year as i128);
    key.append("-");
    push_two_digits(&mut key, month as u128);
    assert(key@ =~= month_key(year, month));
    key
}

/// The JSON document of the query for one user's month: the user id must be
/// equal, the date must contain the month key, and the results are asked for
/// in increasing order of timestamp.
pub open spec fn query_value(user_id: Seq<char>, year: i32, month: u32) -> JsonValue {
    JsonValue::Object(
        seq![
            named(
                "filter"@,
                single(
                    "and"@,
                    JsonValue::List(
                        seq![
                            JsonValue::Object(
                                seq![
                                    named("property"@, JsonValue::Text("ユーザーID"@)),
                                    named("title"@, single("equals"@, JsonValue::Text(user_id))),
                                ],
                            ),
                            JsonValue::Object(
                                seq![
                                    named("property"@, JsonValue::Text("日付"@)),
                                    named(
                                        "rich_text"@,
                                        single("contains"@, JsonValue::Text(month_key(year, month))),
                                    ),
                                ],
                            ),
                        ],
                    ),
                ),
            ),
            named(
                "sorts"@,
                JsonValue::List(
                    seq![
                        JsonValue::Object(
                            seq![
                                named("property"@, JsonValue::Text("タイムスタンプ"@)),
                                named("direction"@, JsonValue::Text("ascending"@)),
                            ],
                        ),
                    ],
                ),
            ),
        ],
    )
}

fn object_of_two(first: JsonMember, second: JsonMember) -> (j: Json)
    ensures
        j@ == JsonValue::Object(
            seq![named(first.name@, first.value@), named(second.name@, second.value@)],
        ),
{
    let ghost expected = seq![named(first.name@, first.value@), named(second.name@, second.value@)];
    let mut members: Vec<JsonMember> = Vec::new();
    members.push(first);
    members.push(second);
    assert(members_of(members@) =~= expected);
    Json::object(members)
}

/// Builds the query for the punch events of one user in one month.
pub fn query_request(user_id: &str, year: i32, month: u32) -> (j: Json)
    ensures
        j@ == query_value(user_id@, year, month),
{
    let by_user = object_of_two(
        member("property", Json::text("ユーザーID")),
        member("title", Json::object_with("equals", Json::text(user_id))),
    );
    let key = month_key_text(year, month);
    let by_month = object_of_two(
        member("property", Json::text("日付")),
        member("rich_text", Json::object_with("contains", Json::text(key.as_str()))),
    );
    let ghost by_user_value = by_user@;
    let ghost by_month_value = by_month@;
    let mut conditions: Vec<Json> = Vec::new();
    conditions.push(by_user);
    conditions.push(by_month);
    assert(values_of(conditions@) =~= seq![by_user_value, by_month_value]);
    let order = object_of_two(
        member("property", Json::text("タイムスタンプ")),
        member("direction", Json::text("ascending")),
    );
    let ghost order_value = order@;
    let mut sorts: Vec<Json> = Vec::new();
    sorts.push(order);
    assert(values_of(sorts@) =~= seq![order_value]);
    object_of_two(
        member("filter", Json::object_with("and", Json::list(conditions))),
        member("sorts", Json::list(sorts)),
    )
}

/// The text of a title property among a page's properties.
pub open spec fn title_at(properties: JsonValue, name: Seq<char>) -> Option<Seq<char>> {
    properties.member(name).member("title"@).element(0).member("text"@).member("content"@).text()
}

/// The text of a rich-text property among a page's properties.
pub open spec fn rich_text_at(properties: JsonValue, name: Seq<char>) -> Option<Seq<char>> {
    properties.member(name).member("rich_text"@).element(0).member("text"@).member(
        "content"@,
    ).text()
}

/// The chosen option of a select property among a page's properties.
pub open spec fn select_at(properties: JsonValue, name: Seq<char>) -> Option<Seq<char>> {
    properties.member(name).member("select"@).member("name"@).text()
}

/// The start of a date property among a page's properties.
pub open spec fn date_at(properties: JsonValue, name: Seq<char>) -> Option<Seq<char>> {
    properties.member(name).member("date"@).member("start"@).text()
}

/// The instant that a stored timestamp text denotes. A text that is no
/// RFC 3339 date denotes none, and neither does one that falls within a leap
/// second, which has no place on the scale that durations are measured on.
pub open spec fn readable_instant(text: Seq<char>) -> Option<Timestamp> {
    match timestamp_of(rfc3339_instant(text)) {
        Some(t) => if t.nanos < 1_000_000_000 {
            Some(t)
        } else {
            None
        },
        None => None,
    }
}

/// The punch event that a stored page holds. A page holds one only where its
/// date is a text, its timestamp is a text that denotes an instant, and its
/// action is one of the four labels; any other page holds none.
pub open spec fn page_event(page: JsonValue) -> Option<EventView> {
    let properties = page.member("properties"@);
    match (
        rich_text_at(properties, "日付"@),
        date_at(properties, "タイムスタンプ"@),
        select_at(properties, "アクション"@),
    ) {
        (Some(date), Some(stamp), Some(label)) => match (
            action_of_label(label),
            readable_instant(stamp),
        ) {
            (Some(_), Some(timestamp)) => Some(EventView { date, timestamp, action: label }),
            _ => None,
        },
        _ => None,
    }
}

/// The events that a run of pages holds, in the pages' order; pages that hold
/// none are passed over.
pub open spec fn decoded_events(pages: Seq<JsonValue>) -> Seq<EventView>
    decreases pages.len(),
{
    if pages.len() == 0 {
        Seq::empty()
    } else {
        match page_event(pages.last()) {
            Some(event) => decoded_events(pages.drop_last()).push(event),
            None => decoded_events(pages.drop_last()),
        }
    }
}

/// The views of a run of events.
pub open spec fn event_views(events: Seq<RawEvent>) -> Seq<EventView> {
    Seq::new(events.len(), |i: int| events[i]@)
}

/// Why a query's reply could not be read.
#[derive(Debug, Clone, Copy, PartialEq, Eq, Structural)]
pub enum QueryError {
    /// The reply holds no list of results.
    NoResults,
}

impl QueryError {
    /// What the caller is told.
    pub fn message(&self) -> (text: String)
        ensures
            text@ == "No results found"@,
    {
        String::from_str("No results found")
    }
}

/// Reads one stored page as a punch event; a page with a missing or
/// malformed field is none.
pub fn decode_page(page: &Json) -> (r: Option<RawEvent>)
    ensures
        match r {
            Some(event) => page_event(page@) == Some(event@),
            None => page_event(page@) is None,
        },
{
    let properties = page.field("properties");
    let date = text_of(
        child(child(first_item(child(child(properties, "日付"), "rich_text")), "text"), "content"),
    );
    let stamp = text_of(child(child(child(properties, "タイムスタンプ"), "date"), "start"));
    let label = text_of(child(child(child(properties, "アクション"), "select"), "name"));
    match (date, stamp, label) {
        (Some(date), Some(stamp), Some(label)) => {
            if action_for_label(label).is_none() {
                return None;
            }
            match parse_rfc3339(stamp) {
                Some(timestamp) => {
                    if timestamp.nanos < 1_000_000_000 {
                        Some(
                            RawEvent {
                                date: String::from_str(date),
                                timestamp,
                                action: String::from_str(label),
                            },
                        )
                    } else {
                        None
                    }
                },
                None => None,
            }
        },
        _ => None,
    }
}

/// Reads the reply to a query as punch events, in the reply's order. A reply
/// without a list of results is an error; a page that cannot be read is
/// passed over.
pub fn decode_results(response: &Json) -> (r: Result<Vec<RawEvent>, QueryError>)
    ensures
        match response@.member("results"@).items() {
            Some(pages) => r is Ok && event_views(r->Ok_0@) == decoded_events(pages),
            None => r == Err::<Vec<RawEvent>, QueryError>(QueryError::NoResults),
        },
{
    let results = match response.field("results") {
        Some(v) => v,
        None => {
            return Err(QueryError::NoResults);
        },
    };
    let pages = match results.as_list() {
        Some(p) => p,
        None => {
            return Err(QueryError::NoResults);
        },
    };
    let ghost all = values_of(pages@);
    let mut events: Vec<RawEvent> = Vec::new();
    let mut k: usize = 0;
    while k < pages.len()
        invariant
            k <= pages@.len(),
            all == values_of(pages@),
            event_views(events@) == decoded_events(all.take(k as int)),
        decreases pages@.len() - k,
    {
        let ghost before = events@;
        proof {
            assert(all.take(k + 1).drop_last() =~= all.take(k as int));
            assert(all.take(k + 1).last() == pages@[k as int]@);
        }
        match decode_page(&pages[k]) {
            Some(event) => {
                events.push(event);
                assert(event_views(events@) =~= event_views(before).push(event@));
            },
            None => {},
        }
        k += 1;
    }
    proof {
        assert(all.take(pages@.len() as int) =~= all);
    }
    Ok(events)
}

/// A page that holds no event contributes nothing, wherever it stands among
/// the results: with it or without it, the same events are read.
pub proof fn lemma_unreadable_page_is_passed_over(pages: Seq<JsonValue>, k: int, page: JsonValue)
    requires
        0 <= k <= pages.len(),
        page_event(page) is None,
    ensures
        decoded_events(pages.insert(k, page)) == decoded_events(pages),
    decreases pages.len(),
{
    let more = pages.insert(k, page);
    if k == pages.len() {
        assert(more.drop_last() =~= pages);
    } else {
        assert(more.drop_last() =~= pages.drop_last().insert(k, page));
        assert(more.last() == pages.last());
        lemma_unreadable_page_is_passed_over(pages.drop_last(), k, page);
    }
}

/// Writing a record as a page and reading the page back gives the record's
/// user id, action and date, and the instant that its timestamp text denotes.
pub proof fn lemma_page_round_trip(
    request: NotionPageRequest,
    record: AttendanceRecord,
    database_id: Seq<char>,
    stamp: Seq<char>,
)
    requires
        is_page_for(request, record, database_id, stamp),
    ensures
        title_at(page_value(request).member("properties"@), "ユーザーID"@) == Some(record.user_id@),
        select_at(page_value(request).member("properties"@), "アクション"@) == Some(
            label_of(record.action),
        ),
        action_of_label(label_of(record.action)) == Some(record.action),
        rich_text_at(page_value(request).member("properties"@), "日付"@) == Some(record.date@),
        readable_instant(stamp) is Some ==> page_event(page_value(request)) == Some(
            EventView {
                date: record.date@,
                timestamp: readable_instant(stamp)->0,
                action: label_of(record.action),
            },
        ),
        readable_instant(stamp) is None ==> page_event(page_value(request)) is None,
{
    lemma_label_round_trip(record.action);
    reveal_strlit("ユーザーID");
    reveal_strlit("ユーザー名");
    reveal_strlit("アクション");
    reveal_strlit("タイムスタンプ");
    reveal_strlit("日付");
    reveal_strlit("parent");
    reveal_strlit("properties");
    let page = page_value(request)->Object_0;
    assert(page[0].name.len() != page[1].name.len());
    lemma_find_member(page, 1);
    let properties = page_value(request).member("properties"@);
    assert(properties == properties_value(request.properties));
    let members = properties->Object_0;
    assert(members[0].name.len() == 6);
    assert(members[1].name.len() == 5);
    assert(members[2].name.len() == 5);
    assert(members[3].name.len() == 7);
    assert(members[4].name.len() == 2);
    assert(members[1].name[0] != members[2].name[0]);
    lemma_find_member(members, 0);
    lemma_find_member(members, 2);
    lemma_find_member(members, 3);
    lemma_find_member(members, 4);
    let user_id = properties.member("ユーザーID"@);
    lemma_find_member(user_id->Object_0, 0);
    let title = user_id.member("title"@).element(0);
    lemma_find_member(title->Object_0, 0);
    lemma_find_member(title.member("text"@)->Object_0, 0);
    let date = properties.member("日付"@);
    lemma_find_member(date->Object_0, 0);
    let rich = date.member("rich_text"@).element(0);
    lemma_find_member(rich->Object_0, 0);
    lemma_find_member(rich.member("text"@)->Object_0, 0);
    let action = properties.member("アクション"@);
    lemma_find_member(action->Object_0, 0);
    lemma_find_member(action.member("select"@)->Object_0, 0);
    let time = properties.member("タイムスタンプ"@);
    lemma_find_member(time->Object_0, 0);
    lemma_find_member(time.member("date"@)->Object_0, 0);
}

/// Rebuilds the monthly report from the reply to a query. A reply without a
/// list of results is an error; otherwise the report is the one of the
/// events that the reply's pages hold, in the reply's order.
pub fn monthly_report_of_reply(response: &Json, year: i32, month: u32) -> (r: Result<
    MonthlyReport,
    QueryError,
>)
    ensures
        match response@.member("results"@).items() {
            Some(pages) => r is Ok && r->Ok_0.text@ == report_text(r->Ok_0.days@, year, month)
                && r->Ok_0.work_days == complete_days(r->Ok_0.days@) && r->Ok_0.total_minutes
                == total_worked(r->Ok_0.days@) && exists|events: Seq<RawEvent>|
                #[trigger] event_views(events) == decoded_events(pages) && groups(
                    r->Ok_0.days@,
                    events,
                ),
            None => r is Err && r->Err_0 == QueryError::NoResults,
        },
{
    match decode_results(response) {
        Err(e) => Err(e),
        Ok(events) => Ok(monthly_report(&events, year, month)),
    }
}

} // verus!
