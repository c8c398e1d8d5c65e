//! The two ends of the pipeline as decisions on plain values: what the
//! gateway does with an inbound request, and what the processor does with a
//! queued command.

use vstd::prelude::*;
use vstd::string::*;
use crate::clock::{date_pattern, date_time_pattern, jst_text};
use crate::json::{child, lemma_find_member, members_of, text_of, value_of};
use crate::json::{Json, JsonMember, JsonValue, MemberValue};
use crate::slack::{parse_command_text, parse_outcome, parsed_command, verdict};
use crate::slack::{verify_signature_at, verify_slack_signature, SignatureError};
use crate::text::{decimal_u64, same_text, trim_text, trimmed};
use crate::types::{AttendanceAction, AttendanceRecord, SlackCommand, SlackResponse, Timestamp};

verus! {

/// The name-value pairs that a URL-encoded form body holds, in order, or
/// nothing where the body cannot be read as a form.
pub uninterp spec fn form_pairs(body: Seq<char>) -> Option<Seq<(Seq<char>, Seq<char>)>>;

/// The views of a run of pairs.
pub open spec fn pair_views(pairs: Seq<(String, String)>) -> Seq<(Seq<char>, Seq<char>)> {
    Seq::new(pairs.len(), |i: int| (pairs[i].0@, pairs[i].1@))
}

/// The views of the pairs that were parsed, where the form could be read.
pub open spec fn parsed_pairs(r: Option<Vec<(String, String)>>) -> Option<
    Seq<(Seq<char>, Seq<char>)>,
> {
    match r {
        Some(pairs) => Some(pair_views(pairs@)),
        None => None,
    }
}

/// Calls `serde_urlencoded::from_str` for a list of pairs. Trusted: the
/// outcome depends on the body alone.
#[verifier::external_body]
fn parse_form(body: &str) -> (r: Option<Vec<(String, String)>>)
    ensures
        parsed_pairs(r) == form_pairs(body@),
{
    serde_urlencoded::from_str::<Vec<(String, String)>>(body).ok()
}

/// The value of the last pair named `key`; empty where there is none.
pub open spec fn form_value(pairs: Seq<(Seq<char>, Seq<char>)>, key: Seq<char>) -> Seq<char>
    decreases pairs.len(),
{
    if pairs.len() == 0 {
        Seq::empty()
    } else if pairs.last().0 == key {
        pairs.last().1
    } else {
        form_value(pairs.drop_last(), key)
    }
}

/// Every field of the command is the form's value of that name.
pub open spec fn is_command_of(c: SlackCommand, pairs: Seq<(Seq<char>, Seq<char>)>) -> bool {
    &&& c.token@ == form_value(pairs, "token"@)
    &&& c.team_id@ == form_value(pairs, "team_id"@)
    &&& c.team_domain@ == form_value(pairs, "team_domain"@)
    &&& c.channel_id@ == form_value(pairs, "channel_id"@)
    &&& c.channel_name@ == form_value(pairs, "channel_name"@)
    &&& c.user_id@ == form_value(pairs, "user_id"@)
    &&& c.user_name@ == form_value(pairs, "user_name"@)
    &&& c.command@ == form_value(pairs, "command"@)
    &&& c.text@ == form_value(pairs, "text"@)
    &&& c.response_url@ == form_value(pairs, "response_url"@)
    &&& c.trigger_id@ == form_value(pairs, "trigger_id"@)
}

/// Looks a field up in a form; a missing field reads as empty.
pub fn form_field(pairs: &Vec<(String, String)>, key: &str) -> (value: String)
    ensures
        value@ == form_value(pair_views(pairs@), key@),
{
    let ghost all = pair_views(pairs@);
    assert(all.take(pairs@.len() as int) =~= all);
    let mut i: usize = pairs.len();
    while i > 0
        invariant
            i <= pairs@.len(),
            all == pair_views(pairs@),
            form_value(all, key@) == form_value(all.take(i as int), key@),
        decreases i,
    {
        i -= 1;
        proof {
            assert(all.take(i + 1).drop_last() =~= all.take(i as int));
            assert(all.take(i + 1).last() == all[i as int]);
        }
        if same_text(pairs[i].0.as_str(), key) {
            return pairs[i].1.clone();
        }
    }
    String::new()
}

/// Reads a command out of a form, field by field.
pub fn command_from_form(pairs: &Vec<(String, String)>) -> (c: SlackCommand)
    ensures
        is_command_of(c, pair_views(pairs@)),
{
    SlackCommand {
        token: form_field(pairs, "token"),
        team_id: form_field(pairs, "team_id"),
        team_domain: form_field(pairs, "team_domain"),
        channel_id: form_field(pairs, "channel_id"),
        channel_name: form_field(pairs, "channel_name"),
        user_id: form_field(pairs, "user_id"),
        user_name: form_field(pairs, "user_name"),
        command: form_field(pairs, "command"),
        text: form_field(pairs, "text"),
        response_url: form_field(pairs, "response_url"),
        trigger_id: form_field(pairs, "trigger_id"),
    }
}

/// Why the gateway could not decide on a request.
#[derive(Debug, Clone, Copy, PartialEq, Eq, Structural)]
pub enum GatewayError {
    /// The signature could not be checked.
    Signature(SignatureError),
    /// The body is no form.
    Form,
}

/// What the gateway does with a request.
#[derive(Debug, Clone)]
pub enum Admission {
    /// Answer "unauthorized"; enqueue nothing.
    Refused,
    /// Enqueue this command once, then acknowledge.
    Accepted(SlackCommand),
}

/// The gateway's decision, given the outcome of the signature check: a clock
/// that cannot be read stays an error, a signature that fails refuses the
/// request, and one that passes lets in the command that the body holds.
pub open spec fn admission_follows(
    r: Result<Admission, GatewayError>,
    checked: Result<bool, SignatureError>,
    body: Seq<char>,
) -> bool {
    match checked {
        Err(e) => r == Err::<Admission, GatewayError>(GatewayError::Signature(e)),
        Ok(false) => r is Ok && r->Ok_0 is Refused,
        Ok(true) => match form_pairs(body) {
            None => r == Err::<Admission, GatewayError>(GatewayError::Form),
            Some(pairs) => r is Ok && r->Ok_0 is Accepted && is_command_of(
                r->Ok_0->Accepted_0,
                pairs,
            ),
        },
    }
}

/// Decides on a request once its signature has been checked.
pub fn receive_checked(checked: Result<bool, SignatureError>, body: &str) -> (r: Result<
    Admission,
    GatewayError,
>)
    ensures
        admission_follows(r, checked, body@),
{
    match checked {
        Err(e) => Err(GatewayError::Signature(e)),
        Ok(false) => Ok(Admission::Refused),
        Ok(true) => match parse_form(body) {
            None => Err(GatewayError::Form),
            Some(pairs) => Ok(Admission::Accepted(command_from_form(&pairs))),
        },
    }
}

/// Decides on a request at the clock reading `now`: it is refused unless
/// its signature is authentic.
pub fn receive_at(signing_secret: &str, body: &str, timestamp: &str, signature: &str, now: u64) -> (r:
    Result<Admission, GatewayError>)
    ensures
        admission_follows(
            r,
            Ok(verdict(signing_secret@, body@, timestamp@, signature@, now)),
            body@,
        ),
{
    receive_checked(Ok(verify_signature_at(signing_secret, body, timestamp, signature, now)), body)
}

/// Decides on a request by the system clock. A request whose timestamp is
/// missing or is no number is refused whatever the clock reads.
pub fn receive(signing_secret: &str, body: &str, timestamp: &str, signature: &str) -> (r: Result<
    Admission,
    GatewayError,
>)
    ensures
        decimal_u64(timestamp@) is None ==> r is Ok && r->Ok_0 is Refused,
        decimal_u64(timestamp@) is Some ==> admission_follows(r, Err(SignatureError::Clock), body@)
            || exists|now: u64|
            admission_follows(
                r,
                Ok(verdict(signing_secret@, body@, timestamp@, signature@, now)),
                body@,
            ),
{
    receive_checked(verify_slack_signature(signing_secret, body, timestamp, signature), body)
}

/// A reply shown to the whole channel.
pub fn in_channel(text: &str) -> (response: SlackResponse)
    ensures
        response.response_type@ == "in_channel"@,
        response.text@ == text@,
{
    SlackResponse { response_type: String::from_str("in_channel"), text: String::from_str(text) }
}

/// The gateway's immediate answer to an accepted command.
pub fn acknowledgement() -> (response: SlackResponse)
    ensures
        response.response_type@ == "in_channel"@,
        response.text@ == "コマンドを受け付けました。処理中です... ⏳"@,
{
    in_channel("コマンドを受け付けました。処理中です... ⏳")
}

/// The two kinds of command.
#[derive(Debug, Clone, Copy, PartialEq, Eq, Structural)]
pub enum CommandKind {
    Report,
    Attendance,
}

/// A command asks for the report exactly when its text, trimmed, is the word
/// `report` as written.
pub open spec fn asks_for_report(text: Seq<char>) -> bool {
    trimmed(text) == "report"@
}

/// Tells a request for the report from a punch.
pub fn classify_command(text: &str) -> (kind: CommandKind)
    ensures
        kind == (if asks_for_report(text@) {
            CommandKind::Report
        } else {
            CommandKind::Attendance
        }),
{
    if same_text(trim_text(text), "report") {
        CommandKind::Report
    } else {
        CommandKind::Attendance
    }
}

/// How the confirmation names an action.
pub open spec fn action_phrase(action: AttendanceAction) -> Seq<char> {
    match action {
        AttendanceAction::In => "出勤"@,
        AttendanceAction::Break => "休憩開始"@,
        AttendanceAction::Back => "休憩終了"@,
        AttendanceAction::Out => "退勤"@,
    }
}

/// The confirmation of a punch: who, what, and when.
pub open spec fn confirmation(user_name: Seq<char>, action: AttendanceAction, when: Seq<char>) -> Seq<
    char,
> {
    user_name + " さんが "@ + action_phrase(action) + " しました ("@ + when + ")"@
}

/// The reply that carries a report.
pub open spec fn report_reply_text(user_name: Seq<char>, report: Seq<char>) -> Seq<char> {
    user_name + " さんの月次レポート:\n"@ + report
}

/// How the confirmation names an action.
pub fn action_phrase_text(action: AttendanceAction) -> (phrase: &'static str)
    ensures
        phrase@ == action_phrase(action),
{
    match action {
        AttendanceAction::In => "出勤",
        AttendanceAction::Break => "休憩開始",
        AttendanceAction::Back => "休憩終了",
        AttendanceAction::Out => "退勤",
    }
}

/// Writes the reply that carries a report.
pub fn report_reply(user_name: &str, report: &str) -> (reply: String)
    ensures
        reply@ == report_reply_text(user_name@, report@),
{
    let mut reply = String::from_str(user_name);
    reply.append(" さんの月次レポート:\n");
    reply.append(report);
    reply
}

/// `record` is the punch of `action` by the command's user at `now`, dated
/// `date`. A record always names its user.
pub open spec fn is_record_of(
    record: AttendanceRecord,
    command: SlackCommand,
    action: AttendanceAction,
    now: Timestamp,
    date: Seq<char>,
) -> bool {
    &&& record.user_id@ == command.user_id@
    &&& record.user_id@.len() > 0
    &&& record.user_name@ == command.user_name@
    &&& record.action == action
    &&& record.timestamp == now
    &&& record.date@ == date
}

/// What the processor does with a command.
#[derive(Debug, Clone)]
pub enum Plan {
    /// Query the month's events and reply with the report.
    Report,
    /// Reply with this text; store nothing.
    Reply(String),
    /// Store the record, then reply with the confirmation.
    Store(AttendanceRecord, String),
    /// The punch names no user: store nothing, since every stored record
    /// carries a user id.
    Invalid,
}

/// The plan for a command received at `now`. A request for the report is
/// planned as such; a text that names no action is answered with the parse
/// error; a punch without a user id is invalid; any other punch is stored
/// under its date in the zone of record and confirmed with its date and
/// time. There is no plan for a punch at an instant that cannot be written
/// as a date.
pub open spec fn plan_follows(r: Option<Plan>, command: SlackCommand, now: Timestamp) -> bool {
    if asks_for_report(command.text@) {
        r is Some && r->0 is Report
    } else {
        match parsed_command(command.text@) {
            Err(message) => r is Some && r->0 is Reply && r->0->Reply_0@ == message,
            Ok(action) => if command.user_id@.len() == 0 {
                r is Some && r->0 is Invalid
            } else {
                match (jst_text(now, date_pattern()), jst_text(now, date_time_pattern())) {
                    (Some(date), Some(when)) => r is Some && r->0 is Store && is_record_of(
                        r->0->Store_0,
                        command,
                        action,
                        now,
                        date,
                    ) && r->0->Store_1@ == confirmation(command.user_name@, action, when),
                    _ => r is None,
                }
            },
        }
    }
}

/// Writes the confirmation of a punch made at the time written `when`.
pub fn confirmation_text(user_name: &str, action: AttendanceAction, when: &str) -> (reply: String)
    ensures
        reply@ == confirmation(user_name@, action, when@),
{
    let mut reply = String::from_str(user_name);
    reply.append(" さんが ");
    reply.append(action_phrase_text(action));
    reply.append(" しました (");
    reply.append(when);
    reply.append(")");
    reply
}

/// Plans the handling of a queued command received at `now`.
pub fn plan_command(command: &SlackCommand, now: Timestamp) -> (r: Option<Plan>)
    ensures
        plan_follows(r, *command, now),
{
    match classify_command(command.text.as_str()) {
        CommandKind::Report => Some(Plan::Report),
        CommandKind::Attendance => {
            let parsed = parse_command_text(command.text.as_str());
            assert(parse_outcome(parsed) == parsed_command(command.text@));
            match parsed {
                Err(message) => Some(Plan::Reply(message)),
                Ok(action) => {
                    if command.user_id.as_str().unicode_len() == 0 {
                        return Some(Plan::Invalid);
                    }
                    let date = now.date_jst();
                    let when = now.date_time_jst();
                    match (date, when) {
                        (Some(date), Some(when)) => {
                            let record = AttendanceRecord {
                                user_id: command.user_id.clone(),
                                user_name: command.user_name.clone(),
                                action,
                                timestamp: now,
                                date,
                            };
                            let reply = confirmation_text(
                                command.user_name.as_str(),
                                action,
                                when.as_str(),
                            );
                            Some(Plan::Store(record, reply))
                        },
                        _ => None,
                    }
                },
            }
        },
    }
}

/// A member that holds a text.
pub open spec fn text_entry(name: Seq<char>, value: Seq<char>) -> MemberValue {
    MemberValue { name, value: JsonValue::Text(value) }
}

/// The JSON document of a reply.
pub open spec fn response_value(r: SlackResponse) -> JsonValue {
    JsonValue::Object(
        seq![text_entry("response_type"@, r.response_type@), text_entry("text"@, r.text@)],
    )
}

/// The JSON document of a command: its fields by name.
pub open spec fn command_value(c: SlackCommand) -> JsonValue {
    JsonValue::Object(
        seq![
            text_entry("token"@, c.token@),
            text_entry("team_id"@, c.team_id@),
            text_entry("team_domain"@, c.team_domain@),
            text_entry("channel_id"@, c.channel_id@),
            text_entry("channel_name"@, c.channel_name@),
            text_entry("user_id"@, c.user_id@),
            text_entry("user_name"@, c.user_name@),
            text_entry("command"@, c.command@),
            text_entry("text"@, c.text@),
            text_entry("response_url"@, c.response_url@),
            text_entry("trigger_id"@, c.trigger_id@),
        ],
    )
}

/// The JSON document of a queue message: the command, and the timestamp of
/// the request that carried it.
pub open spec fn queue_message_value(c: SlackCommand, timestamp: Seq<char>) -> JsonValue {
    JsonValue::Object(
        seq![
            MemberValue { name: "command"@, value: command_value(c) },
            text_entry("timestamp"@, timestamp),
        ],
    )
}

fn text_member(name: &str, value: &str) -> (m: JsonMember)
    ensures
        m.name@ == name@,
        m.value@ == JsonValue::Text(value@),
{
    JsonMember { name: String::from_str(name), value: Json::text(value) }
}

/// Writes a reply as the JSON document that the chat platform takes.
pub fn response_json(response: &SlackResponse) -> (j: Json)
    ensures
        j@ == response_value(*response),
{
    let mut members: Vec<JsonMember> = Vec::new();
    members.push(text_member("response_type", response.response_type.as_str()));
    members.push(text_member("text", response.text.as_str()));
    assert(members_of(members@) =~= response_value(*response)->Object_0);
    Json::object(members)
}

/// Writes a command as a JSON document.
pub fn command_json(c: &SlackCommand) -> (j: Json)
    ensures
        j@ == command_value(*c),
{
    let mut members: Vec<JsonMember> = Vec::new();
    members.push(text_member("token", c.token.as_str()));
    members.push(text_member("team_id", c.team_id.as_str()));
    members.push(text_member("team_domain", c.team_domain.as_str()));
    members.push(text_member("channel_id", c.channel_id.as_str()));
    members.push(text_member("channel_name", c.channel_name.as_str()));
    members.push(text_member("user_id", c.user_id.as_str()));
    members.push(text_member("user_name", c.user_name.as_str()));
    members.push(text_member("command", c.command.as_str()));
    members.push(text_member("text", c.text.as_str()));
    members.push(text_member("response_url", c.response_url.as_str()));
    members.push(text_member("trigger_id", c.trigger_id.as_str()));
    assert(members_of(members@) =~= command_value(*c)->Object_0);
    Json::object(members)
}

/// Writes the message that carries a command through the queue.
pub fn queue_message_json(command: &SlackCommand, timestamp: &str) -> (j: Json)
    ensures
        j@ == queue_message_value(*command, timestamp@),
{
    let mut members: Vec<JsonMember> = Vec::new();
    members.push(JsonMember { name: String::from_str("command"), value: command_json(command) });
    members.push(text_member("timestamp", timestamp));
    assert(members_of(members@) =~= queue_message_value(*command, timestamp@)->Object_0);
    Json::object(members)
}

/// The text of a member, where the member is there and is a text.
pub open spec fn text_field(j: JsonValue, name: Seq<char>) -> Option<Seq<char>> {
    j.member(name).text()
}

/// Every field of the command is the text of the member of that name.
pub open spec fn reads_as_command(j: JsonValue, c: SlackCommand) -> bool {
    &&& text_field(j, "token"@) == Some(c.token@)
    &&& text_field(j, "team_id"@) == Some(c.team_id@)
    &&& text_field(j, "team_domain"@) == Some(c.team_domain@)
    &&& text_field(j, "channel_id"@) == Some(c.channel_id@)
    &&& text_field(j, "channel_name"@) == Some(c.channel_name@)
    &&& text_field(j, "user_id"@) == Some(c.user_id@)
    &&& text_field(j, "user_name"@) == Some(c.user_name@)
    &&& text_field(j, "command"@) == Some(c.command@)
    &&& text_field(j, "text"@) == Some(c.text@)
    &&& text_field(j, "response_url"@) == Some(c.response_url@)
    &&& text_field(j, "trigger_id"@) == Some(c.trigger_id@)
}

/// The document holds a text for every field of a command.
pub open spec fn holds_command(j: JsonValue) -> bool {
    &&& text_field(j, "token"@) is Some
    &&& text_field(j, "team_id"@) is Some
    &&& text_field(j, "team_domain"@) is Some
    &&& text_field(j, "channel_id"@) is Some
    &&& text_field(j, "channel_name"@) is Some
    &&& text_field(j, "user_id"@) is Some
    &&& text_field(j, "user_name"@) is Some
    &&& text_field(j, "command"@) is Some
    &&& text_field(j, "text"@) is Some
    &&& text_field(j, "response_url"@) is Some
    &&& text_field(j, "trigger_id"@) is Some
}

fn owned_field(j: Option<&Json>, name: &str) -> (r: Option<String>)
    ensures
        match r {
            Some(s) => text_field(value_of(j), name@) == Some(s@),
            None => text_field(value_of(j), name@) is None,
        },
{
    match text_of(child(j, name)) {
        Some(s) => Some(String::from_str(s)),
        None => None,
    }
}

/// Reads a command out of a JSON document; there is none where a field is
/// missing or is no text.
pub fn command_of_json(j: Option<&Json>) -> (r: Option<SlackCommand>)
    ensures
        match r {
            Some(c) => reads_as_command(value_of(j), c),
            None => !holds_command(value_of(j)),
        },
{
    let token = match owned_field(j, "token") {
        Some(v) => v,
        None => {
            return None;
        },
    };
    let team_id = match owned_field(j, "team_id") {
        Some(v) => v,
        None => {
            return None;
        },
    };
    let team_domain = match owned_field(j, "team_domain") {
        Some(v) => v,
        None => {
            return None;
        },
    };
    let channel_id = match owned_field(j, "channel_id") {
        Some(v) => v,
        None => {
            return None;
        },
    };
    let channel_name = match owned_field(j, "channel_name") {
        Some(v) => v,
        None => {
            return None;
        },
    };
    let user_id = match owned_field(j, "user_id") {
        Some(v) => v,
        None => {
            return None;
        },
    };
    let user_name = match owned_field(j, "user_name") {
        Some(v) => v,
        None => {
            return None;
        },
    };
    let command = match owned_field(j, "command") {
        Some(v) => v,
        None => {
            return None;
        },
    };
    let text = match owned_field(j, "text") {
        Some(v) => v,
        None => {
            return None;
        },
    };
    let response_url = match owned_field(j, "response_url") {
        Some(v) => v,
        None => {
            return None;
        },
    };
    let trigger_id = match owned_field(j, "trigger_id") {
        Some(v) => v,
        None => {
            return None;
        },
    };
    Some(
        SlackCommand {
            token,
            team_id,
            team_domain,
            channel_id,
            channel_name,
            user_id,
            user_name,
            command,
            text,
            response_url,
            trigger_id,
        },
    )
}

/// A command as it comes off the queue.
#[derive(Debug, Clone)]
pub struct QueuedCommand {
    pub command: SlackCommand,
    pub timestamp: String,
}

/// Reads a queue message; there is none where the command or the timestamp
/// is missing or malformed.
pub fn queued_command(message: &Json) -> (r: Option<QueuedCommand>)
    ensures
        match r {
            Some(q) => reads_as_command(message@.member("command"@), q.command) && text_field(
                message@,
                "timestamp"@,
            ) == Some(q.timestamp@),
            None => !holds_command(message@.member("command"@)) || text_field(
                message@,
                "timestamp"@,
            ) is None,
        },
{
    let command = match command_of_json(message.field("command")) {
        Some(c) => c,
        None => {
            return None;
        },
    };
    let timestamp = match owned_field(Some(message), "timestamp") {
        Some(t) => t,
        None => {
            return None;
        },
    };
    Some(QueuedCommand { command, timestamp })
}

/// A command written into a queue message reads back as itself, and so does
/// the timestamp.
pub proof fn lemma_queue_round_trip(c: SlackCommand, timestamp: Seq<char>)
    ensures
        reads_as_command(queue_message_value(c, timestamp).member("command"@), c),
        holds_command(queue_message_value(c, timestamp).member("command"@)),
        text_field(queue_message_value(c, timestamp), "timestamp"@) == Some(timestamp),
{
    reveal_strlit("token");
    reveal_strlit("team_id");
    reveal_strlit("team_domain");
    reveal_strlit("channel_id");
    reveal_strlit("channel_name");
    reveal_strlit("user_id");
    reveal_strlit("user_name");
    reveal_strlit("command");
    reveal_strlit("text");
    reveal_strlit("response_url");
    reveal_strlit("trigger_id");
    reveal_strlit("timestamp");
    let message = queue_message_value(c, timestamp)->Object_0;
    assert(message[0].name.len() == 7 && message[1].name.len() == 9);
    lemma_find_member(message, 0);
    lemma_find_member(message, 1);
    let fields = command_value(c)->Object_0;
    assert(fields[0].name.len() == 5 && fields[0].name[0] == 't');
    assert(fields[1].name.len() == 7 && fields[1].name[0] == 't');
    assert(fields[2].name.len() == 11 && fields[2].name[0] == 't');
    assert(fields[3].name.len() == 10 && fields[3].name[0] == 'c');
    assert(fields[4].name.len() == 12 && fields[4].name[0] == 'c');
    assert(fields[5].name.len() == 7 && fields[5].name[0] == 'u');
    assert(fields[6].name.len() == 9 && fields[6].name[0] == 'u');
    assert(fields[7].name.len() == 7 && fields[7].name[0] == 'c');
    assert(fields[8].name.len() == 4 && fields[8].name[0] == 't');
    assert(fields[9].name.len() == 12 && fields[9].name[0] == 'r');
    assert(fields[10].name.len() == 10 && fields[10].name[0] == 't');
    lemma_find_member(fields, 0);
    lemma_find_member(fields, 1);
    lemma_find_member(fields, 2);
    lemma_find_member(fields, 3);
    lemma_find_member(fields, 4);
    lemma_find_member(fields, 5);
    lemma_find_member(fields, 6);
    lemma_find_member(fields, 7);
    lemma_find_member(fields, 8);
    lemma_find_member(fields, 9);
    lemma_find_member(fields, 10);
}

} // verus!
