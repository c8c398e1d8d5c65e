//! The report engine: punch events grouped into days, breaks paired in
//! arrival order, worked time added up, and the monthly report written out.

use vstd::prelude::*;
use vstd::string::*;
use crate::clock::{div_toward_zero, jst_hour, jst_minute, minutes_between, rem_toward_zero};
use crate::clock::{quotient_toward_zero, remainder_toward_zero};
use crate::notion::{action_for_label, action_of_label};
use crate::order::{compare_text, lemma_lt_distinct, lemma_lt_transitive, text_lt, TextOrder};
use crate::text::{decimal, push_decimal, push_signed, push_two_digits, signed_decimal, two_digits};
use crate::types::{AttendanceAction, Timestamp};

verus! {

/// One stored punch as it comes back from a query: the date key, the instant,
/// and the action label.
#[derive(Debug, Clone)]
pub struct RawEvent {
    pub date: String,
    pub timestamp: Timestamp,
    pub action: String,
}

/// The mathematical content of a `RawEvent`.
pub struct EventView {
    pub date: Seq<char>,
    pub timestamp: Timestamp,
    pub action: Seq<char>,
}

impl View for RawEvent {
    type V = EventView;

    open spec fn view(&self) -> EventView {
        EventView { date: self.date@, timestamp: self.timestamp, action: self.action@ }
    }
}

/// A break: its start and, once a return was punched, its end.
#[derive(Debug, Clone, Copy)]
pub struct BreakSpan {
    pub start: Timestamp,
    pub end: Option<Timestamp>,
}

/// What is known of one calendar date.
#[derive(Debug, Clone)]
pub struct DayRecord {
    pub in_time: Option<Timestamp>,
    pub out_time: Option<Timestamp>,
    pub breaks: Vec<BreakSpan>,
}

/// The mathematical content of a `DayRecord`.
pub struct DayView {
    pub in_time: Option<Timestamp>,
    pub out_time: Option<Timestamp>,
    pub breaks: Seq<BreakSpan>,
}

impl View for DayRecord {
    type V = DayView;

    open spec fn view(&self) -> DayView {
        DayView { in_time: self.in_time, out_time: self.out_time, breaks: self.breaks@ }
    }
}

/// A date and what is known of it.
#[derive(Debug, Clone)]
pub struct DayEntry {
    pub date: String,
    pub record: DayRecord,
}

/// A day of which nothing is known yet.
pub open spec fn empty_day() -> DayView {
    DayView { in_time: None, out_time: None, breaks: Seq::empty() }
}

/// The place of the most recently opened break that is still open, if any
/// break is.
pub open spec fn last_open(breaks: Seq<BreakSpan>) -> Option<int>
    decreases breaks.len(),
{
    if breaks.len() == 0 {
        None
    } else if breaks.last().end is None {
        Some(breaks.len() - 1)
    } else {
        last_open(breaks.drop_last())
    }
}

/// Whether some break of the day is still open.
pub open spec fn has_open_break(day: DayView) -> bool {
    last_open(day.breaks) is Some
}

/// Where `last_open` points, a break is open, and every later one is closed;
/// where it points nowhere, every break is closed.
pub proof fn lemma_last_open(breaks: Seq<BreakSpan>)
    ensures
        match last_open(breaks) {
            Some(k) => 0 <= k < breaks.len() && breaks[k].end is None && forall|j: int|
                k < j < breaks.len() ==> (#[trigger] breaks[j]).end is Some,
            None => forall|j: int| 0 <= j < breaks.len() ==> (#[trigger] breaks[j]).end is Some,
        },
    decreases breaks.len(),
{
    if breaks.len() > 0 && breaks.last().end is Some {
        let rest = breaks.drop_last();
        lemma_last_open(rest);
        match last_open(rest) {
            Some(k) => {
                assert forall|j: int| k < j < breaks.len() implies (#[trigger] breaks[j]).end
                    is Some by {
                    if j < rest.len() {
                        assert(rest[j].end is Some);
                    }
                }
            },
            None => {
                assert forall|j: int| 0 <= j < breaks.len() implies (#[trigger] breaks[j]).end
                    is Some by {
                    if j < rest.len() {
                        assert(rest[j].end is Some);
                    }
                }
            },
        }
    }
}

/// The day after one more punch. A clock-in or clock-out replaces the earlier
/// one; a break opens a new span; a return closes the most recently opened
/// span that is still open, and is dropped where none is; an unknown action
/// changes nothing.
pub open spec fn punched(day: DayView, at: Timestamp, action: Option<AttendanceAction>) -> DayView {
    match action {
        Some(AttendanceAction::In) => DayView { in_time: Some(at), ..day },
        Some(AttendanceAction::Out) => DayView { out_time: Some(at), ..day },
        Some(AttendanceAction::Break) => DayView {
            breaks: day.breaks.push(BreakSpan { start: at, end: None }),
            ..day
        },
        Some(AttendanceAction::Back) => match last_open(day.breaks) {
            Some(k) => DayView {
                breaks: day.breaks.update(k, BreakSpan { start: day.breaks[k].start, end: Some(at) }),
                ..day
            },
            None => day,
        },
        None => day,
    }
}

/// The day that the events dated `date` build, taken in the order given.
pub open spec fn day_of(events: Seq<RawEvent>, date: Seq<char>) -> DayView
    decreases events.len(),
{
    if events.len() == 0 {
        empty_day()
    } else {
        let before = day_of(events.drop_last(), date);
        let e = events.last();
        if e.date@ == date {
            punched(before, e.timestamp, action_of_label(e.action@))
        } else {
            before
        }
    }
}

/// Some event carries the date.
pub open spec fn has_date(events: Seq<RawEvent>, date: Seq<char>) -> bool {
    exists|j: int| 0 <= j < events.len() && (#[trigger] events[j]).date@ == date
}

/// Some entry carries the date.
pub open spec fn lists_date(days: Seq<DayEntry>, date: Seq<char>) -> bool {
    exists|k: int| 0 <= k < days.len() && (#[trigger] days[k]).date@ == date
}

/// The entries' dates strictly increase.
pub open spec fn dates_increase(days: Seq<DayEntry>) -> bool {
    forall|i: int, j: int|
        0 <= i < j < days.len() ==> text_lt((#[trigger] days[i]).date@, (#[trigger] days[j]).date@)
}

/// `days` is the grouping of `events`: one entry for each date that occurs,
/// in increasing order of date, each holding the day that its events build.
pub open spec fn groups(days: Seq<DayEntry>, events: Seq<RawEvent>) -> bool {
    &&& dates_increase(days)
    &&& forall|k: int|
        0 <= k < days.len() ==> has_date(events, (#[trigger] days[k]).date@) && days[k].record@
            == day_of(events, days[k].date@)
    &&& forall|j: int| 0 <= j < events.len() ==> lists_date(days, (#[trigger] events[j]).date@)
}

/// A day counts toward the totals only with both a clock-in and a clock-out.
pub open spec fn is_complete(day: DayView) -> bool {
    day.in_time is Some && day.out_time is Some
}

/// Minutes of one break: its length once closed, nothing while open.
pub open spec fn span_minutes(span: BreakSpan) -> int {
    match span.end {
        Some(end) => minutes_between(span.start, end),
        None => 0,
    }
}

/// Minutes of all closed breaks.
pub open spec fn break_minutes(breaks: Seq<BreakSpan>) -> int
    decreases breaks.len(),
{
    if breaks.len() == 0 {
        0
    } else {
        break_minutes(breaks.drop_last()) + span_minutes(breaks.last())
    }
}

/// Minutes worked on a day: from clock-in to clock-out less the closed
/// breaks; nothing for a day that is not complete.
pub open spec fn worked_minutes(day: DayView) -> int {
    if is_complete(day) {
        minutes_between(day.in_time->0, day.out_time->0) - break_minutes(day.breaks)
    } else {
        0
    }
}

/// No event dated `date`: the day is empty.
pub proof fn lemma_absent_day(events: Seq<RawEvent>, date: Seq<char>)
    requires
        !has_date(events, date),
    ensures
        day_of(events, date) == empty_day(),
    decreases events.len(),
{
    if events.len() > 0 {
        let rest = events.drop_last();
        assert(events[events.len() - 1].date@ != date);
        assert forall|j: int| 0 <= j < rest.len() implies (#[trigger] rest[j]).date@ != date by {
            assert(events[j].date@ != date);
        }
        lemma_absent_day(rest, date);
    }
}

impl DayRecord {
    /// A day of which nothing is known yet.
    pub fn new() -> (day: DayRecord)
        ensures
            day@ == empty_day(),
    {
        DayRecord { in_time: None, out_time: None, breaks: Vec::new() }
    }

    /// The place of the most recently opened break that is still open.
    pub fn open_break(&self) -> (r: Option<usize>)
        ensures
            match r {
                Some(k) => k < self.breaks@.len() && last_open(self.breaks@) == Some(k as int),
                None => last_open(self.breaks@) is None,
            },
    {
        let ghost all = self.breaks@;
        assert(all.take(all.len() as int) =~= all);
        let mut k: usize = self.breaks.len();
        while k > 0
            invariant
                k <= self.breaks@.len(),
                all == self.breaks@,
                last_open(all) == last_open(all.take(k as int)),
            decreases k,
        {
            k -= 1;
            proof {
                assert(all.take(k + 1).drop_last() =~= all.take(k as int));
                assert(all.take(k + 1).last() == all[k as int]);
            }
            if self.breaks[k].end.is_none() {
                return Some(k);
            }
        }
        None
    }

    /// Records one more punch.
    pub fn punch(&mut self, at: Timestamp, action: Option<AttendanceAction>)
        ensures
            final(self)@ == punched(old(self)@, at, action),
            final(self).breaks@.len() <= old(self).breaks@.len() + 1,
    {
        match action {
            Some(AttendanceAction::In) => {
                self.in_time = Some(at);
            },
            Some(AttendanceAction::Out) => {
                self.out_time = Some(at);
            },
            Some(AttendanceAction::Break) => {
                self.breaks.push(BreakSpan { start: at, end: None });
            },
            Some(AttendanceAction::Back) => {
                match self.open_break() {
                    Some(k) => {
                        let span = self.breaks[k];
                        self.breaks.set(k, BreakSpan { start: span.start, end: Some(at) });
                    },
                    None => {},
                }
            },
            None => {},
        }
    }
}

/// The number of punches that `days` can account for at most: one for each
/// day and one for each of its breaks.
pub open spec fn punch_weight(days: Seq<DayEntry>) -> nat
    decreases days.len(),
{
    if days.len() == 0 {
        0
    } else {
        punch_weight(days.drop_last()) + 1 + days.last().record.breaks@.len()
    }
}

proof fn lemma_weight_insert(days: Seq<DayEntry>, p: int, entry: DayEntry)
    requires
        0 <= p <= days.len(),
    ensures
        punch_weight(days.insert(p, entry)) == punch_weight(days) + 1 + entry.record.breaks@.len(),
    decreases days.len(),
{
    let grown = days.insert(p, entry);
    if p == days.len() {
        assert(grown.drop_last() =~= days);
    } else {
        assert(grown.drop_last() =~= days.drop_last().insert(p, entry));
        assert(grown.last() == days.last());
        lemma_weight_insert(days.drop_last(), p, entry);
    }
}

proof fn lemma_weight_remove(days: Seq<DayEntry>, p: int)
    requires
        0 <= p < days.len(),
    ensures
        punch_weight(days.remove(p)) + 1 + days[p].record.breaks@.len() == punch_weight(days),
    decreases days.len(),
{
    let shrunk = days.remove(p);
    if p == days.len() - 1 {
        assert(shrunk =~= days.drop_last());
    } else {
        assert(shrunk.drop_last() =~= days.drop_last().remove(p));
        assert(shrunk.last() == days.last());
        lemma_weight_remove(days.drop_last(), p);
    }
}

proof fn lemma_weight_of_prefix(days: Seq<DayEntry>, k: int)
    requires
        0 <= k <= days.len(),
    ensures
        punch_weight(days.take(k)) <= punch_weight(days),
    decreases days.len(),
{
    if k == days.len() {
        assert(days.take(k) =~= days);
    } else {
        assert(days.take(k) =~= days.drop_last().take(k));
        lemma_weight_of_prefix(days.drop_last(), k);
    }
}

/// Grouping stays a grouping when one more event is punched into the entry
/// that already carries its date.
proof fn lemma_punch_known_date(
    before: Seq<DayEntry>,
    after: Seq<DayEntry>,
    seen: Seq<RawEvent>,
    next: Seq<RawEvent>,
    p: int,
)
    requires
        groups(before, seen),
        next.len() == seen.len() + 1,
        next.drop_last() == seen,
        0 <= p < before.len(),
        before[p].date@ == next.last().date@,
        after.len() == before.len(),
        forall|k: int| 0 <= k < after.len() && k != p ==> (#[trigger] after[k]) == before[k],
        after[p].date@ == before[p].date@,
        after[p].record@ == punched(
            before[p].record@,
            next.last().timestamp,
            action_of_label(next.last().action@),
        ),
    ensures
        groups(after, next),
{
    assert forall|a: int, b: int| 0 <= a < b < after.len() implies text_lt(
        (#[trigger] after[a]).date@,
        (#[trigger] after[b]).date@,
    ) by {
        assert(text_lt(before[a].date@, before[b].date@));
    }
    assert forall|k: int| 0 <= k < after.len() implies has_date(next, (#[trigger] after[k]).date@)
        && after[k].record@ == day_of(next, after[k].date@) by {
        assert(has_date(seen, before[k].date@));
        let j = choose|j: int| 0 <= j < seen.len() && (#[trigger] seen[j]).date@ == before[k].date@;
        assert(next[j] == seen[j]);
        assert(next[j].date@ == after[k].date@);
        if k < p {
            lemma_lt_distinct(before[k].date@, before[p].date@);
        } else if k > p {
            lemma_lt_distinct(before[p].date@, before[k].date@);
        }
    }
    assert forall|j: int| 0 <= j < next.len() implies lists_date(
        after,
        (#[trigger] next[j]).date@,
    ) by {
        if j < seen.len() {
            assert(next[j] == seen[j]);
            assert(lists_date(before, seen[j].date@));
            let k = choose|k: int|
                0 <= k < before.len() && (#[trigger] before[k]).date@ == seen[j].date@;
            assert(after[k].date@ == next[j].date@);
        } else {
            assert(after[p].date@ == next[j].date@);
        }
    }
}

/// Grouping stays a grouping when an event of a date not yet listed opens a
/// new entry at the place where its date sorts.
proof fn lemma_punch_new_date(
    before: Seq<DayEntry>,
    entry: DayEntry,
    seen: Seq<RawEvent>,
    next: Seq<RawEvent>,
    p: int,
)
    requires
        groups(before, seen),
        next.len() == seen.len() + 1,
        next.drop_last() == seen,
        0 <= p <= before.len(),
        forall|k: int| 0 <= k < p ==> text_lt((#[trigger] before[k]).date@, entry.date@),
        p < before.len() ==> text_lt(entry.date@, before[p].date@),
        entry.date@ == next.last().date@,
        entry.record@ == punched(
            empty_day(),
            next.last().timestamp,
            action_of_label(next.last().action@),
        ),
    ensures
        groups(before.insert(p, entry), next),
{
    let after = before.insert(p, entry);
    let date = entry.date@;
    assert forall|k: int| p <= k < before.len() implies text_lt(
        date,
        (#[trigger] before[k]).date@,
    ) by {
        if k > p {
            lemma_lt_transitive(date, before[p].date@, before[k].date@);
        }
    }
    assert forall|k: int| 0 <= k < before.len() implies (#[trigger] before[k]).date@ != date by {
        if k < p {
            lemma_lt_distinct(before[k].date@, date);
        } else {
            lemma_lt_distinct(date, before[k].date@);
        }
    }
    assert(!has_date(seen, date)) by {
        if has_date(seen, date) {
            let j = choose|j: int| 0 <= j < seen.len() && (#[trigger] seen[j]).date@ == date;
            assert(lists_date(before, seen[j].date@));
        }
    }
    lemma_absent_day(seen, date);
    assert forall|a: int, b: int| 0 <= a < b < after.len() implies text_lt(
        (#[trigger] after[a]).date@,
        (#[trigger] after[b]).date@,
    ) by {
        if b < p {
            assert(text_lt(before[a].date@, before[b].date@));
        } else if b == p {
            assert(text_lt(before[a].date@, date));
        } else if a < p {
            assert(text_lt(before[a].date@, before[b - 1].date@));
        } else if a == p {
            assert(text_lt(date, before[b - 1].date@));
        } else {
            assert(text_lt(before[a - 1].date@, before[b - 1].date@));
        }
    }
    assert forall|k: int| 0 <= k < after.len() implies has_date(next, (#[trigger] after[k]).date@)
        && after[k].record@ == day_of(next, after[k].date@) by {
        if k == p {
            assert(next[next.len() - 1].date@ == after[k].date@);
        } else {
            let b = if k < p {
                k
            } else {
                k - 1
            };
            assert(after[k] == before[b]);
            assert(has_date(seen, before[b].date@));
            let j = choose|j: int|
                0 <= j < seen.len() && (#[trigger] seen[j]).date@ == before[b].date@;
            assert(next[j] == seen[j]);
            assert(next[j].date@ == after[k].date@);
        }
    }
    assert forall|j: int| 0 <= j < next.len() implies lists_date(
        after,
        (#[trigger] next[j]).date@,
    ) by {
        if j < seen.len() {
            assert(next[j] == seen[j]);
            assert(lists_date(before, seen[j].date@));
            let k = choose|k: int|
                0 <= k < before.len() && (#[trigger] before[k]).date@ == seen[j].date@;
            let a = if k < p {
                k
            } else {
                k + 1
            };
            assert(after[a] == before[k]);
            assert(after[a].date@ == next[j].date@);
        } else {
            assert(after[p].date@ == next[j].date@);
        }
    }
}

/// Groups punch events by date. Events of one date keep the order in which
/// they were given; the dates come out in increasing order.
pub fn group_by_date(events: &Vec<RawEvent>) -> (days: Vec<DayEntry>)
    ensures
        groups(days@, events@),
        days@.len() <= events@.len(),
        punch_weight(days@) <= 2 * events@.len(),
{
    let mut days: Vec<DayEntry> = Vec::new();
    let mut i: usize = 0;
    while i < events.len()
        invariant
            i <= events.len(),
            groups(days@, events@.take(i as int)),
            days@.len() <= i,
            punch_weight(days@) <= 2 * i,
        decreases events.len() - i,
    {
        let e = &events[i];
        let action = action_for_label(e.action.as_str());
        let ghost seen = events@.take(i as int);
        let ghost next = events@.take(i + 1);
        let ghost before = days@;
        proof {
            assert(next.drop_last() =~= seen);
            assert(next.last() == events@[i as int]);
        }
        let mut p: usize = 0;
        let mut state: u8 = 0;
        while p < days.len() && state == 0
            invariant
                p <= days.len(),
                state <= 2,
                forall|k: int| 0 <= k < p ==> text_lt((#[trigger] days@[k]).date@, e.date@),
                state == 1 ==> p < days.len() && days@[p as int].date@ == e.date@,
                state == 2 ==> p < days.len() && text_lt(e.date@, days@[p as int].date@),
            decreases (days.len() - p) + (if state == 0 { 1int } else { 0int }),
        {
            match compare_text(days[p].date.as_str(), e.date.as_str()) {
                TextOrder::Before => {
                    p += 1;
                },
                TextOrder::Same => {
                    state = 1;
                },
                TextOrder::After => {
                    state = 2;
                },
            }
        }
        if state == 1 {
            let mut entry = days.remove(p);
            let ghost without = days@;
            entry.record.punch(e.timestamp, action);
            days.insert(p, entry);
            proof {
                lemma_weight_remove(before, p as int);
                lemma_weight_insert(without, p as int, entry);
                lemma_punch_known_date(before, days@, seen, next, p as int);
            }
        } else {
            let mut record = DayRecord::new();
            record.punch(e.timestamp, action);
            let entry = DayEntry { date: e.date.clone(), record };
            let ghost added = entry;
            days.insert(p, entry);
            proof {
                lemma_weight_insert(before, p as int, added);
                lemma_punch_new_date(before, added, seen, next, p as int);
            }
        }
        i += 1;
    }
    proof {
        assert(events@.take(events@.len() as int) =~= events@);
    }
    days
}

/// A finished monthly report.
#[derive(Debug, Clone)]
pub struct MonthlyReport {
    /// The report as sent to the user.
    pub text: String,
    /// Number of complete days.
    pub work_days: u64,
    /// Minutes worked over all complete days.
    pub total_minutes: i128,
    /// The days behind the report, in increasing order of date.
    pub days: Vec<DayEntry>,
}

/// Number of complete days among `days`.
pub open spec fn complete_days(days: Seq<DayEntry>) -> nat
    decreases days.len(),
{
    if days.len() == 0 {
        0
    } else {
        complete_days(days.drop_last()) + if is_complete(days.last().record@) {
            1nat
        } else {
            0nat
        }
    }
}

/// Minutes worked over all of `days`.
pub open spec fn total_worked(days: Seq<DayEntry>) -> int
    decreases days.len(),
{
    if days.len() == 0 {
        0
    } else {
        total_worked(days.drop_last()) + worked_minutes(days.last().record@)
    }
}

/// A duration in minutes written as hours and minutes.
pub open spec fn hours_and_minutes(minutes: int) -> Seq<char> {
    signed_decimal(div_toward_zero(minutes, 60)) + "時間"@ + signed_decimal(
        rem_toward_zero(minutes, 60),
    ) + "分"@
}

/// A time of day in the zone of record, as `HH:MM`.
pub open spec fn clock_text(t: Timestamp) -> Seq<char> {
    two_digits(jst_hour(t) as nat) + ":"@ + two_digits(jst_minute(t) as nat)
}

/// The report line of a complete day.
pub open spec fn day_line(entry: DayEntry) -> Seq<char> {
    let day = entry.record@;
    entry.date@ + "  "@ + clock_text(day.in_time->0) + " - "@ + clock_text(day.out_time->0)
        + "  勤務: "@ + hours_and_minutes(worked_minutes(day)) + "  休憩: "@ + hours_and_minutes(
        break_minutes(day.breaks),
    )
}

/// The lines of the complete days among `days`, in order, one per line.
pub open spec fn joined_lines(days: Seq<DayEntry>) -> Seq<char>
    decreases days.len(),
{
    if days.len() == 0 {
        Seq::empty()
    } else {
        let before = joined_lines(days.drop_last());
        if !is_complete(days.last().record@) {
            before
        } else if complete_days(days.drop_last()) == 0 {
            day_line(days.last())
        } else {
            before + "\n"@ + day_line(days.last())
        }
    }
}

/// The heading of the report for a month.
pub open spec fn report_header(year: i32, month: u32) -> Seq<char> {
    signed_decimal(year as int) + "年"@ + decimal(month as nat) + "月の勤怠レポート\n\n"@
}

/// The closing line: how many days were worked, and for how long.
pub open spec fn summary_line(work_days: nat, total: int) -> Seq<char> {
    "\n\n合計: "@ + decimal(work_days) + "日勤務  "@ + hours_and_minutes(total)
}

/// The whole report: the heading, then either the one line that says there
/// are no records, or the day lines and the closing line.
pub open spec fn report_text(days: Seq<DayEntry>, year: i32, month: u32) -> Seq<char> {
    if complete_days(days) == 0 {
        report_header(year, month) + "勤務記録がありません"@
    } else {
        report_header(year, month) + joined_lines(days) + summary_line(
            complete_days(days),
            total_worked(days),
        )
    }
}

/// Appends a duration in minutes as hours and minutes.
pub(crate) fn push_hours_and_minutes(out: &mut String, minutes: i128)
    requires
        minutes > i128::MIN,
    ensures
        final(out)@ == old(out)@ + hours_and_minutes(minutes as int),
{
    let mut piece = String::new();
    push_signed(&mut piece, quotient_toward_zero(minutes, 60));
    piece.append("時間");
    push_signed(&mut piece, remainder_toward_zero(minutes, 60));
    piece.append("分");
    assert(piece@ =~= hours_and_minutes(minutes as int));
    out.append(piece.as_str());
}

/// Appends a time of day in the zone of record as `HH:MM`.
pub(crate) fn push_clock(out: &mut String, t: Timestamp)
    ensures
        final(out)@ == old(out)@ + clock_text(t),
{
    let mut piece = String::new();
    push_two_digits(&mut piece, t.hour_jst() as u128);
    piece.append(":");
    push_two_digits(&mut piece, t.minute_jst() as u128);
    assert(piece@ =~= clock_text(t));
    out.append(piece.as_str());
}

impl DayRecord {
    /// Minutes of all closed breaks of the day.
    pub fn closed_break_minutes(&self) -> (m: i128)
        ensures
            m == break_minutes(self.breaks@),
            -0x1000_0000_0000_0000 * self.breaks@.len() <= m <= 0x1000_0000_0000_0000
                * self.breaks@.len(),
    {
        let mut total: i128 = 0;
        let mut k: usize = 0;
        while k < self.breaks.len()
            invariant
                k <= self.breaks@.len(),
                total == break_minutes(self.breaks@.take(k as int)),
                -0x1000_0000_0000_0000 * k <= total <= 0x1000_0000_0000_0000 * k,
            decreases self.breaks@.len() - k,
        {
            let span = self.breaks[k];
            proof {
                assert(self.breaks@.take(k + 1).drop_last() =~= self.breaks@.take(k as int));
            }
            match span.end {
                Some(end) => {
                    total = total + span.start.minutes_until(&end);
                },
                None => {},
            }
            k += 1;
        }
        proof {
            assert(self.breaks@.take(self.breaks@.len() as int) =~= self.breaks@);
        }
        total
    }
}

/// Writes the report line of a complete day; yields the line and the minutes
/// worked.
pub fn render_day(entry: &DayEntry) -> (r: (String, i128))
    requires
        is_complete(entry.record@),
    ensures
        r.0@ == day_line(*entry),
        r.1 == worked_minutes(entry.record@),
        -0x1000_0000_0000_0000 * (1 + entry.record.breaks@.len()) <= r.1 <= 0x1000_0000_0000_0000
            * (1 + entry.record.breaks@.len()),
{
    let clock_in = entry.record.in_time.unwrap();
    let clock_out = entry.record.out_time.unwrap();
    let spans = entry.record.breaks.len();
    let rest = entry.record.closed_break_minutes();
    assert(-0x1000_0000_0000_0000 * usize::MAX <= rest <= 0x1000_0000_0000_0000 * usize::MAX);
    let worked = clock_in.minutes_until(&clock_out) - rest;
    let mut line = entry.date.clone();
    line.append("  ");
    push_clock(&mut line, clock_in);
    line.append(" - ");
    push_clock(&mut line, clock_out);
    line.append("  勤務: ");
    push_hours_and_minutes(&mut line, worked);
    line.append("  休憩: ");
    push_hours_and_minutes(&mut line, rest);
    (line, worked)
}

/// Most punches that the days of one report may account for.
pub open spec fn max_weight() -> nat {
    2 * usize::MAX as nat
}

/// Writes the monthly report over days already grouped.
pub(crate) fn render_report(days: Vec<DayEntry>, year: i32, month: u32) -> (report: MonthlyReport)
    requires
        punch_weight(days@) <= max_weight(),
    ensures
        report.days@ == days@,
        report.text@ == report_text(days@, year, month),
        report.work_days == complete_days(days@),
        report.total_minutes == total_worked(days@),
{
    let mut lines = String::new();
    let mut work_days: u64 = 0;
    let mut total: i128 = 0;
    let mut k: usize = 0;
    while k < days.len()
        invariant
            k <= days@.len(),
            punch_weight(days@) <= max_weight(),
            lines@ == joined_lines(days@.take(k as int)),
            work_days == complete_days(days@.take(k as int)),
            work_days <= k,
            total == total_worked(days@.take(k as int)),
            -0x1000_0000_0000_0000 * punch_weight(days@.take(k as int)) <= total
                <= 0x1000_0000_0000_0000 * punch_weight(days@.take(k as int)),
        decreases days@.len() - k,
    {
        let entry = &days[k];
        proof {
            assert(days@.take(k + 1).drop_last() =~= days@.take(k as int));
            assert(days@.take(k + 1).last() == days@[k as int]);
            lemma_weight_of_prefix(days@, k + 1);
        }
        if entry.record.in_time.is_some() && entry.record.out_time.is_some() {
            let (line, worked) = render_day(entry);
            if work_days == 0 {
                lines = line;
            } else {
                lines.append("\n");
                lines.append(line.as_str());
            }
            work_days += 1;
            total = total + worked;
        }
        k += 1;
    }
    proof {
        assert(days@.take(days@.len() as int) =~= days@);
    }
    let mut text = String::new();
    push_signed(&mut text, year as i128);
    text.append("年");
    push_decimal(&mut text, month as u128);
    text.append("月の勤怠レポート\n\n");
    assert(text@ =~= report_header(year, month));
    if work_days == 0 {
        text.append("勤務記録がありません");
    } else {
        text.append(lines.as_str());
        let mut summary = String::new();
        summary.append("\n\n合計: ");
        push_decimal(&mut summary, work_days as u128);
        summary.append("日勤務  ");
        push_hours_and_minutes(&mut summary, total);
        assert(summary@ =~= summary_line(work_days as nat, total as int));
        text.append(summary.as_str());
    }
    MonthlyReport { text, work_days, total_minutes: total, days }
}

/// Rebuilds the monthly report from the punch events of one user and month.
pub fn monthly_report(events: &Vec<RawEvent>, year: i32, month: u32) -> (report: MonthlyReport)
    ensures
        groups(report.days@, events@),
        report.text@ == report_text(report.days@, year, month),
        report.work_days == complete_days(report.days@),
        report.total_minutes == total_worked(report.days@),
{
    let count = events.len();
    let days = group_by_date(events);
    assert(punch_weight(days@) <= 2 * count);
    render_report(days, year, month)
}

/// A day that lacks its clock-in or its clock-out counts for nothing,
/// wherever it stands: without it the number of complete days, the minutes
/// worked, the lines and the whole report are the same.
pub proof fn lemma_incomplete_day_counts_for_nothing(days: Seq<DayEntry>, k: int, year: i32, month: u32)
    requires
        0 <= k < days.len(),
        !is_complete(days[k].record@),
    ensures
        worked_minutes(days[k].record@) == 0,
        complete_days(days.remove(k)) == complete_days(days),
        total_worked(days.remove(k)) == total_worked(days),
        joined_lines(days.remove(k)) == joined_lines(days),
        report_text(days.remove(k), year, month) == report_text(days, year, month),
    decreases days.len(),
{
    if k == days.len() - 1 {
        assert(days.remove(k) =~= days.drop_last());
    } else {
        assert(days.remove(k).drop_last() =~= days.drop_last().remove(k));
        assert(days.remove(k).last() == days.last());
        lemma_incomplete_day_counts_for_nothing(days.drop_last(), k, year, month);
    }
}

/// A return punched while no break is open leaves the day as it was.
pub proof fn lemma_stray_return_changes_nothing(day: DayView, at: Timestamp)
    requires
        !has_open_break(day),
    ensures
        punched(day, at, Some(AttendanceAction::Back)) == day,
{
}

/// A return that finds no open break is dropped for good: every day is built
/// as if the event had never been there, whatever follows it.
pub proof fn lemma_stray_return_is_dropped(events: Seq<RawEvent>, k: int, date: Seq<char>)
    requires
        0 <= k < events.len(),
        action_of_label(events[k].action@) == Some(AttendanceAction::Back),
        !has_open_break(day_of(events.take(k), events[k].date@)),
    ensures
        day_of(events.remove(k), date) == day_of(events, date),
    decreases events.len(),
{
    if k == events.len() - 1 {
        assert(events.remove(k) =~= events.drop_last());
        assert(events.take(k) =~= events.drop_last());
    } else {
        assert(events.remove(k).drop_last() =~= events.drop_last().remove(k));
        assert(events.remove(k).last() == events.last());
        assert(events.drop_last().take(k) =~= events.take(k));
        lemma_stray_return_is_dropped(events.drop_last(), k, date);
    }
}

/// `events` with the neighbours at `k` and `k + 1` exchanged.
pub open spec fn exchanged(events: Seq<RawEvent>, k: int) -> Seq<RawEvent> {
    events.update(k, events[k + 1]).update(k + 1, events[k])
}

/// Two punches may change places when neither is a break or a return, or
/// when just one of them is, unless both set the same end of the day.
pub open spec fn independent(x: Option<AttendanceAction>, y: Option<AttendanceAction>) -> bool {
    match (x, y) {
        (None, _) => true,
        (_, None) => true,
        (Some(AttendanceAction::In), Some(a)) => a != AttendanceAction::In,
        (Some(AttendanceAction::Out), Some(a)) => a != AttendanceAction::Out,
        (Some(a), Some(AttendanceAction::In)) => a != AttendanceAction::In,
        (Some(a), Some(AttendanceAction::Out)) => a != AttendanceAction::Out,
        _ => false,
    }
}

/// The order of two neighbouring events does not matter when they fall on
/// different dates or their punches are independent; only breaks and returns
/// of one date depend on the order in which they arrive.
pub proof fn lemma_order_matters_only_for_breaks(events: Seq<RawEvent>, k: int, date: Seq<char>)
    requires
        0 <= k,
        k + 1 < events.len(),
        events[k].date@ != events[k + 1].date@ || independent(
            action_of_label(events[k].action@),
            action_of_label(events[k + 1].action@),
        ),
    ensures
        day_of(exchanged(events, k), date) == day_of(events, date),
    decreases events.len(),
{
    let other = exchanged(events, k);
    if k + 1 == events.len() - 1 {
        let base = events.take(k);
        reveal_with_fuel(day_of, 3);
        assert(events.drop_last().drop_last() =~= base);
        assert(other.drop_last().drop_last() =~= base);
        assert(other.last() == events[k]);
        assert(other.drop_last().last() == events[k + 1]);
        assert(events.drop_last().last() == events[k]);
        let start = day_of(base, date);
        let x = action_of_label(events[k].action@);
        let y = action_of_label(events[k + 1].action@);
        let a = events[k].timestamp;
        let b = events[k + 1].timestamp;
        if events[k].date@ == date && events[k + 1].date@ == date {
            assert(punched(punched(start, a, x), b, y).breaks =~= punched(
                punched(start, b, y),
                a,
                x,
            ).breaks);
        }
    } else {
        assert(other.drop_last() =~= exchanged(events.drop_last(), k));
        assert(other.last() == events.last());
        lemma_order_matters_only_for_breaks(events.drop_last(), k, date);
    }
}

/// The report does not depend on the order of two neighbouring events that
/// fall on different dates or whose punches are independent: the grouping of
/// the one order is the grouping of the other, and with it the report.
pub proof fn lemma_report_ignores_order(days: Seq<DayEntry>, events: Seq<RawEvent>, k: int)
    requires
        groups(days, events),
        0 <= k,
        k + 1 < events.len(),
        events[k].date@ != events[k + 1].date@ || independent(
            action_of_label(events[k].action@),
            action_of_label(events[k + 1].action@),
        ),
    ensures
        groups(days, exchanged(events, k)),
{
    let other = exchanged(events, k);
    assert forall|d: int| 0 <= d < days.len() implies has_date(other, (#[trigger] days[d]).date@)
        && days[d].record@ == day_of(other, days[d].date@) by {
        lemma_order_matters_only_for_breaks(events, k, days[d].date@);
        assert(has_date(events, days[d].date@));
        let j = choose|j: int| 0 <= j < events.len() && (#[trigger] events[j]).date@ == days[d].date@;
        let moved = if j == k {
            k + 1
        } else if j == k + 1 {
            k
        } else {
            j
        };
        assert(other[moved] == events[j]);
        assert(other[moved].date@ == days[d].date@);
    }
    assert forall|j: int| 0 <= j < other.len() implies lists_date(
        days,
        (#[trigger] other[j]).date@,
    ) by {
        let from = if j == k {
            k + 1
        } else if j == k + 1 {
            k
        } else {
            j
        };
        assert(other[j] == events[from]);
        assert(lists_date(days, events[from].date@));
    }
}

/// Two runs of days agree: as many entries, with the same dates and the same
/// content, place by place.
pub open spec fn same_days(a: Seq<DayEntry>, b: Seq<DayEntry>) -> bool {
    &&& a.len() == b.len()
    &&& forall|i: int|
        0 <= i < a.len() ==> (#[trigger] a[i]).date@ == b[i].date@ && a[i].record@ == b[i].record@
}

proof fn lemma_same_dates(a: Seq<DayEntry>, b: Seq<DayEntry>)
    requires
        dates_increase(a),
        dates_increase(b),
        forall|i: int| 0 <= i < a.len() ==> lists_date(b, (#[trigger] a[i]).date@),
        forall|j: int| 0 <= j < b.len() ==> lists_date(a, (#[trigger] b[j]).date@),
    ensures
        a.len() == b.len(),
        forall|i: int| 0 <= i < a.len() ==> (#[trigger] a[i]).date@ == b[i].date@,
    decreases a.len(),
{
    if a.len() == 0 {
        if b.len() > 0 {
            assert(lists_date(a, b[0].date@));
        }
    } else if b.len() == 0 {
        assert(lists_date(b, a[0].date@));
    } else {
        let x = a.last();
        let y = b.last();
        assert(lists_date(b, a[a.len() - 1].date@));
        let j = choose|j: int| 0 <= j < b.len() && (#[trigger] b[j]).date@ == x.date@;
        assert(lists_date(a, b[b.len() - 1].date@));
        let i = choose|i: int| 0 <= i < a.len() && (#[trigger] a[i]).date@ == y.date@;
        if j < b.len() - 1 && i < a.len() - 1 {
            assert(text_lt(b[j].date@, y.date@));
            assert(text_lt(a[i].date@, x.date@));
            lemma_lt_transitive(x.date@, y.date@, x.date@);
            lemma_lt_distinct(x.date@, x.date@);
        }
        if j < b.len() - 1 {
            assert(text_lt(b[j].date@, y.date@));
            lemma_lt_distinct(x.date@, y.date@);
        }
        assert(x.date@ == y.date@);
        let a0 = a.drop_last();
        let b0 = b.drop_last();
        assert forall|p: int| 0 <= p < a0.len() implies lists_date(b0, (#[trigger] a0[p]).date@) by {
            assert(lists_date(b, a[p].date@));
            let q = choose|q: int| 0 <= q < b.len() && (#[trigger] b[q]).date@ == a[p].date@;
            assert(text_lt(a[p].date@, x.date@));
            lemma_lt_distinct(a[p].date@, x.date@);
            assert(b0[q].date@ == a0[p].date@);
        }
        assert forall|q: int| 0 <= q < b0.len() implies lists_date(a0, (#[trigger] b0[q]).date@) by {
            assert(lists_date(a, b[q].date@));
            let p = choose|p: int| 0 <= p < a.len() && (#[trigger] a[p]).date@ == b[q].date@;
            assert(text_lt(b[q].date@, y.date@));
            lemma_lt_distinct(b[q].date@, y.date@);
            assert(a0[p].date@ == b0[q].date@);
        }
        assert forall|p: int, q: int| 0 <= p < q < a0.len() implies text_lt(
            (#[trigger] a0[p]).date@,
            (#[trigger] a0[q]).date@,
        ) by {
            assert(text_lt(a[p].date@, a[q].date@));
        }
        assert forall|p: int, q: int| 0 <= p < q < b0.len() implies text_lt(
            (#[trigger] b0[p]).date@,
            (#[trigger] b0[q]).date@,
        ) by {
            assert(text_lt(b[p].date@, b[q].date@));
        }
        lemma_same_dates(a0, b0);
        assert forall|p: int| 0 <= p < a.len() implies (#[trigger] a[p]).date@ == b[p].date@ by {
            if p < a.len() - 1 {
                assert(a0[p].date@ == b0[p].date@);
            }
        }
    }
}

proof fn lemma_same_days_same_report(a: Seq<DayEntry>, b: Seq<DayEntry>, year: i32, month: u32)
    requires
        same_days(a, b),
    ensures
        complete_days(a) == complete_days(b),
        total_worked(a) == total_worked(b),
        joined_lines(a) == joined_lines(b),
        report_text(a, year, month) == report_text(b, year, month),
    decreases a.len(),
{
    if a.len() > 0 {
        let a0 = a.drop_last();
        let b0 = b.drop_last();
        assert forall|i: int| 0 <= i < a0.len() implies (#[trigger] a0[i]).date@ == b0[i].date@
            && a0[i].record@ == b0[i].record@ by {
            assert(a[i].date@ == b[i].date@);
        }
        lemma_same_days_same_report(a0, b0, year, month);
        assert(a[a.len() - 1].date@ == b[a.len() - 1].date@);
        assert(day_line(a.last()) == day_line(b.last()));
    }
}

/// The report is a function of the events: any two groupings of the same
/// events agree day by day, and so give the same report and the same totals.
pub proof fn lemma_report_is_determined(
    a: Seq<DayEntry>,
    b: Seq<DayEntry>,
    events: Seq<RawEvent>,
    year: i32,
    month: u32,
)
    requires
        groups(a, events),
        groups(b, events),
    ensures
        same_days(a, b),
        report_text(a, year, month) == report_text(b, year, month),
        complete_days(a) == complete_days(b),
        total_worked(a) == total_worked(b),
{
    assert forall|i: int| 0 <= i < a.len() implies lists_date(b, (#[trigger] a[i]).date@) by {
        assert(has_date(events, a[i].date@));
        let j = choose|j: int| 0 <= j < events.len() && (#[trigger] events[j]).date@ == a[i].date@;
        assert(lists_date(b, events[j].date@));
    }
    assert forall|i: int| 0 <= i < b.len() implies lists_date(a, (#[trigger] b[i]).date@) by {
        assert(has_date(events, b[i].date@));
        let j = choose|j: int| 0 <= j < events.len() && (#[trigger] events[j]).date@ == b[i].date@;
        assert(lists_date(a, events[j].date@));
    }
    lemma_same_dates(a, b);
    assert forall|i: int| 0 <= i < a.len() implies (#[trigger] a[i]).date@ == b[i].date@
        && a[i].record@ == b[i].record@ by {
        assert(a[i].record@ == day_of(events, a[i].date@));
        assert(b[i].record@ == day_of(events, b[i].date@));
    }
    lemma_same_days_same_report(a, b, year, month);
}

/// A month without events has no days: the report is the heading and the
/// line that says there are no records, and the totals are zero.
pub proof fn lemma_empty_month(days: Seq<DayEntry>, year: i32, month: u32)
    requires
        groups(days, Seq::<RawEvent>::empty()),
    ensures
        days.len() == 0,
        complete_days(days) == 0,
        total_worked(days) == 0,
        report_text(days, year, month) == report_header(year, month) + "勤務記録がありません"@,
{
    if days.len() > 0 {
        assert(has_date(Seq::<RawEvent>::empty(), days[0].date@));
    }
}

} // verus!
