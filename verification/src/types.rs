//! The data that travels through the pipeline: commands, replies, punch
//! records, and the page structure that the document store expects.

use vstd::prelude::*;

verus! {

/// One inbound slash command, as the chat platform posts it.
#[derive(Debug, Clone)]
pub struct SlackCommand {
    pub token: String,
    pub team_id: String,
    pub team_domain: String,
    pub channel_id: String,
    pub channel_name: String,
    pub user_id: String,
    pub user_name: String,
    pub command: String,
    pub text: String,
    pub response_url: String,
    pub trigger_id: String,
}

/// A reply to the chat platform.
#[derive(Debug, Clone)]
pub struct SlackResponse {
    pub response_type: String,
    pub text: String,
}

/// The four punch actions.
#[derive(Debug, Clone, Copy, PartialEq, Eq, Structural)]
pub enum AttendanceAction {
    In,
    Break,
    Back,
    Out,
}

/// A point in time: whole seconds since the Unix epoch and the nanoseconds
/// within the second, below a thousand million. Durations are exact
/// differences of such instants.
#[derive(Debug, Clone, Copy, PartialEq, Eq, Structural)]
pub struct Timestamp {
    pub secs: i64,
    pub nanos: u32,
}

/// One persisted punch event.
#[derive(Debug, Clone)]
pub struct AttendanceRecord {
    pub user_id: String,
    pub user_name: String,
    pub action: AttendanceAction,
    pub timestamp: Timestamp,
    pub date: String,
}

/// The request to create one page in the document store.
#[derive(Debug, Clone)]
pub struct NotionPageRequest {
    pub parent: NotionParent,
    pub properties: NotionProperties,
}

/// The collection that a page is created in.
#[derive(Debug, Clone)]
pub struct NotionParent {
    pub database_id: String,
}

/// The properties of a page that holds a punch record.
#[derive(Debug, Clone)]
pub struct NotionProperties {
    pub user_id: NotionTitle,
    pub user_name: NotionRichText,
    pub action: NotionSelect,
    pub timestamp: NotionDate,
    pub date: NotionRichText,
}

/// A title property.
#[derive(Debug, Clone)]
pub struct NotionTitle {
    pub title: Vec<NotionTextContent>,
}

/// A rich-text property.
#[derive(Debug, Clone)]
pub struct NotionRichText {
    pub rich_text: Vec<NotionTextContent>,
}

/// One piece of text in a title or rich-text property.
#[derive(Debug, Clone)]
pub struct NotionTextContent {
    pub text: NotionText,
}

/// The characters of a piece of text.
#[derive(Debug, Clone)]
pub struct NotionText {
    pub content: String,
}

/// A select property.
#[derive(Debug, Clone)]
pub struct NotionSelect {
    pub select: NotionOption,
}

/// The chosen option of a select property.
#[derive(Debug, Clone)]
pub struct NotionOption {
    pub name: String,
}

/// A date property.
#[derive(Debug, Clone)]
pub struct NotionDate {
    pub date: NotionDateValue,
}

/// The start of a date property, as RFC 3339 text.
#[derive(Debug, Clone)]
pub struct NotionDateValue {
    pub start: String,
}

} // verus!
