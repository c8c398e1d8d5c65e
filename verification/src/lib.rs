//! Time-attendance bookkeeping: authenticating and reading chat commands,
//! mapping punch records to and from the document store's page schema, and
//! rebuilding a monthly report from stored punch events.

pub mod clock;
pub mod json;
pub mod notion;
pub mod order;
pub mod pipeline;
pub mod report;
pub mod slack;
pub mod text;
pub mod types;
