//! The errors of this crate.

use vstd::prelude::*;
use vstd::string::StringExecFns;

verus! {

/// What can go wrong in the warehouse. Each variant carries the text that
/// tells what happened.
#[derive(Debug, Clone, PartialEq, Eq)]
pub enum Error {
    /// The remote service refused a call, or the call did not get through.
    Api(String),
    Database(String),
    Migration(String),
    Sync { entity_key: String, message: String },
    UrlParse(String),
    InvalidIdentifier(String),
    PeriodParse(String),
    Config(String),
    Llm(String),
    NotFound(String),
    Other(String),
}

/// An [`Error`] with its texts as sequences of characters.
pub enum ErrorView {
    Api(Seq<char>),
    Database(Seq<char>),
    Migration(Seq<char>),
    Sync { entity_key: Seq<char>, message: Seq<char> },
    UrlParse(Seq<char>),
    InvalidIdentifier(Seq<char>),
    PeriodParse(Seq<char>),
    Config(Seq<char>),
    Llm(Seq<char>),
    NotFound(Seq<char>),
    Other(Seq<char>),
}

impl View for Error {
    type V = ErrorView;

    open spec fn view(&self) -> ErrorView {
        match self {
            Error::Api(m) => ErrorView::Api(m@),
            Error::Database(m) => ErrorView::Database(m@),
            Error::Migration(m) => ErrorView::Migration(m@),
            Error::Sync { entity_key, message } => ErrorView::Sync {
                entity_key: entity_key@,
                message: message@,
            },
            Error::UrlParse(m) => ErrorView::UrlParse(m@),
            Error::InvalidIdentifier(m) => ErrorView::InvalidIdentifier(m@),
            Error::PeriodParse(m) => ErrorView::PeriodParse(m@),
            Error::Config(m) => ErrorView::Config(m@),
            Error::Llm(m) => ErrorView::Llm(m@),
            Error::NotFound(m) => ErrorView::NotFound(m@),
            Error::Other(m) => ErrorView::Other(m@),
        }
    }
}

/// The text of an error, as it is shown to the user.
pub open spec fn error_text(error: ErrorView) -> Seq<char> {
    match error {
        ErrorView::Api(m) => "Asana API error: "@ + m,
        ErrorView::Database(m) => "Database error: "@ + m,
        ErrorView::Migration(m) => "Migration error: "@ + m,
        ErrorView::Sync { entity_key, message } => "Sync error for "@ + entity_key + ": "@
            + message,
        ErrorView::UrlParse(m) => "Invalid URL: "@ + m,
        ErrorView::InvalidIdentifier(m) => "Invalid identifier: "@ + m,
        ErrorView::PeriodParse(m) => "Invalid period format: "@ + m,
        ErrorView::Config(m) => "Configuration error: "@ + m,
        ErrorView::Llm(m) => "LLM error: "@ + m,
        ErrorView::NotFound(m) => "Entity not found: "@ + m,
        ErrorView::Other(m) => m,
    }
}

/// `head` followed by `tail`.
pub fn join(head: &str, tail: &str) -> (text: String)
    ensures
        text@ == head@ + tail@,
{
    let mut text = String::from_str(head);
    text.append(tail);
    text
}

impl Error {
    /// The text of the error, as it is shown to the user.
    pub fn to_string(&self) -> (text: String)
        ensures
            text@ == error_text(self@),
    {
        match self {
            Error::Api(m) => join("Asana API error: ", m.as_str()),
            Error::Database(m) => join("Database error: ", m.as_str()),
            Error::Migration(m) => join("Migration error: ", m.as_str()),
            Error::Sync { entity_key, message } => {
                let mut text = join("Sync error for ", entity_key.as_str());
                text.append(": ");
                text.append(message.as_str());
                text
            },
            Error::UrlParse(m) => join("Invalid URL: ", m.as_str()),
            Error::InvalidIdentifier(m) => join("Invalid identifier: ", m.as_str()),
            Error::PeriodParse(m) => join("Invalid period format: ", m.as_str()),
            Error::Config(m) => join("Configuration error: ", m.as_str()),
            Error::Llm(m) => join("LLM error: ", m.as_str()),
            Error::NotFound(m) => join("Entity not found: ", m.as_str()),
            Error::Other(m) => m.clone(),
        }
    }
}

} // verus!
