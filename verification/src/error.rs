//! Application-wide errors as the interface reports them.

use vstd::prelude::*;

verus! {

/// Represents application-wide errors. Each kind carries the text of the
/// failure that caused it.
#[derive(Debug)]
pub enum Application {
    /// Configuration-related errors.
    Config(String),
    /// UI-related errors.
    Ui(String),
    /// Network-related errors.
    Network(String),
    /// JSON parsing errors.
    JsonParse(String),
    /// Errors that the server reported.
    ApiError(String),
    /// Unexpected errors.
    Unexpected(String),
}

/// An error as the contracts see it.
pub enum ApplicationView {
    Config(Seq<char>),
    Ui(Seq<char>),
    Network(Seq<char>),
    JsonParse(Seq<char>),
    ApiError(Seq<char>),
    Unexpected(Seq<char>),
}

impl View for Application {
    type V = ApplicationView;

    open spec fn view(&self) -> ApplicationView {
        match self {
            Application::Config(text) => ApplicationView::Config(text@),
            Application::Ui(text) => ApplicationView::Ui(text@),
            Application::Network(text) => ApplicationView::Network(text@),
            Application::JsonParse(text) => ApplicationView::JsonParse(text@),
            Application::ApiError(text) => ApplicationView::ApiError(text@),
            Application::Unexpected(text) => ApplicationView::Unexpected(text@),
        }
    }
}

/// What the user is told of an error: a fixed sentence for each kind, and
/// for an error that the server reported the server's own words.
pub open spec fn display_text(error: ApplicationView) -> Seq<char> {
    match error {
        ApplicationView::Config(_) => "There was an issue with the application configuration"@,
        ApplicationView::Ui(_) => "An error occurred in the user interface"@,
        ApplicationView::Network(_) => "There was a problem connecting to the server"@,
        ApplicationView::JsonParse(_) => "There was an issue processing the server response"@,
        ApplicationView::ApiError(text) => text,
        ApplicationView::Unexpected(_) => "An unexpected error occurred"@,
    }
}

impl Application {
    /// A simplified error message suitable for display to the user.
    pub fn display_message(&self) -> (message: &str)
        ensures
            message@ == display_text(self@),
    {
        match self {
            Application::Config(_) => "There was an issue with the application configuration",
            Application::Ui(_) => "An error occurred in the user interface",
            Application::Network(_) => "There was a problem connecting to the server",
            Application::JsonParse(_) => "There was an issue processing the server response",
            Application::ApiError(text) => text.as_str(),
            Application::Unexpected(_) => "An unexpected error occurred",
        }
    }
}

} // verus!
