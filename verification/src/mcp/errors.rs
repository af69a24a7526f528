//! Why a tool call fails.

use vstd::prelude::*;
use vstd::string::*;

use crate::json::{Doc, Json};
use crate::text::{number, quote};

verus! {

/// Why a tool call fails.
#[derive(Debug, PartialEq)]
pub enum ToolError<S = String, J = Json> {
    /// A required argument is absent.
    Missing(S),
    /// An argument is not a string.
    NotText { key: S, got: J },
    /// An argument is not a non-negative integer.
    NotNatural { key: S, got: J },
    /// An argument is not a boolean.
    NotFlag { key: S, got: J },
    /// An argument is an array, but not all of its items are strings.
    NotAllTexts(S),
    /// An argument is neither an array nor a string.
    NotTexts { key: S, got: J },
    /// There is no tool of that name.
    UnknownTool(S),
    /// There is no search mode of that name.
    UnknownSearchMode(S),
    /// There is no mode of that name for the dependency graph.
    UnknownGraphMode(S),
    /// The dependency graph does not know the file.
    UnknownFile(S),
    /// No chunk covers the line.
    NoChunk { file: S, line: usize },
    /// The pattern search program could not be started.
    NotInstalled,
    /// The pattern search program failed with that message.
    PatternFailed(S),
    /// The embedding model could not be loaded.
    ModelFailed { model: S, cause: S },
}

/// A tool error by its views.
pub type ErrorView = ToolError<Seq<char>, Doc>;

impl View for ToolError<String, Json> {
    type V = ErrorView;

    open spec fn view(&self) -> ErrorView {
        match *self {
            ToolError::Missing(key) => ToolError::Missing(key@),
            ToolError::NotText { key, got } => ToolError::NotText { key: key@, got: got@ },
            ToolError::NotNatural { key, got } => ToolError::NotNatural { key: key@, got: got@ },
            ToolError::NotFlag { key, got } => ToolError::NotFlag { key: key@, got: got@ },
            ToolError::NotAllTexts(key) => ToolError::NotAllTexts(key@),
            ToolError::NotTexts { key, got } => ToolError::NotTexts { key: key@, got: got@ },
            ToolError::UnknownTool(name) => ToolError::UnknownTool(name@),
            ToolError::UnknownSearchMode(mode) => ToolError::UnknownSearchMode(mode@),
            ToolError::UnknownGraphMode(mode) => ToolError::UnknownGraphMode(mode@),
            ToolError::UnknownFile(file) => ToolError::UnknownFile(file@),
            ToolError::NoChunk { file, line } => ToolError::NoChunk { file: file@, line },
            ToolError::NotInstalled => ToolError::NotInstalled,
            ToolError::PatternFailed(message) => ToolError::PatternFailed(message@),
            ToolError::ModelFailed { model, cause } => ToolError::ModelFailed {
                model: model@,
                cause: cause@,
            },
        }
    }
}

/// What is said where the pattern search program is absent.
pub const NOT_INSTALLED: &'static str = "ast-grep is not installed. find_pattern is a thin wrapper around it. Install with `brew install ast-grep` or `cargo install ast-grep` and retry.";

/// The message about an argument of the wrong type.
pub open spec fn wrong_type(key: Seq<char>, expected: Seq<char>, got: Doc) -> Seq<char> {
    "Argument "@ + crate::text::quoted(key) + " must be "@ + expected + ", got: "@
        + crate::json::written(got)
}

/// The message that tells a caller of a tool what went wrong.
pub open spec fn error_text(e: ErrorView) -> Seq<char> {
    match e {
        ToolError::Missing(key) => "Missing required argument: "@ + key,
        ToolError::NotText { key, got } => wrong_type(key, "a string"@, got),
        ToolError::NotNatural { key, got } => wrong_type(key, "a non-negative integer"@, got),
        ToolError::NotFlag { key, got } => wrong_type(key, "a boolean"@, got),
        ToolError::NotAllTexts(key) => "Argument "@ + crate::text::quoted(key)
            + " must be an array of strings"@,
        ToolError::NotTexts { key, got } => wrong_type(key, "an array of strings"@, got),
        ToolError::UnknownTool(name) => "Unknown tool: "@ + name,
        ToolError::UnknownSearchMode(mode) => "Unknown mode: "@ + crate::text::quoted(mode)
            + " (expected outline, compact, group, or full)"@,
        ToolError::UnknownGraphMode(mode) => "Unknown mode: "@ + crate::text::quoted(mode)
            + " (expected summary or tree)"@,
        ToolError::UnknownFile(file) => "File not found in graph: "@ + file,
        ToolError::NoChunk { file, line } => "No chunk found at "@ + file + ":"@
            + crate::text::decimal(line as nat) + "."@,
        ToolError::NotInstalled => NOT_INSTALLED@,
        ToolError::PatternFailed(message) => "ast-grep failed: "@ + message,
        ToolError::ModelFailed { model, cause } => "Failed to load model "@
            + crate::text::quoted(model) + ": "@ + cause,
    }
}

fn wrong_type_message(key: &str, expected: &str, got: &Json) -> (r: String)
    ensures
        r@ == wrong_type(key@, expected@, got@),
{
    let mut r = "Argument ".to_owned();
    r.append(&quote(key));
    r.append(" must be ");
    r.append(expected);
    r.append(", got: ");
    r.append(&got.render());
    r
}

/// `first` with `second` behind it.
fn joined(first: &str, second: &str) -> (r: String)
    ensures
        r@ == first@ + second@,
{
    let mut r = first.to_owned();
    r.append(second);
    r
}

impl ToolError<String, Json> {
    /// The message that tells a caller of a tool what went wrong.
    pub fn message(&self) -> (r: String)
        ensures
            r@ == error_text(self@),
    {
        match self {
            ToolError::Missing(key) => joined("Missing required argument: ", key),
            ToolError::NotText { key, got } => wrong_type_message(key, "a string", got),
            ToolError::NotNatural { key, got } => wrong_type_message(
                key,
                "a non-negative integer",
                got,
            ),
            ToolError::NotFlag { key, got } => wrong_type_message(key, "a boolean", got),
            ToolError::NotAllTexts(key) => {
                let mut r = joined("Argument ", &quote(key));
                r.append(" must be an array of strings");
                r
            },
            ToolError::NotTexts { key, got } => wrong_type_message(
                key,
                "an array of strings",
                got,
            ),
            ToolError::UnknownTool(name) => joined("Unknown tool: ", name),
            ToolError::UnknownSearchMode(mode) => {
                let mut r = joined("Unknown mode: ", &quote(mode));
                r.append(" (expected outline, compact, group, or full)");
                r
            },
            ToolError::UnknownGraphMode(mode) => {
                let mut r = joined("Unknown mode: ", &quote(mode));
                r.append(" (expected summary or tree)");
                r
            },
            ToolError::UnknownFile(file) => joined("File not found in graph: ", file),
            ToolError::NoChunk { file, line } => {
                let mut r = joined("No chunk found at ", file);
                r.append(":");
                r.append(&number(*line));
                r.append(".");
                r
            },
            ToolError::NotInstalled => NOT_INSTALLED.to_owned(),
            ToolError::PatternFailed(message) => joined("ast-grep failed: ", message),
            ToolError::ModelFailed { model, cause } => {
                let mut r = joined("Failed to load model ", &quote(model));
                r.append(": ");
                r.append(cause);
                r
            },
        }
    }
}

/// What each error says, with what it is about in it.
pub proof fn errors_say_what_they_are_about(a: Seq<char>, b: Seq<char>, got: Doc, line: usize)
    ensures
        error_text(ToolError::Missing(a)) == "Missing required argument: "@ + a,
        error_text(ToolError::NotText { key: a, got }) == "Argument "@ + crate::text::quoted(a)
            + " must be "@ + "a string"@ + ", got: "@ + crate::json::written(got),
        error_text(ToolError::NotNatural { key: a, got }) == "Argument "@ + crate::text::quoted(a)
            + " must be "@ + "a non-negative integer"@ + ", got: "@ + crate::json::written(got),
        error_text(ToolError::NotFlag { key: a, got }) == "Argument "@ + crate::text::quoted(a)
            + " must be "@ + "a boolean"@ + ", got: "@ + crate::json::written(got),
        error_text(ToolError::NotAllTexts(a)) == "Argument "@ + crate::text::quoted(a)
            + " must be an array of strings"@,
        error_text(ToolError::NotTexts { key: a, got }) == "Argument "@ + crate::text::quoted(a)
            + " must be "@ + "an array of strings"@ + ", got: "@ + crate::json::written(got),
        error_text(ToolError::UnknownTool(a)) == "Unknown tool: "@ + a,
        error_text(ToolError::UnknownSearchMode(a)) == "Unknown mode: "@ + crate::text::quoted(a)
            + " (expected outline, compact, group, or full)"@,
        error_text(ToolError::UnknownGraphMode(a)) == "Unknown mode: "@ + crate::text::quoted(a)
            + " (expected summary or tree)"@,
        error_text(ToolError::UnknownFile(a)) == "File not found in graph: "@ + a,
        error_text(ToolError::NoChunk { file: a, line }) == "No chunk found at "@ + a + ":"@
            + crate::text::decimal(line as nat) + "."@,
        error_text(ToolError::NotInstalled)
            == "ast-grep is not installed. find_pattern is a thin wrapper around it. Install with `brew install ast-grep` or `cargo install ast-grep` and retry."@,
        error_text(ToolError::PatternFailed(a)) == "ast-grep failed: "@ + a,
        error_text(ToolError::ModelFailed { model: a, cause: b }) == "Failed to load model "@
            + crate::text::quoted(a) + ": "@ + b,
{
}

/// An error keeps what it is about.
pub proof fn an_error_keeps_what_it_is_about(e: ToolError)
    ensures
        match e {
            ToolError::Missing(key) => e@ == ErrorView::Missing(key@),
            ToolError::NotText { key, got } => e@ == (ErrorView::NotText { key: key@, got: got@ }),
            ToolError::NotNatural { key, got } => e@ == (ErrorView::NotNatural {
                key: key@,
                got: got@,
            }),
            ToolError::NotFlag { key, got } => e@ == (ErrorView::NotFlag { key: key@, got: got@ }),
            ToolError::NotAllTexts(key) => e@ == ErrorView::NotAllTexts(key@),
            ToolError::NotTexts { key, got } => e@ == (ErrorView::NotTexts { key: key@, got: got@ }),
            ToolError::UnknownTool(name) => e@ == ErrorView::UnknownTool(name@),
            ToolError::UnknownSearchMode(mode) => e@ == ErrorView::UnknownSearchMode(mode@),
            ToolError::UnknownGraphMode(mode) => e@ == ErrorView::UnknownGraphMode(mode@),
            ToolError::UnknownFile(file) => e@ == ErrorView::UnknownFile(file@),
            ToolError::NoChunk { file, line } => e@ == (ErrorView::NoChunk { file: file@, line }),
            ToolError::NotInstalled => e@ is NotInstalled,
            ToolError::PatternFailed(message) => e@ == ErrorView::PatternFailed(message@),
            ToolError::ModelFailed { model, cause } => e@ == (ErrorView::ModelFailed {
                model: model@,
                cause: cause@,
            }),
        },
{
}

} // verus!
