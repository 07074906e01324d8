//! The ways configuration resolution fails, and what the user is told of each.

use vstd::prelude::*;

verus! {

/// Why the configuration could not be resolved.
#[derive(Debug, Clone, Copy, PartialEq, Eq, Structural)]
pub enum SoupError {
    /// A required configuration file is absent.
    MissingConfig,
    /// A configuration file lacks the site directory or holds an unusable one.
    InvalidConfig,
    /// The command-line command is not one the tool knows.
    InvalidCommand,
}

/// What is shown for an error: a labelled line for the error stream, advice for
/// standard output, and whether a template configuration should be written.
pub struct ErrorReport {
    pub label: String,
    pub advice: String,
    pub creates_template: bool,
}

pub open spec fn label_of(err: SoupError) -> Seq<char> {
    match err {
        SoupError::MissingConfig => "[Error]: Missing config file."@,
        SoupError::InvalidConfig => "[Error]: Invalid config file."@,
        SoupError::InvalidCommand => "[Error]: Invalid command"@,
    }
}

pub open spec fn advice_of(err: SoupError) -> Seq<char> {
    match err {
        SoupError::MissingConfig => "-------\nAttempting to create one..."@,
        SoupError::InvalidConfig => "-------\nZola directory isn't set or doesn't exist."@,
        SoupError::InvalidCommand => "-------\nAvailable commands:\n  add      - Adds a new note\n"@,
    }
}

/// The placeholder local configuration written when none exists.
pub open spec fn template_text() -> Seq<char> {
    "zola_dir=/path/to/zola/dir"@
}

/// Describes an error; only a missing configuration asks for a template file.
pub fn describe_error(err: SoupError) -> (r: ErrorReport)
    ensures
        r.label@ == label_of(err),
        r.advice@ == advice_of(err),
        r.creates_template == (err == SoupError::MissingConfig),
{
    match err {
        SoupError::MissingConfig => missing_config(),
        SoupError::InvalidConfig => invalid_config(),
        SoupError::InvalidCommand => invalid_command(),
    }
}

fn missing_config() -> (r: ErrorReport)
    ensures
        r.label@ == label_of(SoupError::MissingConfig),
        r.advice@ == advice_of(SoupError::MissingConfig),
        r.creates_template,
{
    ErrorReport {
        label: String::from_str("[Error]: Missing config file."),
        advice: String::from_str("-------\nAttempting to create one..."),
        creates_template: true,
    }
}

fn invalid_config() -> (r: ErrorReport)
    ensures
        r.label@ == label_of(SoupError::InvalidConfig),
        r.advice@ == advice_of(SoupError::InvalidConfig),
        !r.creates_template,
{
    ErrorReport {
        label: String::from_str("[Error]: Invalid config file."),
        advice: String::from_str("-------\nZola directory isn't set or doesn't exist."),
        creates_template: false,
    }
}

fn invalid_command() -> (r: ErrorReport)
    ensures
        r.label@ == label_of(SoupError::InvalidCommand),
        r.advice@ == advice_of(SoupError::InvalidCommand),
        !r.creates_template,
{
    ErrorReport {
        label: String::from_str("[Error]: Invalid command"),
        advice: String::from_str("-------\nAvailable commands:\n  add      - Adds a new note\n"),
        creates_template: false,
    }
}

/// The text of the template local configuration, with a placeholder directory.
pub fn template_config() -> (r: String)
    ensures
        r@ == template_text(),
{
    String::from_str("zola_dir=/path/to/zola/dir")
}

} // verus!
