//! Arguments found by the parser, and its errors with their messages.
use vstd::prelude::*;

use crate::model::{dashes, unexpected_error, ArgModel, ErrorModel};
use crate::text::{debug_quote, debug_text, push_char, short_option_text};

verus! {

/// A command line argument found by [`Parser`](crate::Parser), either an option or a positional argument.
#[derive(Debug, Clone, PartialEq, Eq)]
pub enum Arg<'a> {
    /// A short option, e.g. `Short('q')` for `-q`.
    Short(char),
    /// A long option, e.g. `Long("verbose")` for `--verbose`. (The dashes are not included.)
    Long(&'a str),
    /// A standalone positional argument.
    Value(String),
}

impl<'a> View for Arg<'a> {
    type V = ArgModel;

    open spec fn view(&self) -> ArgModel {
        match self {
            Arg::Short(c) => ArgModel::Short(*c),
            Arg::Long(l) => ArgModel::Long(l@),
            Arg::Value(v) => ArgModel::Value(v@),
        }
    }
}

/// An error during argument parsing.
#[derive(Debug)]
#[allow(inconsistent_fields)]
pub enum Error {
    /// An option argument was expected but was not found.
    MissingValue {
        /// The most recently emitted option.
        option: Option<String>,
    },
    /// An unexpected option was found.
    UnexpectedOption(String),
    /// A positional argument was found when none was expected.
    UnexpectedArgument(String),
    /// An option had a value when none was expected.
    UnexpectedValue {
        /// The option.
        option: String,
        /// The value.
        value: String,
    },
}

impl View for Error {
    type V = ErrorModel;

    open spec fn view(&self) -> ErrorModel {
        match self {
            Error::MissingValue { option } => ErrorModel::MissingValue(
                match option {
                    Some(o) => Some(o@),
                    None => None,
                },
            ),
            Error::UnexpectedOption(o) => ErrorModel::UnexpectedOption(o@),
            Error::UnexpectedArgument(v) => ErrorModel::UnexpectedArgument(v@),
            Error::UnexpectedValue { option, value } => ErrorModel::UnexpectedValue(
                option@,
                value@,
            ),
        }
    }
}

/// The message that describes an error, given the quoted form of the
/// value it carries (for the two errors that carry one).
pub open spec fn message_with_quoted(e: ErrorModel, quoted: Seq<char>) -> Seq<char> {
    match e {
        ErrorModel::MissingValue(None) => "missing argument"@,
        ErrorModel::MissingValue(Some(o)) => "missing argument for option '"@ + o + "'"@,
        ErrorModel::UnexpectedOption(o) => "invalid option '"@ + o + "'"@,
        ErrorModel::UnexpectedArgument(_) => "unexpected argument "@ + quoted,
        ErrorModel::UnexpectedValue(o, _) => "unexpected argument for option '"@ + o + "': "@
            + quoted,
    }
}

/// The value an error carries, quoted as `Debug` formatting quotes a string.
pub open spec fn quoted_value(e: ErrorModel) -> Seq<char> {
    match e {
        ErrorModel::UnexpectedArgument(v) => debug_text(v),
        ErrorModel::UnexpectedValue(_, v) => debug_text(v),
        _ => Seq::empty(),
    }
}

/// The message that describes an error.
pub open spec fn error_message(e: ErrorModel) -> Seq<char> {
    message_with_quoted(e, quoted_value(e))
}

impl<'a> Arg<'a> {
    /// Convert an unexpected argument into an error.
    pub fn unexpected(self) -> (e: Error)
        ensures
            e@ == unexpected_error(self@),
    {
        match self {
            Arg::Short(short) => Error::UnexpectedOption(short_option_text(short)),
            Arg::Long(long) => {
                let mut text = String::new();
                push_char(&mut text, '-');
                push_char(&mut text, '-');
                text.append(long);
                assert(text@ =~= dashes() + long@);
                Error::UnexpectedOption(text)
            },
            Arg::Value(value) => Error::UnexpectedArgument(value),
        }
    }
}

impl Error {
    /// The message that describes the error, with `quoted` standing for the
    /// quoted value where the error carries one.
    pub fn message_with_quoted(&self, quoted: &str) -> (s: String)
        ensures
            s@ == message_with_quoted(self@, quoted@),
    {
        match self {
            Error::MissingValue { option: None } => String::from_str("missing argument"),
            Error::MissingValue { option: Some(option) } => {
                let s = String::from_str("missing argument for option '");
                let s = s.concat(option.as_str());
                s.concat("'")
            },
            Error::UnexpectedOption(option) => {
                let s = String::from_str("invalid option '");
                let s = s.concat(option.as_str());
                s.concat("'")
            },
            Error::UnexpectedArgument(_) => {
                let s = String::from_str("unexpected argument ");
                s.concat(quoted)
            },
            Error::UnexpectedValue { option, .. } => {
                let s = String::from_str("unexpected argument for option '");
                let s = s.concat(option.as_str());
                let s = s.concat("': ");
                s.concat(quoted)
            },
        }
    }

    /// The message that describes the error, as shown to a user.
    pub fn to_string(&self) -> (s: String)
        ensures
            s@ == error_message(self@),
    {
        let quoted = match self {
            Error::UnexpectedArgument(value) => debug_quote(value.as_str()),
            Error::UnexpectedValue { value, .. } => debug_quote(value.as_str()),
            _ => String::new(),
        };
        self.message_with_quoted(quoted.as_str())
    }
}

} // verus!
