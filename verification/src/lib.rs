//! Very simple command line argument parser.
//!
//! Most argument parsers are declarative: you tell them what to parse,
//! and they do it.
//!
//! This one just provides you with a stream of options and values and lets you
//! figure out the rest.
mod error;
pub mod laws;
mod model;
mod parser;
mod text;

pub use error::{error_message, message_with_quoted, quoted_value, Arg, Error};
pub use model::{
    ArgModel, ErrorModel, LastOptionModel, NextModel, ParserModel, StateModel, dashes,
    first_position, initial_model, is_first, is_long_form, is_short_form, next_after_options,
    next_fresh, next_step, option_text, option_text_or_empty, optional_value_step,
    unexpected_error, value_step,
};
pub use parser::{next_result, opt_text, strs_view, value_result, Parser};
pub use text::debug_text;
