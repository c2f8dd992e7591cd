//! The parser: a stream of options and values read from a command line.
use std::collections::VecDeque;

use vstd::prelude::*;

use crate::error::{Arg, Error};
use crate::model::{
    ErrorModel, LastOptionModel, NextModel, ParserModel, StateModel, initial_model, next_fresh,
    next_step, option_text, optional_value_step, value_step,
};
use crate::text::{find_char, is_dashes, prefix_to, short_option_text, suffix_from};

verus! {

broadcast use vstd::string::group_string_axioms;

#[derive(Debug)]
enum State {
    /// Nothing interesting is going on.
    Idle,
    /// We have a value left over from `--option=value`.
    PendingValue(String),
    /// We're in the middle of `-abc`; the position counts characters.
    Shorts(String, usize),
    /// We saw `--` and know no more options are coming.
    FinishedOpts,
}

/// We use this to keep track of the last emitted option, for error messages when
/// an expected value is not found.
///
/// We also use this as storage for long options so we can hand out `&str`.
#[derive(Debug)]
enum LastOption {
    NoOption,
    Short(char),
    Long(String),
}

/// Parser for command line arguments.
#[derive(Debug)]
pub struct Parser {
    args: VecDeque<String>,
    state: State,
    /// The last option we emitted.
    last_option: LastOption,
    /// The name of the command (argv\[0\]).
    bin_name: Option<String>,
    short_equals: bool,
}

/// The text of each string of a slice.
pub open spec fn strs_view(args: Seq<&str>) -> Seq<Seq<char>> {
    args.map_values(|s: &str| s@)
}

/// An optional string by its text.
pub open spec fn opt_text(o: Option<String>) -> Option<Seq<char>> {
    match o {
        Some(s) => Some(s@),
        None => None,
    }
}

/// The outcome of `Parser::next` by its text.
pub open spec fn next_result(r: Result<Option<Arg<'_>>, Error>) -> NextModel {
    match r {
        Ok(Some(a)) => Ok(Some(a@)),
        Ok(None) => Ok(None),
        Err(e) => Err(e@),
    }
}

/// The outcome of `Parser::value` by its text.
pub open spec fn value_result(r: Result<String, Error>) -> Result<Seq<char>, ErrorModel> {
    match r {
        Ok(v) => Ok(v@),
        Err(e) => Err(e@),
    }
}

impl View for Parser {
    type V = ParserModel;

    closed spec fn view(&self) -> ParserModel {
        ParserModel {
            args: self.args@.map_values(|s: String| s@),
            state: match self.state {
                State::Idle => StateModel::Idle,
                State::PendingValue(v) => StateModel::PendingValue(v@),
                State::Shorts(a, pos) => StateModel::Shorts(a@, pos as int),
                State::FinishedOpts => StateModel::FinishedOpts,
            },
            last_option: match self.last_option {
                LastOption::NoOption => LastOptionModel::NoOption,
                LastOption::Short(c) => LastOptionModel::Short(c),
                LastOption::Long(o) => LastOptionModel::Long(o@),
            },
            bin_name: opt_text(self.bin_name),
            short_equals: self.short_equals,
        }
    }
}

/// The remaining arguments of a slice, from position `start` on, as owned strings.
fn owned_args(args: &[&str], start: usize) -> (r: VecDeque<String>)
    requires
        start <= args@.len(),
    ensures
        r@.map_values(|s: String| s@) == strs_view(args@).skip(start as int),
{
    let mut r: VecDeque<String> = VecDeque::new();
    let mut i = start;
    while i < args.len()
        invariant
            start <= i <= args@.len(),
            r@.map_values(|s: String| s@) == strs_view(args@).subrange(start as int, i as int),
        decreases args@.len() - i,
    {
        let ghost before = r@;
        r.push_back(String::from_str(args[i]));
        assert(r@.map_values(|s: String| s@) =~= before.map_values(|s: String| s@).push(
            args@[i as int]@,
        ));
        i = i + 1;
        assert(strs_view(args@).subrange(start as int, i as int) =~= strs_view(args@).subrange(
            start as int,
            i - 1,
        ).push(args@[i - 1]@));
    }
    assert(strs_view(args@).subrange(start as int, args@.len() as int) =~= strs_view(
        args@,
    ).skip(start as int));
    r
}

impl Parser {
    /// A parser for a whole command line: the first argument is taken as the
    /// name of the command, the others are parsed.
    pub fn new(args: &[&str]) -> (p: Parser)
        ensures
            p@.wf(),
            p@ == (if args@.len() == 0 {
                initial_model(Seq::empty(), None)
            } else {
                initial_model(strs_view(args@).drop_first(), Some(args@[0]@))
            }),
    {
        if args.len() == 0 {
            let p = Parser {
                args: VecDeque::new(),
                state: State::Idle,
                last_option: LastOption::NoOption,
                bin_name: None,
                short_equals: true,
            };
            assert(p@.args =~= Seq::<Seq<char>>::empty());
            p
        } else {
            let rest = owned_args(args, 1);
            let p = Parser {
                args: rest,
                state: State::Idle,
                last_option: LastOption::NoOption,
                bin_name: Some(String::from_str(args[0])),
                short_equals: true,
            };
            assert(strs_view(args@).skip(1) =~= strs_view(args@).drop_first());
            p
        }
    }

    /// A parser for the arguments alone, without the program name (argv\[0\]).
    pub fn from_args(args: &[&str]) -> (p: Parser)
        ensures
            p@.wf(),
            p@ == initial_model(strs_view(args@), None),
    {
        let all = owned_args(args, 0);
        assert(strs_view(args@).skip(0) =~= strs_view(args@));
        Parser {
            args: all,
            state: State::Idle,
            last_option: LastOption::NoOption,
            bin_name: None,
            short_equals: true,
        }
    }

    /// The first remaining argument, consumed.
    fn pop_arg(&mut self) -> (r: Option<String>)
        ensures
            final(self)@ == (if old(self)@.args.len() == 0 {
                old(self)@
            } else {
                old(self)@.consume()
            }),
            old(self)@.args.len() == 0 <==> r is None,
            r matches Some(a) ==> a@ == old(self)@.args[0],
    {
        let ghost before = self.args@;
        let r = self.args.pop_front();
        proof {
            if before.len() > 0 {
                assert(self.args@.map_values(|s: String| s@) =~= before.map_values(
                    |s: String| s@,
                ).drop_first());
            }
        }
        r
    }

    /// Get the next option or positional argument.
    ///
    /// A return value of `Ok(None)` means the command line has been exhausted.
    ///
    /// # Errors
    ///
    /// [`Error::UnexpectedValue`] is returned if the last option had a
    /// value that hasn't been consumed (by calling [`value()`](Self::value)),
    /// as in `--option=value` or `-o=value`.
    ///
    /// It's possible to continue parsing after an error (but this is rarely useful).
    pub fn next(&mut self) -> (r: Result<Option<Arg<'_>>, Error>)
        requires
            old(self)@.wf(),
        ensures
            final(self)@.wf(),
            (final(self)@, next_result(r)) == next_step(old(self)@),
    {
        let mut state = State::Idle;
        std::mem::swap(&mut state, &mut self.state);
        match state {
            State::PendingValue(value) => {
                // Last time we got `--long=value`, and `value` hasn't been used.
                let option = match self.format_last_option() {
                    Some(o) => o,
                    None => String::new(),
                };
                return Err(Error::UnexpectedValue { option, value });
            },
            State::Shorts(arg, pos) => {
                // We're somewhere inside a `-abc` chain. Because we're in `.next()`,
                // not `.value()`, we can assume that the next character is another option.
                let n = arg.as_str().unicode_len();
                if pos < n {
                    let ch = arg.as_str().get_char(pos);
                    if ch == '=' && self.short_equals {
                        // `-o=...`: the option has a value nobody asked for.
                        let value = suffix_from(arg.as_str(), pos + 1);
                        let option = match self.format_last_option() {
                            Some(o) => o,
                            None => String::new(),
                        };
                        return Err(Error::UnexpectedValue { option, value });
                    }
                    self.state = State::Shorts(arg, pos + 1);
                    self.last_option = LastOption::Short(ch);
                    return Ok(Some(Arg::Short(ch)));
                }
            },
            State::FinishedOpts => {
                self.state = State::FinishedOpts;
                return match self.pop_arg() {
                    Some(value) => Ok(Some(Arg::Value(value))),
                    None => Ok(None),
                };
            },
            State::Idle => {},
        }
        self.next_fresh()
    }

    /// Read the next argument of the command line, between arguments.
    fn next_fresh(&mut self) -> (r: Result<Option<Arg<'_>>, Error>)
        requires
            old(self)@.state == StateModel::Idle,
        ensures
            final(self)@.wf(),
            (final(self)@, next_result(r)) == next_fresh(old(self)@),
    {
        let arg = match self.pop_arg() {
            Some(arg) => arg,
            None => return Ok(None),
        };
        if is_dashes(arg.as_str()) {
            self.state = State::FinishedOpts;
            return match self.pop_arg() {
                Some(value) => Ok(Some(Arg::Value(value))),
                None => Ok(None),
            };
        }
        let n = arg.as_str().unicode_len();
        if n >= 2 && arg.as_str().get_char(0) == '-' && arg.as_str().get_char(1) == '-' {
            // Long options have two forms: `--option` and `--option=value`.
            let option = match find_char(arg.as_str(), '=') {
                Some(i) => {
                    self.state = State::PendingValue(suffix_from(arg.as_str(), i + 1));
                    prefix_to(arg.as_str(), i)
                },
                None => arg,
            };
            self.last_option = LastOption::Long(option);
            match &self.last_option {
                LastOption::Long(option) => {
                    let len = option.as_str().unicode_len();
                    let name = option.as_str().substring_char(2, len);
                    Ok(Some(Arg::Long(name)))
                },
                // Not reachable: the long option was stored just above.
                _ => Ok(None),
            }
        } else if n > 1 && arg.as_str().get_char(0) == '-' {
            // A cluster of short options; its first character is always an option.
            let ch = arg.as_str().get_char(1);
            self.state = State::Shorts(arg, 2);
            self.last_option = LastOption::Short(ch);
            Ok(Some(Arg::Short(ch)))
        } else {
            Ok(Some(Arg::Value(arg)))
        }
    }

    /// Get a value for an option.
    ///
    /// This function should normally be called right after seeing an option
    /// that expects a value, with positional arguments being collected
    /// using [`next()`][Self::next].
    ///
    /// A value is collected even if it looks like an option
    /// (i.e., starts with `-`).
    ///
    /// # Errors
    ///
    /// An [`Error::MissingValue`] is returned if the end of the command
    /// line is reached.
    pub fn value(&mut self) -> (r: Result<String, Error>)
        requires
            old(self)@.wf(),
        ensures
            final(self)@.wf(),
            (final(self)@, value_result(r)) == value_step(old(self)@),
    {
        if let Some(value) = self.optional_value() {
            return Ok(value);
        }
        if let Some(value) = self.pop_arg() {
            return Ok(value);
        }
        Err(Error::MissingValue { option: self.format_last_option() })
    }

    /// The last emitted option as written on the command line.
    fn format_last_option(&self) -> (r: Option<String>)
        ensures
            opt_text(r) == option_text(self@.last_option),
    {
        match &self.last_option {
            LastOption::NoOption => None,
            LastOption::Short(ch) => Some(short_option_text(*ch)),
            LastOption::Long(option) => Some(option.clone()),
        }
    }

    /// The name of the command, as in the zeroth argument of the process.
    ///
    /// This is intended for use in messages.
    pub fn bin_name(&self) -> (r: Option<&str>)
        ensures
            match r {
                Some(s) => self@.bin_name == Some(s@),
                None => self@.bin_name is None,
            },
    {
        match &self.bin_name {
            Some(name) => Some(name.as_str()),
            None => None,
        }
    }

    /// Get a value only if it's concatenated to an option, as in `-ovalue` or
    /// `--option=value` or `-o=value`, but not `-o value` or `--option value`.
    pub fn optional_value(&mut self) -> (r: Option<String>)
        requires
            old(self)@.wf(),
        ensures
            final(self)@.wf(),
            (final(self)@, opt_text(r)) == optional_value_step(old(self)@),
    {
        let mut state = State::Idle;
        std::mem::swap(&mut state, &mut self.state);
        match state {
            State::PendingValue(value) => Some(value),
            State::Shorts(arg, pos) => {
                let n = arg.as_str().unicode_len();
                if pos < n {
                    if arg.as_str().get_char(pos) == '=' && self.short_equals {
                        // -o=value.
                        Some(suffix_from(arg.as_str(), pos + 1))
                    } else {
                        Some(suffix_from(arg.as_str(), pos))
                    }
                } else {
                    None
                }
            },
            State::FinishedOpts => {
                // Not really supposed to be here, but it's benign and not our fault
                self.state = State::FinishedOpts;
                None
            },
            State::Idle => None,
        }
    }

    /// Configure whether to parse an equals sign (`=`) for short options.
    ///
    /// If this is **true** (the default), `-o=foobar` will be interpreted as
    /// the option `-o` with the value `foobar`.
    ///
    /// If this is **false**, `-o=foobar` will be interpreted as
    /// the option `-o` with the value `=foobar`.
    pub fn set_short_equals(&mut self, on: bool)
        requires
            old(self)@.wf(),
        ensures
            final(self)@ == (ParserModel { short_equals: on, ..old(self)@ }),
            final(self)@.wf(),
    {
        self.short_equals = on;
    }
}

} // verus!
