//! The mathematical model of the parser: what it holds, and what each of its
//! operations does to it, stated over sequences of characters.
use vstd::prelude::*;

verus! {

/// A command line argument as the parser reports it, by its text.
pub enum ArgModel {
    /// A short option, `-q`.
    Short(char),
    /// A long option, `--verbose`, without the dashes.
    Long(Seq<char>),
    /// A positional argument.
    Value(Seq<char>),
}

/// An error of the parser, by its text.
pub enum ErrorModel {
    /// A value was expected and none was left; the last option emitted, if any.
    MissingValue(Option<Seq<char>>),
    /// An option that the caller did not expect.
    UnexpectedOption(Seq<char>),
    /// A positional argument that the caller did not expect.
    UnexpectedArgument(Seq<char>),
    /// An option (first) carried a value (second) that nobody asked for.
    UnexpectedValue(Seq<char>, Seq<char>),
}

/// Where the parser stands inside the command line.
pub enum StateModel {
    /// Between arguments.
    Idle,
    /// The value of `--option=value`, not yet taken.
    PendingValue(Seq<char>),
    /// Inside a cluster of short options such as `-abc`: the whole argument
    /// and the position of the next character to read.
    Shorts(Seq<char>, int),
    /// `--` was seen: everything that follows is a positional argument.
    FinishedOpts,
}

/// The last option the parser emitted, kept for error messages.
pub enum LastOptionModel {
    NoOption,
    Short(char),
    /// The long option as written, with its two dashes and without `=value`.
    Long(Seq<char>),
}

/// The whole state of a parser.
pub struct ParserModel {
    /// The arguments not yet read, in order.
    pub args: Seq<Seq<char>>,
    pub state: StateModel,
    pub last_option: LastOptionModel,
    /// The zeroth argument, if the parser was told to take one.
    pub bin_name: Option<Seq<char>>,
    /// Whether `-o=value` gives the value `value` (rather than `=value`).
    pub short_equals: bool,
}

/// The outcome of asking for the next argument.
pub type NextModel = Result<Option<ArgModel>, ErrorModel>;

/// The argument `--`.
pub open spec fn dashes() -> Seq<char> {
    seq!['-', '-']
}

/// The argument has the form of a long option: it starts with `--`.
pub open spec fn is_long_form(a: Seq<char>) -> bool {
    a.len() >= 2 && a[0] == '-' && a[1] == '-'
}

/// The argument is a dash followed by at least one character.
pub open spec fn is_short_form(a: Seq<char>) -> bool {
    a.len() > 1 && a[0] == '-'
}

/// `i` is the position of the first occurrence of `c` in `s`.
pub open spec fn is_first(s: Seq<char>, c: char, i: int) -> bool {
    &&& 0 <= i < s.len()
    &&& s[i] == c
    &&& forall|j: int| 0 <= j < i ==> s[j] != c
}

/// The position of the first occurrence of `c` in `s`, if `c` occurs.
pub open spec fn first_position(s: Seq<char>, c: char) -> Option<int> {
    if exists|i: int| is_first(s, c, i) {
        Some(choose|i: int| is_first(s, c, i))
    } else {
        None
    }
}

/// A position that is the first of its character is the one `first_position` names.
pub proof fn lemma_first_position_is(s: Seq<char>, c: char, i: int)
    requires
        is_first(s, c, i),
    ensures
        first_position(s, c) == Some(i),
{
    let k = choose|k: int| is_first(s, c, k);
    assert(is_first(s, c, k));
    if k < i {
        assert(s[k] != c);
    } else if k > i {
        assert(s[i] != c);
    }
}

/// A character that does not occur has no position.
pub proof fn lemma_first_position_none(s: Seq<char>, c: char)
    requires
        forall|j: int| 0 <= j < s.len() ==> s[j] != c,
    ensures
        first_position(s, c) is None,
{
    assert forall|k: int| !is_first(s, c, k) by {
        if 0 <= k < s.len() {
            assert(s[k] != c);
        }
    }
}

/// The text by which an option is named in messages: `-o` or `--option`.
pub open spec fn option_text(last: LastOptionModel) -> Option<Seq<char>> {
    match last {
        LastOptionModel::NoOption => None,
        LastOptionModel::Short(c) => Some(seq!['-', c]),
        LastOptionModel::Long(o) => Some(o),
    }
}

impl ParserModel {
    /// What every reachable parser state satisfies.
    pub open spec fn wf(self) -> bool {
        match self.state {
            StateModel::Shorts(arg, pos) => {
                &&& is_short_form(arg)
                &&& 2 <= pos <= arg.len()
                &&& self.last_option == LastOptionModel::Short(arg[pos - 1])
            },
            StateModel::PendingValue(_) => self.last_option is Long,
            _ => true,
        }
    }

    pub open spec fn with_state(self, state: StateModel) -> ParserModel {
        ParserModel { state, ..self }
    }

    /// The parser with its first remaining argument consumed.
    pub open spec fn consume(self) -> ParserModel {
        ParserModel { args: self.args.drop_first(), ..self }
    }
}

/// A parser that has just been created on `args`, with `bin_name` as its zeroth argument.
pub open spec fn initial_model(args: Seq<Seq<char>>, bin_name: Option<Seq<char>>) -> ParserModel {
    ParserModel {
        args,
        state: StateModel::Idle,
        last_option: LastOptionModel::NoOption,
        bin_name,
        short_equals: true,
    }
}

/// After `--` every remaining argument is a positional argument.
pub open spec fn next_after_options(m: ParserModel) -> (ParserModel, NextModel) {
    if m.args.len() == 0 {
        (m, Ok(None))
    } else {
        (m.consume(), Ok(Some(ArgModel::Value(m.args[0]))))
    }
}

/// Reading a fresh argument from the command line, between arguments.
///
/// `--` ends the options; `--name` and `--name=value` are long options;
/// `-abc` starts a cluster of short options whose first character is always
/// an option (so `-=` is the option `=`); anything else, `-` included, is a
/// positional argument.
pub open spec fn next_fresh(m: ParserModel) -> (ParserModel, NextModel) {
    if m.args.len() == 0 {
        (m, Ok(None))
    } else {
        let a = m.args[0];
        let rest = m.consume();
        if a == dashes() {
            next_after_options(rest.with_state(StateModel::FinishedOpts))
        } else if is_long_form(a) {
            match first_position(a, '=') {
                Some(i) => (
                    ParserModel {
                        state: StateModel::PendingValue(a.skip(i + 1)),
                        last_option: LastOptionModel::Long(a.take(i)),
                        ..rest
                    },
                    Ok(Some(ArgModel::Long(a.take(i).skip(2)))),
                ),
                None => (
                    ParserModel { last_option: LastOptionModel::Long(a), ..rest },
                    Ok(Some(ArgModel::Long(a.skip(2)))),
                ),
            }
        } else if is_short_form(a) {
            (
                ParserModel {
                    state: StateModel::Shorts(a, 2),
                    last_option: LastOptionModel::Short(a[1]),
                    ..rest
                },
                Ok(Some(ArgModel::Short(a[1]))),
            )
        } else {
            (rest, Ok(Some(ArgModel::Value(a))))
        }
    }
}

/// The text of the last option, or nothing.
pub open spec fn option_text_or_empty(last: LastOptionModel) -> Seq<char> {
    match option_text(last) {
        Some(o) => o,
        None => Seq::empty(),
    }
}

/// What `Parser::next` does.
pub open spec fn next_step(m: ParserModel) -> (ParserModel, NextModel) {
    match m.state {
        StateModel::PendingValue(v) => (
            m.with_state(StateModel::Idle),
            Err(ErrorModel::UnexpectedValue(option_text_or_empty(m.last_option), v)),
        ),
        StateModel::Shorts(arg, pos) => {
            if pos < arg.len() {
                let ch = arg[pos];
                if ch == '=' && m.short_equals {
                    (
                        m.with_state(StateModel::Idle),
                        Err(
                            ErrorModel::UnexpectedValue(
                                option_text_or_empty(m.last_option),
                                arg.skip(pos + 1),
                            ),
                        ),
                    )
                } else {
                    (
                        ParserModel {
                            state: StateModel::Shorts(arg, pos + 1),
                            last_option: LastOptionModel::Short(ch),
                            ..m
                        },
                        Ok(Some(ArgModel::Short(ch))),
                    )
                }
            } else {
                next_fresh(m.with_state(StateModel::Idle))
            }
        },
        StateModel::FinishedOpts => next_after_options(m),
        StateModel::Idle => next_fresh(m),
    }
}

/// What `Parser::optional_value` does: a value glued to the option just
/// emitted, as in `--option=value`, `-ovalue` or `-o=value`.
pub open spec fn optional_value_step(m: ParserModel) -> (ParserModel, Option<Seq<char>>) {
    match m.state {
        StateModel::PendingValue(v) => (m.with_state(StateModel::Idle), Some(v)),
        StateModel::Shorts(arg, pos) => {
            if pos < arg.len() {
                if arg[pos] == '=' && m.short_equals {
                    (m.with_state(StateModel::Idle), Some(arg.skip(pos + 1)))
                } else {
                    (m.with_state(StateModel::Idle), Some(arg.skip(pos)))
                }
            } else {
                (m.with_state(StateModel::Idle), None)
            }
        },
        _ => (m, None),
    }
}

/// What `Parser::value` does: the glued value if there is one, else the next
/// argument whatever it looks like, else an error naming the last option.
pub open spec fn value_step(m: ParserModel) -> (ParserModel, Result<Seq<char>, ErrorModel>) {
    let (m1, glued) = optional_value_step(m);
    match glued {
        Some(v) => (m1, Ok(v)),
        None => if m1.args.len() > 0 {
            (m1.consume(), Ok(m1.args[0]))
        } else {
            (m1, Err(ErrorModel::MissingValue(option_text(m1.last_option))))
        },
    }
}

/// The error that `Arg::unexpected` makes of an argument.
pub open spec fn unexpected_error(a: ArgModel) -> ErrorModel {
    match a {
        ArgModel::Short(c) => ErrorModel::UnexpectedOption(seq!['-', c]),
        ArgModel::Long(l) => ErrorModel::UnexpectedOption(dashes() + l),
        ArgModel::Value(v) => ErrorModel::UnexpectedArgument(v),
    }
}

} // verus!
