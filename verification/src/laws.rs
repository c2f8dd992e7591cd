//! What holds of the parser across calls: the command line conventions it
//! implements, proved over the model that its operations' contracts speak of.
use vstd::prelude::*;

use crate::model::{
    ArgModel, ErrorModel, LastOptionModel, NextModel, ParserModel, StateModel, dashes,
    first_position, initial_model, is_first, is_long_form, lemma_first_position_is,
    lemma_first_position_none, next_fresh, next_step, option_text, option_text_or_empty,
    optional_value_step,
    unexpected_error, value_step,
};
use crate::error::error_message;
use crate::text::debug_text;

verus! {

/// The parser after `k` calls of `next`.
pub open spec fn run_next(m: ParserModel, k: nat) -> ParserModel
    decreases k,
{
    if k == 0 {
        m
    } else {
        next_step(run_next(m, (k - 1) as nat)).0
    }
}

/// The outcome of the call of `next` that follows `k` earlier calls.
pub open spec fn nth_next(m: ParserModel, k: nat) -> NextModel {
    next_step(run_next(m, k)).1
}

/// Once the command line is exhausted, `next` keeps returning `Ok(None)` and
/// changes nothing.
pub proof fn law_exhausted_stays_exhausted(m: ParserModel)
    requires
        m.wf(),
        next_step(m).1 == Ok::<Option<ArgModel>, ErrorModel>(None),
    ensures
        next_step(next_step(m).0) == (next_step(m).0, Ok::<Option<ArgModel>, ErrorModel>(None)),
{
}

/// `next` fails exactly when the option it handed out last has a value that
/// nobody took: a long option written `--name=value`, or a short option
/// followed by `=` in its cluster while `-o=value` syntax is on. The error
/// names that option and carries that value (for a short option, what follows
/// the `=`).
pub proof fn law_next_errs_exactly_when(m: ParserModel)
    requires
        m.wf(),
    ensures
        next_step(m).1 is Err <==> (m.state is PendingValue || (m.state matches StateModel::Shorts(
            arg,
            pos,
        ) && pos < arg.len() && arg[pos] == '=' && m.short_equals)),
        m.state matches StateModel::PendingValue(v) ==> next_step(m).1 == Err::<
            Option<ArgModel>,
            ErrorModel,
        >(ErrorModel::UnexpectedValue(option_text_or_empty(m.last_option), v)),
        m.state matches StateModel::PendingValue(_) ==> m.last_option is Long,
        (m.state matches StateModel::Shorts(arg, pos) && pos < arg.len() && arg[pos] == '='
            && m.short_equals) ==> next_step(m).1 == Err::<Option<ArgModel>, ErrorModel>(
            ErrorModel::UnexpectedValue(
                seq!['-', m.state->Shorts_0[m.state->Shorts_1 - 1]],
                m.state->Shorts_0.skip(m.state->Shorts_1 + 1),
            ),
        ),
{
}

/// After an error from `next`, parsing can go on: the parser stands between
/// arguments, no argument was consumed, and options have not ended.
pub proof fn law_continue_after_error(m: ParserModel)
    requires
        m.wf(),
        next_step(m).1 is Err,
    ensures
        next_step(m).0.state == StateModel::Idle,
        next_step(m).0.args == m.args,
        next_step(m).0.wf(),
{
}

/// Every operation reads arguments from the front, in order, each at most once:
/// what remains afterwards is a suffix of what remained before, and `next`
/// consumes at most two (`--` and the value after it), `value` at most one and
/// `optional_value` none.
pub proof fn law_arguments_read_in_order(m: ParserModel)
    requires
        m.wf(),
    ensures
        exists|j: int|
            0 <= j <= 2 && j <= m.args.len() && #[trigger] next_step(m).0.args == m.args.skip(j),
        value_step(m).0.args == m.args || (m.args.len() > 0 && value_step(m).0.args
            == m.args.drop_first()),
        optional_value_step(m).0.args == m.args,
{
    assert(m.args.skip(0) =~= m.args);
    if m.args.len() > 0 {
        assert(m.args.skip(1) =~= m.args.drop_first());
    }
    if m.args.len() > 1 {
        assert(m.args.skip(2) =~= m.args.drop_first().drop_first());
    }
}

/// The parser after `k` calls of `next` past the end of options: the first `k`
/// arguments have been handed out and nothing else changed.
proof fn lemma_run_after_options(f: ParserModel, k: nat)
    requires
        f.state == StateModel::FinishedOpts,
        k <= f.args.len(),
    ensures
        run_next(f, k) == (ParserModel { args: f.args.skip(k as int), ..f }),
    decreases k,
{
    if k == 0 {
        assert(f.args.skip(0) =~= f.args);
    } else {
        lemma_run_after_options(f, (k - 1) as nat);
        assert(f.args.skip(k - 1).drop_first() =~= f.args.skip(k as int));
    }
}

/// `--` ends the options: reading `--` is the same as being past the options
/// with the arguments that follow it; past the options, every remaining
/// argument comes back, unchanged and in order, as a positional argument
/// (even one that looks like an option), and then the end of the command line.
pub proof fn law_end_of_options(m: ParserModel)
    requires
        m.wf(),
        m.state == StateModel::Idle,
        m.args.len() > 0,
        m.args[0] == dashes(),
    ensures
        ({
            let f = m.consume().with_state(StateModel::FinishedOpts);
            &&& next_step(m) == next_step(f)
            &&& forall|k: nat|
                k < f.args.len() ==> #[trigger] nth_next(f, k) == Ok::<
                    Option<ArgModel>,
                    ErrorModel,
                >(Some(ArgModel::Value(f.args[k as int])))
            &&& nth_next(f, f.args.len()) == Ok::<Option<ArgModel>, ErrorModel>(None)
        }),
{
    let f = m.consume().with_state(StateModel::FinishedOpts);
    assert forall|k: nat| k < f.args.len() implies #[trigger] nth_next(f, k) == Ok::<
        Option<ArgModel>,
        ErrorModel,
    >(Some(ArgModel::Value(f.args[k as int]))) by {
        lemma_run_after_options(f, k);
    }
    lemma_run_after_options(f, f.args.len());
}

/// `--name=value`: the option `name`, whose value is `value`; `value` asked for
/// next gives it, and `next` asked for instead reports it as unexpected,
/// naming the option. Only the first `=` separates: the value may hold more.
pub proof fn law_long_option_with_value(m: ParserModel, name: Seq<char>, v: Seq<char>)
    requires
        m.wf(),
        m.state == StateModel::Idle,
        m.args.len() > 0,
        m.args[0] == dashes() + name + seq!['='] + v,
        forall|j: int| 0 <= j < name.len() ==> name[j] != '=',
    ensures
        nth_next(m, 0) == Ok::<Option<ArgModel>, ErrorModel>(Some(ArgModel::Long(name))),
        value_step(run_next(m, 1)) == (
            ParserModel {
                args: m.args.drop_first(),
                state: StateModel::Idle,
                last_option: LastOptionModel::Long(dashes() + name),
                ..m
            },
            Ok::<Seq<char>, ErrorModel>(v),
        ),
        next_step(run_next(m, 1)).1 == Err::<Option<ArgModel>, ErrorModel>(
            ErrorModel::UnexpectedValue(dashes() + name, v),
        ),
{
    let a = m.args[0];
    let i: int = name.len() as int + 2;
    assert(a[i] == '=');
    assert forall|j: int| 0 <= j < i implies a[j] != '=' by {
        if j >= 2 {
            assert(a[j] == name[j - 2]);
        }
    }
    lemma_first_position_is(a, '=', i);
    assert(a.take(i) =~= dashes() + name);
    assert(a.take(i).skip(2) =~= name);
    assert(a.skip(i + 1) =~= v);
    assert(a != dashes());
}

/// `--name` (without `=`) and then `value`: the value is the next argument,
/// whatever it looks like; at the end of the command line the error names
/// `--name`.
pub proof fn law_long_option_separate_value(m: ParserModel, name: Seq<char>)
    requires
        m.wf(),
        m.state == StateModel::Idle,
        m.args.len() > 0,
        m.args[0] == dashes() + name,
        forall|j: int| 0 <= j < name.len() ==> name[j] != '=',
    ensures
        m.args[0] != dashes() ==> nth_next(m, 0) == Ok::<Option<ArgModel>, ErrorModel>(
            Some(ArgModel::Long(name)),
        ),
        m.args[0] != dashes() ==> value_step(run_next(m, 1)).1 == (if m.args.len() > 1 {
            Ok::<Seq<char>, ErrorModel>(m.args[1])
        } else {
            Err::<Seq<char>, ErrorModel>(ErrorModel::MissingValue(Some(dashes() + name)))
        }),
{
    let a = m.args[0];
    if a != dashes() {
        assert forall|j: int| 0 <= j < a.len() implies a[j] != '=' by {
            if j >= 2 {
                assert(a[j] == name[j - 2]);
            }
        }
        lemma_first_position_none(a, '=');
        assert(a.skip(2) =~= name);
    }
}

/// The parser inside a cluster `-s`, after `k` calls of `next`.
proof fn lemma_run_shorts(m: ParserModel, s: Seq<char>, k: nat)
    requires
        m.wf(),
        m.state == StateModel::Idle,
        m.args.len() > 0,
        m.args[0] == seq!['-'] + s,
        s.len() > 0,
        s[0] != '-',
        1 <= k <= s.len(),
        forall|i: int| 1 <= i < k ==> s[i] != '=' || !m.short_equals,
    ensures
        run_next(m, k) == (ParserModel {
            args: m.args.drop_first(),
            state: StateModel::Shorts(m.args[0], k as int + 1),
            last_option: LastOptionModel::Short(s[k - 1]),
            ..m
        }),
    decreases k,
{
    let a = m.args[0];
    assert(a[1] == s[0]);
    assert(a != dashes());
    if k > 1 {
        lemma_run_shorts(m, s, (k - 1) as nat);
        assert(a[k as int] == s[k - 1]);
    }
}

/// `-abc` means `-a -b -c`: after a dash, each character is a short option
/// of its own (the first one even if it is `=`), in order; after the last one
/// the parser goes on with the next argument. Where `-o=value` syntax is on,
/// an `=` after the first character would instead start a value, so it is
/// left out here.
pub proof fn law_combined_short_options(m: ParserModel, s: Seq<char>)
    requires
        m.wf(),
        m.state == StateModel::Idle,
        m.args.len() > 0,
        m.args[0] == seq!['-'] + s,
        s.len() > 0,
        s[0] != '-',
        forall|i: int| 1 <= i < s.len() ==> s[i] != '=' || !m.short_equals,
    ensures
        forall|k: nat|
            k < s.len() ==> #[trigger] nth_next(m, k) == Ok::<Option<ArgModel>, ErrorModel>(
                Some(ArgModel::Short(s[k as int])),
            ),
        next_step(run_next(m, s.len())) == next_fresh(
            ParserModel {
                args: m.args.drop_first(),
                state: StateModel::Idle,
                last_option: LastOptionModel::Short(s[s.len() - 1]),
                ..m
            },
        ),
{
    let a = m.args[0];
    assert(a[1] == s[0]);
    assert(a != dashes());
    assert forall|k: nat| k < s.len() implies #[trigger] nth_next(m, k) == Ok::<
        Option<ArgModel>,
        ErrorModel,
    >(Some(ArgModel::Short(s[k as int]))) by {
        if k > 0 {
            lemma_run_shorts(m, s, k);
            assert(a[k as int + 1] == s[k as int]);
        }
    }
    lemma_run_shorts(m, s, s.len());
}

/// A value glued to a short option, `-ovalue`: the option `o`, then `value`
/// gives `value`. With `-o=value` syntax on, a leading `=` is dropped
/// (`-o=value` gives `value`); with it off, it is kept (`=value`). With it on,
/// `next` asked for instead of the value reports `-o=value` as a value that
/// nobody asked for, naming `-o`.
pub proof fn law_short_option_glued_value(m: ParserModel, o: char, v: Seq<char>)
    requires
        m.wf(),
        m.state == StateModel::Idle,
        m.args.len() > 0,
        m.args[0] == seq!['-', o] + v,
        o != '-',
        v.len() > 0,
    ensures
        nth_next(m, 0) == Ok::<Option<ArgModel>, ErrorModel>(Some(ArgModel::Short(o))),
        value_step(run_next(m, 1)) == (
            ParserModel {
                args: m.args.drop_first(),
                state: StateModel::Idle,
                last_option: LastOptionModel::Short(o),
                ..m
            },
            Ok::<Seq<char>, ErrorModel>(
                if m.short_equals && v[0] == '=' {
                    v.skip(1)
                } else {
                    v
                },
            ),
        ),
        m.short_equals && v[0] == '=' ==> next_step(run_next(m, 1)) == (
            ParserModel {
                args: m.args.drop_first(),
                state: StateModel::Idle,
                last_option: LastOptionModel::Short(o),
                ..m
            },
            Err::<Option<ArgModel>, ErrorModel>(
                ErrorModel::UnexpectedValue(seq!['-', o], v.skip(1)),
            ),
        ),
{
    let a = m.args[0];
    assert(a[2] == v[0]);
    assert(a.len() != 2);
    assert(a.skip(2) =~= v);
    assert(a.skip(3) =~= v.skip(1));
}

/// A short option standing alone, `-o`, and then `value`: the value is the
/// next argument, whatever it looks like; at the end of the command line the
/// error names `-o`.
pub proof fn law_short_option_separate_value(m: ParserModel, o: char)
    requires
        m.wf(),
        m.state == StateModel::Idle,
        m.args.len() > 0,
        m.args[0] == seq!['-', o],
        o != '-',
    ensures
        nth_next(m, 0) == Ok::<Option<ArgModel>, ErrorModel>(Some(ArgModel::Short(o))),
        value_step(run_next(m, 1)).1 == (if m.args.len() > 1 {
            Ok::<Seq<char>, ErrorModel>(m.args[1])
        } else {
            Err::<Seq<char>, ErrorModel>(ErrorModel::MissingValue(Some(seq!['-', o])))
        }),
{
    let a = m.args[0];
    assert(a != dashes());
}

/// Positional arguments: an argument that does not start with a dash, the
/// empty argument and a lone `-` all come back as they are.
pub proof fn law_positional_argument(m: ParserModel)
    requires
        m.wf(),
        m.state == StateModel::Idle,
        m.args.len() > 0,
        m.args[0].len() == 0 || m.args[0][0] != '-' || m.args[0] == seq!['-'],
    ensures
        next_step(m) == (m.consume(), Ok::<Option<ArgModel>, ErrorModel>(
            Some(ArgModel::Value(m.args[0])),
        )),
{
}

/// The setting for `-o=value` only matters where an `=` follows a short
/// option: everywhere else `next`, `value` and `optional_value` do the same
/// whichever it is.
pub proof fn law_short_equals_only_affects_equals(m: ParserModel)
    requires
        m.wf(),
        !(m.state matches StateModel::Shorts(arg, pos) && pos < arg.len() && arg[pos] == '='),
    ensures
        ({
            let other = ParserModel { short_equals: !m.short_equals, ..m };
            &&& next_step(m).1 == next_step(other).1
            &&& value_step(m).1 == value_step(other).1
            &&& optional_value_step(m).1 == optional_value_step(other).1
        }),
{
}

/// A missing value names the option that asked for it.
pub proof fn law_missing_value_names_option(m: ParserModel)
    requires
        m.wf(),
        m.state == StateModel::Idle || m.state == StateModel::FinishedOpts,
        m.args.len() == 0,
    ensures
        value_step(m) == (m, Err::<Seq<char>, ErrorModel>(
            ErrorModel::MissingValue(option_text(m.last_option)),
        )),
{
}

/// A call a user can make on a parser.
pub enum Call {
    Next,
    Value,
    OptionalValue,
    SetShortEquals(bool),
}

/// What a call gave back.
pub enum Outcome {
    Next(NextModel),
    Value(Result<Seq<char>, ErrorModel>),
    OptionalValue(Option<Seq<char>>),
    SetShortEquals,
}

/// One call, by the contracts of `Parser`'s methods.
pub open spec fn apply_call(m: ParserModel, c: Call) -> (ParserModel, Outcome) {
    match c {
        Call::Next => (next_step(m).0, Outcome::Next(next_step(m).1)),
        Call::Value => (value_step(m).0, Outcome::Value(value_step(m).1)),
        Call::OptionalValue => (
            optional_value_step(m).0,
            Outcome::OptionalValue(optional_value_step(m).1),
        ),
        Call::SetShortEquals(on) => (
            ParserModel { short_equals: on, ..m },
            Outcome::SetShortEquals,
        ),
    }
}

/// A sequence of calls, in order: the parser afterwards and what each call gave back.
pub open spec fn run_calls(m: ParserModel, cs: Seq<Call>) -> (ParserModel, Seq<Outcome>)
    decreases cs.len(),
{
    if cs.len() == 0 {
        (m, Seq::empty())
    } else {
        let (m1, o) = apply_call(m, cs[0]);
        let (m2, os) = run_calls(m1, cs.drop_first());
        (m2, seq![o] + os)
    }
}

/// The text of the option a call handed out, if it handed one out.
pub open spec fn option_handed_out(o: Outcome) -> Option<Seq<char>> {
    match o {
        Outcome::Next(Ok(Some(ArgModel::Short(c)))) => Some(seq!['-', c]),
        Outcome::Next(Ok(Some(ArgModel::Long(l)))) => Some(dashes() + l),
        _ => None,
    }
}

/// The option named last, starting from `init`, after the outcomes `os`.
pub open spec fn last_handed_out(init: Option<Seq<char>>, os: Seq<Outcome>) -> Option<Seq<char>>
    decreases os.len(),
{
    if os.len() == 0 {
        init
    } else {
        let next_init = match option_handed_out(os[0]) {
            Some(t) => Some(t),
            None => init,
        };
        last_handed_out(next_init, os.drop_first())
    }
}

/// The option that errors name is the last option `next` handed out, as
/// written (`-c` or `--name`): a call that hands out an option makes it the
/// one named; every other call, an error or a positional argument included,
/// leaves it as it was.
pub proof fn law_last_option_is_last_handed_out(m: ParserModel, c: Call)
    requires
        m.wf(),
    ensures
        option_text(apply_call(m, c).0.last_option) == (match option_handed_out(
            apply_call(m, c).1,
        ) {
            Some(t) => Some(t),
            None => option_text(m.last_option),
        }),
{
    if c == Call::Next && m.args.len() > 0 && is_long_form(m.args[0]) {
        let a = m.args[0];
        assert(a =~= dashes() + a.skip(2));
        if let Some(i) = first_position(a, '=') {
            assert(is_first(a, '=', i));
            assert(a.take(i) =~= dashes() + a.take(i).skip(2));
        }
    }
}

/// The same, over any sequence of calls: afterwards errors name the last
/// option handed out, or the one named before the calls if none was.
pub proof fn law_last_option_over_calls(m: ParserModel, cs: Seq<Call>)
    requires
        m.wf(),
    ensures
        option_text(run_calls(m, cs).0.last_option) == last_handed_out(
            option_text(m.last_option),
            run_calls(m, cs).1,
        ),
    decreases cs.len(),
{
    if cs.len() > 0 {
        let (m1, o) = apply_call(m, cs[0]);
        law_last_option_is_last_handed_out(m, cs[0]);
        lemma_call_keeps_wf(m, cs[0]);
        law_last_option_over_calls(m1, cs.drop_first());
        assert((seq![o] + run_calls(m1, cs.drop_first()).1).drop_first() =~= run_calls(
            m1,
            cs.drop_first(),
        ).1);
    }
}

/// Every call keeps the parser well formed.
pub proof fn lemma_call_keeps_wf(m: ParserModel, c: Call)
    requires
        m.wf(),
    ensures
        apply_call(m, c).0.wf(),
{
}

/// Two parsers that differ at most in the command's name and in the option
/// they would name in a message, where that option is not tied to the state.
pub open spec fn same_but_naming(m: ParserModel, f: ParserModel) -> bool {
    &&& m.args == f.args
    &&& m.state == f.state
    &&& m.short_equals == f.short_equals
    &&& (m.last_option == f.last_option || m.state == StateModel::Idle || m.state
        == StateModel::FinishedOpts)
}

/// One call on two such parsers: the same outcome, except that a missing
/// value may name different options while they name different ones; once
/// an option is handed out they name the same.
proof fn lemma_call_same_but_naming(m: ParserModel, f: ParserModel, c: Call)
    requires
        same_but_naming(m, f),
    ensures
        same_but_naming(apply_call(m, c).0, apply_call(f, c).0),
        m.last_option == f.last_option ==> apply_call(m, c).1 == apply_call(f, c).1
            && apply_call(m, c).0.last_option == apply_call(f, c).0.last_option,
        apply_call(m, c).1 == apply_call(f, c).1 || (apply_call(m, c).1 matches Outcome::Value(
            Err(ErrorModel::MissingValue(_)),
        ) && apply_call(f, c).1 matches Outcome::Value(Err(ErrorModel::MissingValue(_)))),
        option_handed_out(apply_call(m, c).1) is Some ==> apply_call(m, c).0.last_option
            == apply_call(f, c).0.last_option,
{
}

/// Over any sequence of calls, two such parsers give the same outcomes, except
/// that a missing value may name a different option as long as no option has
/// been handed out yet; where they name the same option, all outcomes are equal.
pub proof fn law_same_but_naming_over_calls(m: ParserModel, f: ParserModel, cs: Seq<Call>)
    requires
        same_but_naming(m, f),
    ensures
        run_calls(m, cs).1.len() == cs.len(),
        run_calls(f, cs).1.len() == cs.len(),
        forall|i: int|
            0 <= i < cs.len() ==> #[trigger] run_calls(m, cs).1[i] == run_calls(f, cs).1[i] || (
            run_calls(m, cs).1[i] matches Outcome::Value(Err(ErrorModel::MissingValue(_)))
                && run_calls(f, cs).1[i] matches Outcome::Value(Err(ErrorModel::MissingValue(_)))
                && forall|j: int| 0 <= j < i ==> option_handed_out(run_calls(m, cs).1[j]) is None),
        m.last_option == f.last_option ==> run_calls(m, cs).1 == run_calls(f, cs).1,
        same_but_naming(run_calls(m, cs).0, run_calls(f, cs).0),
    decreases cs.len(),
{
    if cs.len() > 0 {
        let (m1, o) = apply_call(m, cs[0]);
        let (f1, p) = apply_call(f, cs[0]);
        lemma_call_same_but_naming(m, f, cs[0]);
        let rest = cs.drop_first();
        law_same_but_naming_over_calls(m1, f1, rest);
        let om = run_calls(m, cs).1;
        let of = run_calls(f, cs).1;
        assert(om =~= seq![o] + run_calls(m1, rest).1);
        assert(of =~= seq![p] + run_calls(f1, rest).1);
        assert forall|i: int|
            0 <= i < cs.len() implies #[trigger] om[i] == of[i] || (om[i] matches Outcome::Value(
            Err(ErrorModel::MissingValue(_)),
        ) && of[i] matches Outcome::Value(Err(ErrorModel::MissingValue(_))) && forall|j: int|
            0 <= j < i ==> option_handed_out(om[j]) is None) by {
            if i > 0 {
                assert(om[i] == run_calls(m1, rest).1[i - 1]);
                assert(of[i] == run_calls(f1, rest).1[i - 1]);
                if om[i] != of[i] {
                    assert forall|j: int| 0 <= j < i implies option_handed_out(om[j]) is None by {
                        if j > 0 {
                            assert(om[j] == run_calls(m1, rest).1[j - 1]);
                        }
                    }
                }
            }
        }
        if m.last_option == f.last_option {
            assert(om =~= of);
        }
    }
}

/// A parser made with `new` and one made with `from_args` on the same
/// arguments less the zeroth give the same outcomes for every sequence of
/// calls: the command's name is never read, and never handed out.
pub proof fn law_new_agrees_with_from_args(args: Seq<Seq<char>>, cs: Seq<Call>)
    requires
        args.len() > 0,
    ensures
        run_calls(initial_model(args.drop_first(), Some(args[0])), cs).1 == run_calls(
            initial_model(args.drop_first(), None),
            cs,
        ).1,
{
    law_same_but_naming_over_calls(
        initial_model(args.drop_first(), Some(args[0])),
        initial_model(args.drop_first(), None),
        cs,
    );
}

/// After `next` reports a value that nobody asked for, that value is dropped
/// for good: later calls give what a fresh parser (made with `from_args`) on
/// the arguments that remain, with the same `-o=value` setting, gives, except
/// that a missing value names the parser's last option until another option
/// is handed out.
pub proof fn law_continue_after_unexpected_value(m: ParserModel, cs: Seq<Call>)
    requires
        m.wf(),
        next_step(m).1 matches Err(ErrorModel::UnexpectedValue(_, _)),
    ensures
        ({
            let p = next_step(m).0;
            let fresh = ParserModel {
                short_equals: m.short_equals,
                ..initial_model(p.args, None)
            };
            forall|i: int|
                0 <= i < cs.len() ==> #[trigger] run_calls(p, cs).1[i] == run_calls(fresh, cs).1[i]
                    || (run_calls(p, cs).1[i] matches Outcome::Value(
                    Err(ErrorModel::MissingValue(_)),
                ) && run_calls(fresh, cs).1[i] matches Outcome::Value(
                    Err(ErrorModel::MissingValue(_)),
                ) && forall|j: int|
                    0 <= j < i ==> option_handed_out(run_calls(p, cs).1[j]) is None)
        }),
{
    let p = next_step(m).0;
    let fresh = ParserModel { short_equals: m.short_equals, ..initial_model(p.args, None) };
    law_same_but_naming_over_calls(p, fresh, cs);
}

/// A value glued to a short option anywhere in a cluster: in `-` + `p` + `o`
/// + `=` + `v`, read up to the option `o` (each character of `p` an option of
/// its own), `value` and `optional_value` both give `v` while `-o=value`
/// syntax is on, and `=` + `v` while it is off; either way the parser then
/// goes on with the next argument, and errors name `-o`. (An `=` inside `p`,
/// or as `o` after the first place, would itself start a value.)
pub proof fn law_glued_value_anywhere_in_cluster(
    m: ParserModel,
    p: Seq<char>,
    o: char,
    v: Seq<char>,
)
    requires
        m.wf(),
        m.state == StateModel::Idle,
        m.args.len() > 0,
        m.args[0] == seq!['-'] + p + seq![o, '='] + v,
        (if p.len() > 0 { p[0] } else { o }) != '-',
        forall|i: int| 0 <= i < p.len() ==> p[i] != '=',
        p.len() == 0 || o != '=',
    ensures
        forall|k: nat|
            k < p.len() ==> #[trigger] nth_next(m, k) == Ok::<Option<ArgModel>, ErrorModel>(
                Some(ArgModel::Short(p[k as int])),
            ),
        nth_next(m, p.len()) == Ok::<Option<ArgModel>, ErrorModel>(Some(ArgModel::Short(o))),
        ({
            let expected = if m.short_equals { v } else { seq!['='] + v };
            let after = ParserModel {
                args: m.args.drop_first(),
                state: StateModel::Idle,
                last_option: LastOptionModel::Short(o),
                ..m
            };
            &&& value_step(run_next(m, p.len() + 1)) == (after, Ok::<Seq<char>, ErrorModel>(
                expected,
            ))
            &&& optional_value_step(run_next(m, p.len() + 1)) == (after, Some(expected))
        }),
{
    let s = p + seq![o, '='] + v;
    let a = m.args[0];
    assert(a =~= seq!['-'] + s);
    assert(s[0] != '-');
    assert forall|i: int| 1 <= i < p.len() + 1 implies s[i] != '=' || !m.short_equals by {
        if i < p.len() {
            assert(s[i] == p[i]);
        } else {
            assert(s[i] == o);
        }
    }
    assert forall|k: nat| k < p.len() implies #[trigger] nth_next(m, k) == Ok::<
        Option<ArgModel>,
        ErrorModel,
    >(Some(ArgModel::Short(p[k as int]))) by {
        if k > 0 {
            lemma_run_shorts(m, s, k);
            assert(a[k as int + 1] == s[k as int]);
        } else {
            assert(a[1] == s[0]);
        }
        assert(s[k as int] == p[k as int]);
    }
    if p.len() > 0 {
        lemma_run_shorts(m, s, p.len());
        assert(a[p.len() as int + 1] == o);
    } else {
        assert(a[1] == o);
    }
    lemma_run_shorts(m, s, p.len() + 1);
    assert(s[p.len() as int] == o);
    assert(a[p.len() as int + 2] == '=');
    assert(a.skip(p.len() as int + 3) =~= v);
    assert(a.skip(p.len() as int + 2) =~= seq!['='] + v);
}

/// The end of a cluster: once the option handed out is the last character of
/// its cluster (at any position), nothing is glued to it: `optional_value`
/// gives nothing and consumes nothing, and `value` gives the next argument
/// whatever it looks like, or, at the end of the command line, an error naming
/// that option.
pub proof fn law_nothing_glued_at_end_of_cluster(m: ParserModel, s: Seq<char>)
    requires
        m.wf(),
        m.state == StateModel::Idle,
        m.args.len() > 0,
        m.args[0] == seq!['-'] + s,
        s.len() > 0,
        s[0] != '-',
        forall|i: int| 1 <= i < s.len() ==> s[i] != '=' || !m.short_equals,
    ensures
        nth_next(m, (s.len() - 1) as nat) == Ok::<Option<ArgModel>, ErrorModel>(
            Some(ArgModel::Short(s[s.len() - 1])),
        ),
        ({
            let at_end = run_next(m, s.len());
            let after = ParserModel {
                args: m.args.drop_first(),
                state: StateModel::Idle,
                last_option: LastOptionModel::Short(s[s.len() - 1]),
                ..m
            };
            &&& optional_value_step(at_end) == (after, None::<Seq<char>>)
            &&& value_step(at_end).1 == (if m.args.len() > 1 {
                Ok::<Seq<char>, ErrorModel>(m.args[1])
            } else {
                Err::<Seq<char>, ErrorModel>(
                    ErrorModel::MissingValue(Some(seq!['-', s[s.len() - 1]])),
                )
            })
            &&& m.args.len() > 1 ==> value_step(at_end).0 == (ParserModel {
                args: m.args.drop_first().drop_first(),
                ..after
            })
        }),
{
    law_combined_short_options(m, s);
    lemma_run_shorts(m, s, s.len());
}

/// An argument nobody expected becomes the matching error: a positional
/// argument, whatever it looks like, an unexpected argument with its text; a
/// short option `c` the unexpected option `-c`; a long option `name` the
/// unexpected option `--name`. The messages say so.
pub proof fn law_unexpected_keeps_kind_and_text(a: ArgModel)
    ensures
        match a {
            ArgModel::Value(v) => unexpected_error(a) == ErrorModel::UnexpectedArgument(v)
                && error_message(unexpected_error(a)) == "unexpected argument "@ + debug_text(v),
            ArgModel::Short(c) => unexpected_error(a) == ErrorModel::UnexpectedOption(
                seq!['-', c],
            ) && error_message(unexpected_error(a)) == "invalid option '"@ + seq!['-', c]
                + "'"@,
            ArgModel::Long(l) => unexpected_error(a) == ErrorModel::UnexpectedOption(
                seq!['-', '-'] + l,
            ) && error_message(unexpected_error(a)) == "invalid option '"@ + (seq!['-', '-'] + l)
                + "'"@,
        },
{
}

/// Past `--` the parser stays past `--`, whatever is called: `next` hands out
/// the remaining arguments as positional arguments, `value` takes them too,
/// `optional_value` gives nothing, and no call ever hands out an option.
pub proof fn law_options_stay_ended(m: ParserModel, cs: Seq<Call>)
    requires
        m.wf(),
        m.state == StateModel::FinishedOpts,
    ensures
        run_calls(m, cs).0.state == StateModel::FinishedOpts,
        run_calls(m, cs).0.last_option == m.last_option,
        run_calls(m, cs).1.len() == cs.len(),
        forall|i: int|
            0 <= i < cs.len() ==> option_handed_out(#[trigger] run_calls(m, cs).1[i]) is None
                && !(run_calls(m, cs).1[i] matches Outcome::Next(Err(_)))
                && !(run_calls(m, cs).1[i] matches Outcome::OptionalValue(Some(_))),
    decreases cs.len(),
{
    if cs.len() > 0 {
        let (m1, o) = apply_call(m, cs[0]);
        let rest = cs.drop_first();
        law_options_stay_ended(m1, rest);
        let os = run_calls(m, cs).1;
        assert(os =~= seq![o] + run_calls(m1, rest).1);
        assert forall|i: int| 0 <= i < cs.len() implies option_handed_out(#[trigger] os[i]) is None
            && !(os[i] matches Outcome::Next(Err(_)))
            && !(os[i] matches Outcome::OptionalValue(Some(_))) by {
            if i > 0 {
                assert(os[i] == run_calls(m1, rest).1[i - 1]);
            }
        }
    }
}

/// `value` taking the next argument as a separate value changes nothing else:
/// between arguments it stays between arguments, past `--` it stays past
/// `--`, and the option that errors name is kept.
pub proof fn law_separate_value_changes_only_arguments(m: ParserModel)
    requires
        m.wf(),
        m.state == StateModel::Idle || m.state == StateModel::FinishedOpts,
        m.args.len() > 0,
    ensures
        value_step(m) == (m.consume(), Ok::<Seq<char>, ErrorModel>(m.args[0])),
        value_step(m).0.state == m.state,
{
}

/// `value` is `optional_value` with a fallback: where a value is glued to the
/// option, both give it and leave the parser alike; where none is,
/// `optional_value` consumes nothing, and `value` takes the next argument
/// (changing nothing else) or, at the end, reports a missing value naming the
/// last option.
pub proof fn law_value_extends_optional_value(m: ParserModel)
    requires
        m.wf(),
    ensures
        optional_value_step(m).1 matches Some(v) ==> value_step(m) == (
            optional_value_step(m).0,
            Ok::<Seq<char>, ErrorModel>(v),
        ),
        optional_value_step(m).1 is None ==> {
            let m1 = optional_value_step(m).0;
            &&& m1.args == m.args
            &&& m1.last_option == m.last_option
            &&& m.args.len() > 0 ==> value_step(m).1 == Ok::<Seq<char>, ErrorModel>(m.args[0])
                && value_step(m).0 == (ParserModel { args: m.args.drop_first(), ..m1 })
            &&& m.args.len() == 0 ==> value_step(m) == (m1, Err::<Seq<char>, ErrorModel>(
                ErrorModel::MissingValue(option_text(m.last_option)),
            ))
        },
        optional_value_step(m).0.args == m.args,
        optional_value_step(m).0.state == StateModel::Idle || optional_value_step(m).0.state
            == StateModel::FinishedOpts,
{
}

} // verus!
