use lib::{Arg, Parser};

#[test]
fn test_basic() {
    let mut p = Parser::from_args(&["-n", "10", "foo", "-", "--", "baz", "-qux"]);
    assert_eq!(p.next().unwrap().unwrap(), Arg::Short('n'));
    assert_eq!(p.value().unwrap().parse::<i32>().unwrap(), 10);
    assert_eq!(p.next().unwrap().unwrap(), Arg::Value("foo".into()));
    assert_eq!(p.next().unwrap().unwrap(), Arg::Value("-".into()));
    assert_eq!(p.next().unwrap().unwrap(), Arg::Value("baz".into()));
    assert_eq!(p.next().unwrap().unwrap(), Arg::Value("-qux".into()));
    assert_eq!(p.next().unwrap(), None);
    assert_eq!(p.next().unwrap(), None);
    assert_eq!(p.next().unwrap(), None);
}

#[test]
fn test_combined() {
    let mut p = Parser::from_args(&["-abc", "-fvalue", "-xfvalue"]);
    assert_eq!(p.next().unwrap().unwrap(), Arg::Short('a'));
    assert_eq!(p.next().unwrap().unwrap(), Arg::Short('b'));
    assert_eq!(p.next().unwrap().unwrap(), Arg::Short('c'));
    assert_eq!(p.next().unwrap().unwrap(), Arg::Short('f'));
    assert_eq!(p.value().unwrap(), "value");
    assert_eq!(p.next().unwrap().unwrap(), Arg::Short('x'));
    assert_eq!(p.next().unwrap().unwrap(), Arg::Short('f'));
    assert_eq!(p.value().unwrap(), "value");
    assert_eq!(p.next().unwrap(), None);
}

#[test]
fn test_long() {
    let mut p = Parser::from_args(&["--foo", "--bar=qux", "--foobar=qux=baz"]);
    assert_eq!(p.next().unwrap().unwrap(), Arg::Long("foo"));
    assert_eq!(p.next().unwrap().unwrap(), Arg::Long("bar"));
    assert_eq!(p.value().unwrap(), "qux");
    assert_eq!(p.next().unwrap().unwrap(), Arg::Long("foobar"));
    assert_eq!(
        p.next().unwrap_err().to_string(),
        r#"unexpected argument for option '--foobar': "qux=baz""#
    );
    assert_eq!(p.next().unwrap(), None);
}

#[test]
fn test_dash_args() {
    // "--" should indicate the end of the options
    let mut p = Parser::from_args(&["-x", "--", "-y"]);
    assert_eq!(p.next().unwrap().unwrap(), Arg::Short('x'));
    assert_eq!(p.next().unwrap().unwrap(), Arg::Value("-y".into()));
    assert_eq!(p.next().unwrap(), None);

    // ...unless it's an argument of an option
    let mut p = Parser::from_args(&["-x", "--", "-y"]);
    assert_eq!(p.next().unwrap().unwrap(), Arg::Short('x'));
    assert_eq!(p.value().unwrap(), "--");
    assert_eq!(p.next().unwrap().unwrap(), Arg::Short('y'));
    assert_eq!(p.next().unwrap(), None);

    // "-" is a valid value that should not be treated as an option
    let mut p = Parser::from_args(&["-x", "-", "-y"]);
    assert_eq!(p.next().unwrap().unwrap(), Arg::Short('x'));
    assert_eq!(p.next().unwrap().unwrap(), Arg::Value("-".into()));
    assert_eq!(p.next().unwrap().unwrap(), Arg::Short('y'));
    assert_eq!(p.next().unwrap(), None);

    // '-' is a silly and hard to use short option, but other parsers treat
    // it like an option in this position
    let mut p = Parser::from_args(&["-x-y"]);
    assert_eq!(p.next().unwrap().unwrap(), Arg::Short('x'));
    assert_eq!(p.next().unwrap().unwrap(), Arg::Short('-'));
    assert_eq!(p.next().unwrap().unwrap(), Arg::Short('y'));
    assert_eq!(p.next().unwrap(), None);
}

#[test]
fn test_missing_value() {
    let mut p = Parser::from_args(&["-o"]);
    assert_eq!(p.next().unwrap().unwrap(), Arg::Short('o'));
    assert_eq!(
        p.value().unwrap_err().to_string(),
        "missing argument for option '-o'",
    );

    let mut q = Parser::from_args(&["--out"]);
    assert_eq!(q.next().unwrap().unwrap(), Arg::Long("out"));
    assert_eq!(
        q.value().unwrap_err().to_string(),
        "missing argument for option '--out'",
    );

    let mut r = Parser::from_args(&[""; 0]);
    assert_eq!(r.value().unwrap_err().to_string(), "missing argument");
}

#[test]
fn test_weird_args() {
    let mut p = Parser::from_args(&[
        "", "--=", "--=3", "-", "-x", "--", "-", "-x", "--", "", "-", "-x",
    ]);
    assert_eq!(p.next().unwrap().unwrap(), Arg::Value(String::from("")));

    // These are weird and questionable, but this seems to be the standard
    // interpretation
    // GNU getopt_long and argparse complain that it could be an abbreviation
    // of every single long option
    // clap complains that "--" is not expected, which matches its treatment
    // of unknown long options
    assert_eq!(p.next().unwrap().unwrap(), Arg::Long(""));
    assert_eq!(p.value().unwrap(), String::from(""));
    assert_eq!(p.next().unwrap().unwrap(), Arg::Long(""));
    assert_eq!(p.value().unwrap(), String::from("3"));

    assert_eq!(p.next().unwrap().unwrap(), Arg::Value(String::from("-")));
    assert_eq!(p.next().unwrap().unwrap(), Arg::Short('x'));
    assert_eq!(p.value().unwrap(), String::from("--"));
    assert_eq!(p.next().unwrap().unwrap(), Arg::Value(String::from("-")));
    assert_eq!(p.next().unwrap().unwrap(), Arg::Short('x'));
    assert_eq!(p.next().unwrap().unwrap(), Arg::Value(String::from("")));
    assert_eq!(p.next().unwrap().unwrap(), Arg::Value(String::from("-")));
    assert_eq!(p.next().unwrap().unwrap(), Arg::Value(String::from("-x")));
    assert_eq!(p.next().unwrap(), None);

    let mut r = Parser::from_args(&[""; 0]);
    assert_eq!(r.next().unwrap(), None);
}

#[test]
fn test_unicode() {
    let mut p = Parser::from_args(&["-aµ", "--µ=10", "µ", "--foo=µ"]);
    assert_eq!(p.next().unwrap().unwrap(), Arg::Short('a'));
    assert_eq!(p.next().unwrap().unwrap(), Arg::Short('µ'));
    assert_eq!(p.next().unwrap().unwrap(), Arg::Long("µ"));
    assert_eq!(p.value().unwrap(), "10");
    assert_eq!(p.next().unwrap().unwrap(), Arg::Value("µ".into()));
    assert_eq!(p.next().unwrap().unwrap(), Arg::Long("foo"));
    assert_eq!(p.value().unwrap(), "µ");
}

#[test]
fn test_mixed_invalid() {
    let mut p = Parser::from_args(&["--foo=@@@"]);
    assert_eq!(p.next().unwrap().unwrap(), Arg::Long("foo"));
    assert_eq!(p.value().unwrap(), "@@@");

    let mut q = Parser::from_args(&["-💣@@@"]);
    assert_eq!(q.next().unwrap().unwrap(), Arg::Short('💣'));
    assert_eq!(q.value().unwrap(), "@@@");

    let mut r = Parser::from_args(&["-f@@@"]);
    assert_eq!(r.next().unwrap().unwrap(), Arg::Short('f'));
    assert_eq!(r.next().unwrap().unwrap(), Arg::Short('@'));
    assert_eq!(r.next().unwrap().unwrap(), Arg::Short('@'));
    assert_eq!(r.next().unwrap().unwrap(), Arg::Short('@'));
    assert_eq!(r.next().unwrap(), None);

    let mut s = Parser::from_args(&["--foo=bar=@@@"]);
    assert_eq!(s.next().unwrap().unwrap(), Arg::Long("foo"));
    assert_eq!(s.value().unwrap(), "bar=@@@");
}

#[test]
fn test_separate_invalid() {
    let mut p = Parser::from_args(&["--foo", "@@@"]);
    assert_eq!(p.next().unwrap().unwrap(), Arg::Long("foo"));
    assert_eq!(p.value().unwrap(), "@@@");
}

#[test]
fn test_invalid_long_option() {
    let mut p = Parser::from_args(&["--@=10"]);
    assert_eq!(p.next().unwrap().unwrap(), Arg::Long("@"));
    assert_eq!(p.value().unwrap(), "10");
    assert_eq!(p.next().unwrap(), None);

    let mut q = Parser::from_args(&["--@"]);
    assert_eq!(q.next().unwrap().unwrap(), Arg::Long("@"));
    assert_eq!(q.next().unwrap(), None);
}

#[test]
fn short_opt_equals_sign() {
    let mut p = Parser::from_args(&["-a=b"]);
    assert_eq!(p.next().unwrap().unwrap(), Arg::Short('a'));
    assert_eq!(p.value().unwrap(), "b");
    assert_eq!(p.next().unwrap(), None);

    let mut p = Parser::from_args(&["-a=b"]);
    assert_eq!(p.next().unwrap().unwrap(), Arg::Short('a'));
    assert_eq!(
        p.next().unwrap_err().to_string(),
        r#"unexpected argument for option '-a': "b""#
    );
    assert_eq!(p.next().unwrap(), None);

    let mut p = Parser::from_args(&["-a="]);
    assert_eq!(p.next().unwrap().unwrap(), Arg::Short('a'));
    assert_eq!(p.value().unwrap(), "");
    assert_eq!(p.next().unwrap(), None);

    let mut p = Parser::from_args(&["-a="]);
    assert_eq!(p.next().unwrap().unwrap(), Arg::Short('a'));
    assert_eq!(
        p.next().unwrap_err().to_string(),
        r#"unexpected argument for option '-a': """#
    );
    assert_eq!(p.next().unwrap(), None);

    let mut p = Parser::from_args(&["-="]);
    assert_eq!(p.next().unwrap().unwrap(), Arg::Short('='));
    assert_eq!(p.next().unwrap(), None);

    let mut p = Parser::from_args(&["-=a"]);
    assert_eq!(p.next().unwrap().unwrap(), Arg::Short('='));
    assert_eq!(p.value().unwrap(), "a");
}

#[test]
fn short_opt_equals_sign_invalid() {
    let mut p = Parser::from_args(&["-a=@"]);
    assert_eq!(p.next().unwrap().unwrap(), Arg::Short('a'));
    assert_eq!(p.value().unwrap(), "@");
    assert_eq!(p.next().unwrap(), None);

    let mut p = Parser::from_args(&["-=@"]);
    assert_eq!(p.next().unwrap().unwrap(), Arg::Short('='));
    assert_eq!(p.value().unwrap(), "@");
}

#[test]
fn short_opt_equals_sign_disabled() {
    let mut p = Parser::from_args(&["-d=", "-d=value", "-dvalue", "-d"]);
    p.set_short_equals(false);

    assert_eq!(p.next().unwrap().unwrap(), Arg::Short('d'));
    assert_eq!(p.value().unwrap(), "=");

    assert_eq!(p.next().unwrap().unwrap(), Arg::Short('d'));
    assert_eq!(p.value().unwrap(), "=value");

    assert_eq!(p.next().unwrap().unwrap(), Arg::Short('d'));
    assert_eq!(p.value().unwrap(), "value");

    assert_eq!(p.next().unwrap().unwrap(), Arg::Short('d'));
    assert_eq!(
        p.value().unwrap_err().to_string(),
        "missing argument for option '-d'"
    );

    assert_eq!(p.next().unwrap(), None);

    let mut p = Parser::from_args(&["-d=", "-d=value", "-dvalue", "-d"]);
    p.set_short_equals(false);

    assert_eq!(p.next().unwrap().unwrap(), Arg::Short('d'));
    assert_eq!(p.optional_value().unwrap(), "=");

    assert_eq!(p.next().unwrap().unwrap(), Arg::Short('d'));
    assert_eq!(p.optional_value().unwrap(), "=value");

    assert_eq!(p.next().unwrap().unwrap(), Arg::Short('d'));
    assert_eq!(p.optional_value().unwrap(), "value");

    assert_eq!(p.next().unwrap().unwrap(), Arg::Short('d'));

    assert_eq!(p.optional_value(), None);
    assert_eq!(p.next().unwrap(), None);

    let mut p = Parser::from_args(&["-d=", "-d=v", "-dv", "-d", "-="]);
    p.set_short_equals(false);

    assert_eq!(p.next().unwrap().unwrap(), Arg::Short('d'));
    assert_eq!(p.next().unwrap().unwrap(), Arg::Short('='));

    assert_eq!(p.next().unwrap().unwrap(), Arg::Short('d'));
    assert_eq!(p.next().unwrap().unwrap(), Arg::Short('='));
    assert_eq!(p.next().unwrap().unwrap(), Arg::Short('v'));

    assert_eq!(p.next().unwrap().unwrap(), Arg::Short('d'));
    assert_eq!(p.next().unwrap().unwrap(), Arg::Short('v'));

    assert_eq!(p.next().unwrap().unwrap(), Arg::Short('d'));

    assert_eq!(p.next().unwrap().unwrap(), Arg::Short('='));

    assert_eq!(p.next().unwrap(), None);

    let mut p = Parser::from_args(&["-d", "1", "2", "-d1", "2", "-d=1", "2", "-d="]);
    p.set_short_equals(false);

    assert_eq!(p.next().unwrap().unwrap(), Arg::Short('d'));
    assert_eq!(p.value().unwrap(), "1");
    assert_eq!(p.value().unwrap(), "2");

    assert_eq!(p.next().unwrap().unwrap(), Arg::Short('d'));
    assert_eq!(p.value().unwrap(), "1");
    assert_eq!(p.value().unwrap(), "2");

    assert_eq!(p.next().unwrap().unwrap(), Arg::Short('d'));
    assert_eq!(p.value().unwrap(), "=1");
    assert_eq!(p.value().unwrap(), "2");

    assert_eq!(p.next().unwrap().unwrap(), Arg::Short('d'));
    assert_eq!(p.value().unwrap(), "=");

    assert_eq!(p.next().unwrap(), None);
}

/// It's possible to disable this setting for a single method call.
/// This might break if we parse the equals sign any earlier than needed.
#[test]
fn short_opt_equals_sign_temporarily_disabled() {
    let mut p = Parser::from_args(&["-o=", "-o=", "-o=", "-o=", "-o=", "-o="]);
    assert_eq!(p.next().unwrap().unwrap(), Arg::Short('o'));
    p.set_short_equals(false);
    assert_eq!(p.next().unwrap().unwrap(), Arg::Short('='));
    p.set_short_equals(true);

    assert_eq!(p.next().unwrap().unwrap(), Arg::Short('o'));
    assert_eq!(
        p.next().unwrap_err().to_string(),
        r#"unexpected argument for option '-o': """#,
    );

    assert_eq!(p.next().unwrap().unwrap(), Arg::Short('o'));
    p.set_short_equals(false);
    assert_eq!(p.value().unwrap(), "=");
    p.set_short_equals(true);

    assert_eq!(p.next().unwrap().unwrap(), Arg::Short('o'));
    assert_eq!(p.value().unwrap(), "");

    assert_eq!(p.next().unwrap().unwrap(), Arg::Short('o'));
    p.set_short_equals(false);
    assert_eq!(p.optional_value().unwrap(), "=");
    p.set_short_equals(true);

    assert_eq!(p.next().unwrap().unwrap(), Arg::Short('o'));
    assert_eq!(p.value().unwrap(), "");

    assert_eq!(p.next().unwrap(), None);
}

#[test]
fn bin_name() {
    assert_eq!(Parser::new(&["foo", "bar", "baz"]).bin_name(), Some("foo"));
    assert_eq!(Parser::from_args(&["foo", "bar", "baz"]).bin_name(), None);
    assert_eq!(Parser::new(&[""; 0]).bin_name(), None);
    assert_eq!(Parser::new(&[""]).bin_name(), Some(""));
}

#[test]
fn test_errors() {
    assert_eq!(
        Arg::Short('o').unexpected().to_string(),
        "invalid option '-o'",
    );
    assert_eq!(
        Arg::Long("opt").unexpected().to_string(),
        "invalid option '--opt'",
    );
    assert_eq!(
        Arg::Value("foo".into()).unexpected().to_string(),
        r#"unexpected argument "foo""#,
    );
    // `source()` and the `Debug` text are not checked here: the library's
    // error type can have neither `std::error::Error` nor a `Debug` of its own.
}
