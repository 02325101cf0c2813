use rust_prompt::arguments::{parse_arguments, Argument, ArgumentResult};

fn text_of(a: Option<&Argument>) -> Option<String> {
    match a {
        Some(Argument::String(s)) => Some(s.clone()),
        _ => None,
    }
}

fn is_flag(a: Option<&Argument>) -> bool {
    matches!(a, Some(Argument::Bool))
}

#[test]
fn special_invocation_keeps_the_rest_verbatim() {
    match parse_arguments("!ls -la") {
        Some(ArgumentResult::Special(c, rest)) => {
            assert_eq!(c, '!');
            assert_eq!(rest, "ls -la");
        }
        _ => panic!("expected a special invocation"),
    }
}

#[test]
fn special_invocation_of_a_lone_trigger() {
    match parse_arguments("!") {
        Some(ArgumentResult::Special(c, rest)) => {
            assert_eq!(c, '!');
            assert_eq!(rest, "");
        }
        _ => panic!("expected a special invocation"),
    }
}

#[test]
fn trigger_intervals_are_open() {
    for c in [' ', '0', '9', 'A', 'a', 'z'] {
        let line = format!("{}x", c);
        assert!(!matches!(parse_arguments(&line), Some(ArgumentResult::Special(_, _))), "{:?}", c);
    }
    for c in ['!', '/', ':', '@', '#', '-', '?'] {
        let line = format!("{}x y", c);
        match parse_arguments(&line) {
            Some(ArgumentResult::Special(t, rest)) => {
                assert_eq!(t, c);
                assert_eq!(rest, "x y");
            }
            _ => panic!("expected a special invocation for {:?}", c),
        }
    }
}

#[test]
fn flag_with_a_value() {
    match parse_arguments("ssh -ip 1.2.3.4") {
        Some(ArgumentResult::Command(name, flags)) => {
            assert_eq!(name, "ssh");
            assert_eq!(flags.len(), 1);
            assert_eq!(text_of(flags.get("ip")), Some("1.2.3.4".to_string()));
        }
        _ => panic!("expected a command"),
    }
}

#[test]
fn flag_followed_by_a_flag_is_boolean() {
    match parse_arguments("cmd -a -b val") {
        Some(ArgumentResult::Command(name, flags)) => {
            assert_eq!(name, "cmd");
            assert_eq!(flags.len(), 2);
            assert!(is_flag(flags.get("a")));
            assert_eq!(text_of(flags.get("b")), Some("val".to_string()));
        }
        _ => panic!("expected a command"),
    }
}

#[test]
fn last_flag_is_boolean() {
    match parse_arguments("cmd -b val --verbose") {
        Some(ArgumentResult::Command(name, flags)) => {
            assert_eq!(name, "cmd");
            assert_eq!(flags.len(), 2);
            assert_eq!(text_of(flags.get("b")), Some("val".to_string()));
            assert!(is_flag(flags.get("verbose")));
        }
        _ => panic!("expected a command"),
    }
}

#[test]
fn token_without_dash_is_rejected() {
    assert!(parse_arguments("cmd val").is_none());
    assert!(parse_arguments("cmd -a b c").is_none());
}

#[test]
fn command_without_flags() {
    match parse_arguments("  help \t") {
        Some(ArgumentResult::Command(name, flags)) => {
            assert_eq!(name, "help");
            assert_eq!(flags.len(), 0);
            assert!(flags.is_empty());
        }
        _ => panic!("expected a command"),
    }
}

#[test]
fn line_without_a_token_means_nothing() {
    assert!(parse_arguments("").is_none());
    assert!(parse_arguments("   ").is_none());
    assert!(parse_arguments("\t\r\n").is_none());
}

#[test]
fn later_flag_replaces_an_earlier_one() {
    match parse_arguments("cmd -p 1 -p 2 -q x -q") {
        Some(ArgumentResult::Command(_, flags)) => {
            assert_eq!(flags.len(), 2);
            assert_eq!(text_of(flags.get("p")), Some("2".to_string()));
            assert!(is_flag(flags.get("q")));
        }
        _ => panic!("expected a command"),
    }
}

#[test]
fn separators_are_the_ascii_ones() {
    match parse_arguments("run\t-x\r\n1\x0C-y") {
        Some(ArgumentResult::Command(name, flags)) => {
            assert_eq!(name, "run");
            assert_eq!(text_of(flags.get("x")), Some("1".to_string()));
            assert!(is_flag(flags.get("y")));
        }
        _ => panic!("expected a command"),
    }
    // A vertical tab or a no-break space separates nothing.
    match parse_arguments("a\u{0B}b -k v\u{A0}w") {
        Some(ArgumentResult::Command(name, flags)) => {
            assert_eq!(name, "a\u{0B}b");
            assert_eq!(text_of(flags.get("k")), Some("v\u{A0}w".to_string()));
        }
        _ => panic!("expected a command"),
    }
}

#[test]
fn all_leading_dashes_are_stripped() {
    match parse_arguments("cmd ---key value - --") {
        Some(ArgumentResult::Command(_, flags)) => {
            assert_eq!(flags.len(), 2);
            assert_eq!(text_of(flags.get("key")), Some("value".to_string()));
            assert!(is_flag(flags.get("")));
        }
        _ => panic!("expected a command"),
    }
}

#[test]
fn non_ascii_lines_parse() {
    match parse_arguments("\u{e9}t\u{e9} -\u{f1} \u{4e2d}") {
        Some(ArgumentResult::Command(name, flags)) => {
            assert_eq!(name, "\u{e9}t\u{e9}");
            assert_eq!(text_of(flags.get("\u{f1}")), Some("\u{4e2d}".to_string()));
        }
        _ => panic!("expected a command"),
    }
}
