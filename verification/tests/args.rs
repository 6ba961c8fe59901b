//! Expanding and displaying scheduler arguments.
use scx_control::args::{
    collect_words, expand_input, expand_scheduler_args, format_scheduler_args, ArgsExpandError,
};

#[test]
fn args_args_expansion_shared_vector_ok() {
    let cases: &[(&[&str], &[&str])] = &[
        // Comma style (the historical documented format): still supported.
        (&["--slice-us", "5000"], &["--slice-us", "5000"]),
        // Whitespace inside a single chunk now separates arguments.
        (
            &["--verbose --slice-us 5000"],
            &["--verbose", "--slice-us", "5000"],
        ),
        // Mixed: comma split first (clap), then shell split per chunk.
        (
            &["--verbose", "--slice-us 5000"],
            &["--verbose", "--slice-us", "5000"],
        ),
        // Double quotes are interpreted: value with a space stays one token.
        (&["--name \"foo bar\""], &["--name", "foo bar"]),
        // Single quotes likewise.
        (&["--name 'foo bar'"], &["--name", "foo bar"]),
        // Backslash escapes a space.
        (&["--path /tmp/a\\ b"], &["--path", "/tmp/a b"]),
        // An explicit empty token is explicit: passed through as-is.
        (&["\"\""], &[""]),
        // Empty values remain visible when attached to another option.
        (&["--name \"\""], &["--name", ""]),
    ];
    for (input, expected) in cases {
        let input: Vec<String> = input.iter().map(ToString::to_string).collect();
        let expected: Vec<String> = expected.iter().map(ToString::to_string).collect();
        assert_eq!(
            expand_scheduler_args(&input),
            Ok(expected),
            "input: {input:?}"
        );
    }
}

#[test]
fn args_args_expansion_shared_vector_errors() {
    // An unclosed quote in a chunk is a parse error.
    let unclosed = vec!["--name \"foo".to_string()];
    assert!(matches!(
        expand_scheduler_args(&unclosed),
        Err(ArgsExpandError::Parse(_))
    ));

    // A quoted region spanning a comma cannot survive clap's earlier
    // comma split: each side arrives as an unbalanced chunk. Surfacing
    // a parse error here (instead of silently mangled tokens) is the
    // intended behavior.
    let quote_spanning_comma = vec!["\"foo".to_string(), "bar\"".to_string()];
    assert!(matches!(
        expand_scheduler_args(&quote_spanning_comma),
        Err(ArgsExpandError::Parse(_))
    ));

    // Whitespace-only input expands to nothing: rejected client-side
    // instead of sending an empty list to the daemon.
    let blank = vec!["   ".to_string()];
    assert_eq!(expand_scheduler_args(&blank), Err(ArgsExpandError::Empty));

    // clap turns `--args ""` into a single empty chunk; same outcome.
    let empty_chunk = vec![String::new()];
    assert_eq!(
        expand_scheduler_args(&empty_chunk),
        Err(ArgsExpandError::Empty)
    );
}

/// Full-pipeline checks on top of the shared vector: the exact string
/// a user would pass to `scxctl --args=...` typed into the field
/// yields the same final tokens, comma split included.
#[test]
fn field_input_matches_the_scxctl_pipeline() {
    assert_eq!(
        expand_input("-s 20000,-m powersave,-I 100,-t 100"),
        Ok(["-s", "20000", "-m", "powersave", "-I", "100", "-t", "100"]
            .map(str::to_string)
            .to_vec())
    );
    assert_eq!(
        expand_input("--verbose --slice-us 5000"),
        Ok(["--verbose", "--slice-us", "5000"]
            .map(str::to_string)
            .to_vec())
    );
    // A quoted region spanning a comma: parse error, as on the CLI.
    assert!(matches!(
        expand_input("--name \"foo,bar\""),
        Err(ArgsExpandError::Parse(_))
    ));
    // Whitespace-only and empty input: rejected client-side.
    assert_eq!(expand_input("   "), Err(ArgsExpandError::Empty));
    assert_eq!(expand_input(""), Err(ArgsExpandError::Empty));
}

#[test]
fn displayed_arguments_expand_back() {
    let args = ["--name", "foo bar", "", "a'b", "-x=$HOME"].map(str::to_string).to_vec();
    let line = format_scheduler_args(&args);
    assert_ne!(line, args.join(" "));
    assert_eq!(expand_input(&line), Ok(args));
}

#[test]
fn a_parse_error_names_the_chunk() {
    assert_eq!(
        expand_input("-a,'b c"),
        Err(ArgsExpandError::Parse("missing closing quote in ''b c'".to_owned()))
    );
    assert_eq!(expand_input(" , ,\t"), Err(ArgsExpandError::Empty));
}

#[test]
fn chunks_are_collected_in_order() {
    let chunks = ["a b", "c"].map(str::to_string).to_vec();
    let words = |list: &[&str]| -> Vec<String> { list.iter().map(|w| (*w).to_owned()).collect() };
    assert_eq!(
        collect_words(&chunks, vec![Ok(words(&["x", "y"])), Ok(words(&["z"]))]),
        Ok(words(&["x", "y", "z"]))
    );
    assert_eq!(
        collect_words(&chunks, vec![Ok(words(&["x"])), Err("bad".to_owned())]),
        Err(ArgsExpandError::Parse("bad in 'c'".to_owned()))
    );
    assert_eq!(
        collect_words(&chunks, vec![Ok(Vec::new()), Ok(Vec::new())]),
        Err(ArgsExpandError::Empty)
    );
}

#[test]
fn inputs_expand_alone() {
    let inputs = ["", " ", "-a", "-b 'c d'", "-e,-f g", "'h", "\"i"];
    for a in inputs {
        for b in inputs {
            let expected = match (expand_input(a), expand_input(b)) {
                (Err(ArgsExpandError::Parse(why)), _) => Err(ArgsExpandError::Parse(why)),
                (_, Err(ArgsExpandError::Parse(why))) => Err(ArgsExpandError::Parse(why)),
                (Err(ArgsExpandError::Empty), y) => y,
                (x, Err(ArgsExpandError::Empty)) => x,
                (Ok(x), Ok(y)) => Ok([x, y].concat()),
            };
            assert_eq!(expand_input(&format!("{a},{b}")), expected, "{a:?} {b:?}");
        }
    }
    assert_eq!(
        expand_input("-b 'c d',-e,-f g"),
        Ok(["-b", "c d", "-e", "-f", "g"].map(str::to_string).to_vec())
    );
}
