//! Text helpers and names.
use scx_control::sched::{
    ensure_scx_prefix, mode_label, remove_scx_prefix, remove_scx_prefixes, resolve_sched_name,
    SchedMode, SchedNameError, SupportedSched, MODES,
};
use scx_control::text::{
    decimal, is_white_space, join, lines, parse_i64, parse_u8, position, split_char, starts_with, strip_prefix,
    trim,
};

fn words(list: &[&str]) -> Vec<String> {
    list.iter().map(|w| (*w).to_owned()).collect()
}

#[test]
fn numbers_parse_like_the_standard_library() {
    for text in ["0", "7", "255", "256", "+3", "-1", "", "+", " 1", "1 ", "0007", "1_0", "９"] {
        assert_eq!(parse_u8(text), text.parse::<u8>().ok(), "{text:?}");
    }
    for text in [
        "0",
        "-0",
        "9223372036854775807",
        "9223372036854775808",
        "-9223372036854775808",
        "-9223372036854775809",
        "+12",
        "--1",
        "-",
        "1753000000000000",
        "12a",
    ] {
        assert_eq!(parse_i64(text), text.parse::<i64>().ok(), "{text:?}");
    }
    for n in [0u64, 9, 10, 4294967295, u64::MAX] {
        assert_eq!(decimal(n), n.to_string());
    }
}

#[test]
fn lines_split_like_the_standard_library() {
    for text in ["", "a", "a\n", "a\nb", "a\r\nb\r\n", "\n", "\n\n", "a\rb", "a\n\r\nb", "a\r"] {
        let expected: Vec<String> = text.lines().map(str::to_owned).collect();
        assert_eq!(lines(text), expected, "{text:?}");
    }
}

#[test]
fn trim_follows_white_space() {
    for text in ["", "  ", " a ", "\t\na b\r\n", "\u{2003}x\u{00a0}", "\u{200b}y", "z\u{0085}"] {
        assert_eq!(trim(text), text.trim(), "{text:?}");
    }
}

#[test]
fn white_space_is_what_unicode_says() {
    for c in '\0'..=char::MAX {
        assert_eq!(is_white_space(c), c.is_whitespace(), "{c:?}");
    }
}

#[test]
fn pieces_join_and_split() {
    assert_eq!(split_char("a,b,,c", ','), words(&["a", "b", "", "c"]));
    assert_eq!(split_char("", ','), words(&[""]));
    assert_eq!(join(&words(&["a", "b", "c"]), ", "), "a, b, c");
    assert_eq!(join(&[], ", "), "");
    assert_eq!(position(&words(&["a", "b", "a"]), "a"), Some(0));
    assert_eq!(position(&words(&["a", "b"]), "b"), Some(1));
    assert_eq!(position(&words(&["a"]), "c"), None);
    assert!(starts_with("scx_lavd", "scx_"));
    assert!(!starts_with("scx", "scx_"));
    assert_eq!(strip_prefix("scx_lavd", "scx_"), Some("lavd"));
    assert_eq!(strip_prefix("lavd", "scx_"), None);
}

#[test]
fn prefixes_come_and_go() {
    assert_eq!(ensure_scx_prefix("lavd"), "scx_lavd");
    assert_eq!(ensure_scx_prefix("scx_lavd"), "scx_lavd");
    assert_eq!(remove_scx_prefix("scx_lavd"), "lavd");
    assert_eq!(remove_scx_prefix("lavd"), "lavd");
    assert_eq!(
        remove_scx_prefixes(&words(&["scx_lavd", "scx_cake"])),
        words(&["lavd", "cake"])
    );
}

#[test]
fn every_scheduler_has_one_name() {
    for sched in [
        SupportedSched::Beerland,
        SupportedSched::Bpfland,
        SupportedSched::Cake,
        SupportedSched::Cosmos,
        SupportedSched::Flash,
        SupportedSched::Flow,
        SupportedSched::Lavd,
        SupportedSched::Pandemonium,
        SupportedSched::P2DQ,
        SupportedSched::Tickless,
        SupportedSched::Rustland,
        SupportedSched::Rusty,
    ] {
        assert_eq!(SupportedSched::from_name(sched.name()), Some(sched));
        assert_eq!(sched.title(), format!("{sched:?}"));
        assert!(sched.name().starts_with("scx_"));
    }
    assert_eq!(SupportedSched::from_name("scx_nothing"), None);
    assert_eq!(SupportedSched::P2DQ.name(), "scx_p2dq");
}

#[test]
fn modes_travel_as_numbers() {
    for (n, mode) in MODES.iter().enumerate() {
        assert_eq!(mode.number() as usize, n);
        assert_eq!(SchedMode::from_number(mode.number()), Some(*mode));
        assert_eq!(mode.title(), format!("{mode:?}"));
    }
    assert_eq!(SchedMode::from_number(5), None);
    assert_eq!(mode_label(SchedMode::LowLatency), "lowlatency");
    assert_eq!(mode_label(SchedMode::PowerSave), "powersave");
}

#[test]
fn names_resolve_with_and_without_prefix_alike() {
    let reported = words(&["scx_bpfland", "scx_lavd", "scx_future"]);
    for name in ["lavd", "bpfland", "future", "rusty"] {
        assert_eq!(
            resolve_sched_name(name, &reported),
            resolve_sched_name(&ensure_scx_prefix(name), &reported)
        );
    }
    assert_eq!(
        resolve_sched_name("future", &reported),
        Err(SchedNameError::UnsupportedByClient)
    );
    assert_eq!(
        resolve_sched_name("rusty", &reported),
        Err(SchedNameError::UnknownName)
    );
}
