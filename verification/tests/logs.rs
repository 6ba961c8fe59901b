//! Journal output.
use scx_control::logs::{
    boot_name, entry_lines, format_local_time, journal_args, journal_not_run, parse_entries, read_output, MAX_ENTRIES,
};

#[test]
fn parses_priority_with_info_default() {
    let entries = parse_entries(
        "{\"PRIORITY\":\"3\",\"MESSAGE\":\"boom\"}\n{\"MESSAGE\":\"plain\"}",
    );
    assert_eq!(entries.len(), 2);
    assert_eq!(entries[0].priority, 3);
    assert_eq!(entries[1].priority, 6);
}

#[test]
fn flattens_multiline_messages() {
    let entries = parse_entries(
        r#"{"PRIORITY":"6","MESSAGE":"Opts {\n  verbose: 0,\n}","__REALTIME_TIMESTAMP":"1753000000000000"}"#,
    );
    assert_eq!(entries.len(), 3);
    assert!(!entries[0].continuation);
    assert!(entries[1].continuation && entries[2].continuation);
    assert!(entries[1].time.is_empty());
    assert_eq!(entries[1].text, "  verbose: 0,");
    // Continuation lines inherit the entry's priority.
    assert_eq!(entries[2].priority, 6);
}

#[test]
fn decodes_byte_array_messages() {
    let entries = parse_entries(r#"{"MESSAGE":[104,105]}"#);
    assert_eq!(entries.len(), 1);
    assert_eq!(entries[0].text, "hi");
}

#[test]
fn skips_malformed_and_empty_lines() {
    let entries = parse_entries("not json\n\n{\"MESSAGE\":\"ok\"}\n{\"NO_MESSAGE\":true}");
    assert_eq!(entries.len(), 1);
    assert_eq!(entries[0].text, "ok");
}

#[test]
fn timestamps_are_shown_on_the_first_line_only() {
    let entries = parse_entries(
        "{\"MESSAGE\":\"one\\ntwo\",\"__REALTIME_TIMESTAMP\":\"1753000000000000\"}",
    );
    assert_eq!(entries.len(), 2);
    let time = &entries[0].time;
    assert_eq!(time.len(), 8);
    assert_eq!(&time[2..3], ":");
    assert_eq!(&time[5..6], ":");
    assert!(entries[1].time.is_empty());
}

#[test]
fn unusable_fields_fall_back() {
    let entries = parse_entries(
        "{\"MESSAGE\":\"a\",\"PRIORITY\":\"x\",\"__REALTIME_TIMESTAMP\":\"soon\"}\n\
         {\"MESSAGE\":\"b\",\"PRIORITY\":3}\n\
         {\"MESSAGE\":7}\n\
         [1,2]",
    );
    assert_eq!(entries.len(), 2);
    assert_eq!(entries[0].priority, 6);
    assert!(entries[0].time.is_empty());
    assert_eq!(entries[1].priority, 6);
}

#[test]
fn bytes_that_are_no_bytes_are_left_out() {
    let entries = parse_entries("{\"MESSAGE\":[104,256,-1,\"x\",105]}");
    assert_eq!(entries.len(), 1);
    assert_eq!(entries[0].text, "hi");
    let invalid = parse_entries("{\"MESSAGE\":[104,255]}");
    assert_eq!(invalid[0].text, "h\u{fffd}");
}

#[test]
fn local_times_have_the_form_of_a_clock() {
    for usec in [0, 1_753_000_000_000_000, 253_402_300_799_999_999] {
        let time = format_local_time(usec);
        let digits: Vec<&str> = time.split(':').collect();
        assert_eq!(digits.len(), 3, "{time:?}");
        assert!(digits[0].parse::<u8>().unwrap() < 24);
        assert!(digits[1].parse::<u8>().unwrap() < 60);
        assert!(digits[2].parse::<u8>().unwrap() < 60);
    }
    assert_ne!(format_local_time(0), format_local_time(1_000_000));
    assert_eq!(format_local_time(i64::MAX), "");
}

#[test]
fn the_journal_is_asked_for_one_unit_and_boot() {
    assert_eq!(
        journal_args("scx.service", true),
        [
            "--unit",
            "scx.service",
            "--boot",
            "-1",
            "--lines",
            "5000",
            "--output=json",
            "--no-pager",
            "--quiet",
        ]
        .map(str::to_owned)
        .to_vec()
    );
    assert_eq!(boot_name(false), "0");
    assert_eq!(boot_name(true), "-1");
}

#[test]
fn failed_output_is_reported_and_good_output_parsed() {
    let failed = read_output(false, b"", b" no such unit \n");
    assert_eq!(
        failed.err().as_deref(),
        Some("journalctl failed: no such unit")
    );
    assert_eq!(
        journal_not_run("not found"),
        "failed to run journalctl — is this a systemd system?: not found"
    );
    let fetch = read_output(true, b"{\"MESSAGE\":\"ok\"}\n", b"").unwrap();
    assert_eq!(fetch.lines.len(), 1);
    assert!(!fetch.truncated);
}

#[test]
fn a_full_window_counts_as_truncated() {
    let mut output = String::new();
    for _ in 0..MAX_ENTRIES {
        output.push_str("{\"MESSAGE\":\"x\"}\n");
    }
    let fetch = read_output(true, output.as_bytes(), b"").unwrap();
    assert_eq!(fetch.lines.len(), MAX_ENTRIES);
    assert!(fetch.truncated);
}

#[test]
fn entries_flatten_into_lines() {
    let lines = entry_lines(4, "12:00:00", "a\nb");
    assert_eq!(lines.len(), 2);
    assert_eq!(lines[0].text, "a");
    assert_eq!(lines[0].time, "12:00:00");
    assert_eq!(lines[1].text, "b");
    assert!(lines[1].continuation);
    assert_eq!(lines[1].priority, 4);
}

#[test]
fn an_entry_shows_the_time_of_its_own_stamp() {
    let entries = parse_entries(
        "{\"MESSAGE\":\"a\",\"__REALTIME_TIMESTAMP\":\"1753000000999999\"}\n\
         {\"MESSAGE\":\"b\",\"__REALTIME_TIMESTAMP\":\"1753000061000000\"}",
    );
    assert_eq!(entries[0].time, format_local_time(1_753_000_000_000_000));
    assert_eq!(entries[1].time, format_local_time(1_753_000_061_000_000));
    assert_ne!(entries[0].time, entries[1].time);
}

#[test]
fn outputs_parse_alone() {
    let outputs = [
        "",
        "\r",
        "\n",
        "not json",
        "{\"MESSAGE\":",
        "{\"MESSAGE\":\"one\\ntwo\"}",
        "{\"MESSAGE\":\"one\"}\n",
        "{\"MESSAGE\":\"one\"}\r",
        "{\"MESSAGE\":\"one\"}\r\r",
        "{\"MESSAGE\":\"one\r",
        "not json\r\n{\"PRIORITY\":\"3\",\"MESSAGE\":\"two\"}",
    ];
    for a in outputs {
        for b in outputs {
            let whole = parse_entries(&format!("{a}\n{b}"));
            let mut apart = parse_entries(a);
            apart.extend(parse_entries(b));
            assert_eq!(whole.len(), apart.len(), "{a:?} {b:?}");
            for (x, y) in whole.iter().zip(&apart) {
                assert_eq!(x.text, y.text, "{a:?} {b:?}");
                assert_eq!(x.priority, y.priority);
                assert_eq!(x.time, y.time);
                assert_eq!(x.continuation, y.continuation);
            }
        }
    }
    assert_eq!(parse_entries("{\"MESSAGE\":\"one\"}\r").len(), 1);
    assert_eq!(parse_entries("{\"MESSAGE\":\"one\"}\r\r\n{\"MESSAGE\":\"two\"}").len(), 2);
}

#[test]
fn priorities_stay_on_the_scale() {
    for (field, expected) in [("0", 0), ("+5", 5), ("7", 7), ("8", 6), ("42", 6), ("255", 6), ("256", 6)] {
        let entries = parse_entries(&format!("{{\"PRIORITY\":\"{field}\",\"MESSAGE\":\"a\\nb\"}}"));
        assert_eq!(entries.len(), 2);
        assert_eq!(entries[0].priority, expected, "{field}");
        assert_eq!(entries[1].priority, expected, "{field}");
    }
}
