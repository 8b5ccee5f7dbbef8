use flowdesk::logparse::{parse_log_line, DerivedState, LogEvent, ParsedLine};

#[test]
fn parses_structured_line() {
    let raw = "[2026-06-23T12:00:00] NOTE: started server, waiting for clients";
    let p = parse_log_line(raw);
    assert_eq!(p.level, Some("NOTE"));
    assert!(p.message.contains("started server"));
    assert!(matches!(
        p.events_buf.first(),
        Some(LogEvent::StateChange(DerivedState::Connected))
    ));
}

#[test]
fn parses_unstructured_print_line() {
    let raw = "started server (ipv4), waiting for clients";
    let p = parse_log_line(raw);
    assert!(p.level.is_none());
    assert!(!p.events_buf.is_empty());
}

#[test]
fn parses_fingerprint_line() {
    let raw = "[2026-06-23T12:00:00] NOTE: peer fingerprint (SHA1): AA:BB (SHA256): CC:DD";
    let p = parse_log_line(raw);
    assert!(p
        .events_buf
        .iter()
        .any(|e| matches!(e, LogEvent::FingerprintPrompt { .. })));
}

#[test]
fn detects_port_in_use() {
    let raw = "[2026-06-23T12:00:00] ERROR: cannot listen for clients: address already in use";
    let p = parse_log_line(raw);
    assert!(matches!(
        p.events_buf.first(),
        Some(LogEvent::StateChange(DerivedState::Error))
    ));
}

#[test]
fn structured_line_parts() {
    let p = parse_log_line("[ts]  \tDEBUG1: x  y");
    assert_eq!(p.level, Some("DEBUG1"));
    assert_eq!(p.message(), "x  y");
    assert_eq!(p.level_str(), "DEBUG");
    assert!(p.events().is_empty());
}

#[test]
fn fingerprint_values_are_extracted() {
    let p = parse_log_line("[t] NOTE: peer fingerprint (SHA1): AB:0F (SHA256): 12:EFab tail");
    match p.events() {
        [LogEvent::FingerprintPrompt { sha1, sha256 }] => {
            assert_eq!(sha1, "AB:0F");
            assert_eq!(sha256, "12:EF");
        }
        other => panic!("unexpected events {:?}", other),
    }
    // Lower-case digits and extra spaces do not make a fingerprint line.
    assert!(parse_log_line("peer fingerprint (SHA1): ab (SHA256): CD").events().is_empty());
    assert!(parse_log_line("peer fingerprint (SHA1):  AB (SHA256): CD").events().is_empty());
    assert!(parse_log_line("peer fingerprint (SHA1): AB  (SHA256): CD").events().is_empty());
}

#[test]
fn first_complete_fingerprint_is_used() {
    let p = parse_log_line(
        "peer fingerprint (SHA1): zz peer fingerprint (SHA1): 01 (SHA256): 02 peer fingerprint (SHA1): 03 (SHA256): 04",
    );
    match p.events() {
        [LogEvent::FingerprintPrompt { sha1, sha256 }] => {
            assert_eq!(sha1, "01");
            assert_eq!(sha256, "02");
        }
        other => panic!("unexpected events {:?}", other),
    }
}

#[test]
fn connection_wins_over_failure_and_keywords_ignore_case() {
    let p = parse_log_line("Failed to connect to server; then CONNECTED TO SERVER");
    assert!(p.level.is_none());
    assert!(matches!(p.events(), [LogEvent::StateChange(DerivedState::Connected)]));
    let p = parse_log_line("[x] WARNING: Cannot Read Configuration");
    assert!(matches!(p.events(), [LogEvent::StateChange(DerivedState::Error)]));
    assert_eq!(p.level_str(), "WARNING");
}

#[test]
fn malformed_lines_are_unstructured() {
    for raw in [
        "[] NOTE: empty stamp",
        "[t]NOTE: no space",
        "[t] note: lower case level",
        "[t] NOTE:missing space",
        "[t] NOTE: two\nlines",
        "[t] NOTE",
        "",
        "no bracket NOTE: x",
    ] {
        let p = parse_log_line(raw);
        assert!(p.level.is_none(), "{:?}", raw);
        assert_eq!(p.message, raw);
        assert_eq!(p.level_str(), "INFO");
    }
}

#[test]
fn unicode_spaces_separate_the_parts() {
    let p = parse_log_line("[t]\u{3000}INFO:\u{a0}hello");
    assert_eq!(p.level, Some("INFO"));
    assert_eq!(p.message, "hello");
}

#[test]
fn level_categories() {
    let cases = [
        ("FATAL", "ERROR"),
        ("ERROR", "ERROR"),
        ("WARNING", "WARNING"),
        ("NOTE", "NOTE"),
        ("INFO", "INFO"),
        ("DEBUG", "DEBUG"),
        ("DEBUG2", "DEBUG"),
        ("DEBUG5", "DEBUG"),
        ("debug3", "DEBUG"),
        ("fatal", "ERROR"),
        ("PRINT", "INFO"),
    ];
    for (level, expected) in cases {
        let p = ParsedLine { level: Some(level), message: "", events_buf: Vec::new() };
        assert_eq!(p.level_str(), expected, "{}", level);
    }
    let p = ParsedLine { level: None, message: "", events_buf: Vec::new() };
    assert_eq!(p.level_str(), "INFO");
}

/// The line shapes agree with the patterns they are written after.
#[test]
fn agrees_with_the_patterns() {
    let log_re =
        regex::Regex::new(r"^\[(?P<ts>[^\]]+)\]\s+(?P<level>[A-Z0-9]+):\s(?P<msg>.*)$").unwrap();
    let fp_re = regex::Regex::new(
        r"peer fingerprint \(SHA1\): (?P<sha1>[A-F0-9:]+) \(SHA256\): (?P<sha256>[A-F0-9:]+)",
    )
    .unwrap();
    let lines = [
        "[2026-06-23T12:00:00] NOTE: started server, waiting for clients",
        "[a]b] NOTE: x",
        "[a\nb] INFO: multi-line stamp",
        "[t] \u{2028} X9:  lead",
        "[t] AB:CD: x",
        "[t] AB : x",
        "[t] NOTE: ",
        "[t] NOTE:\t",
        "[t] NOTE: peer fingerprint (SHA1):AA(SHA256):BB",
        "x peer fingerprint (SHA1): GG (SHA256): 00 peer fingerprint (SHA1): 1 \t(SHA256):\u{3000}f:f:",
        "peer fingerprint (SHA1): 11 (SHA256):",
        "peer fingerprint (sha1): 11 (SHA256): 22",
        "[t] NOTE: msg\r",
        "peer fingerprint (SHA1): A:B (SHA256): C:D and peer fingerprint (SHA1): 1 (SHA256): 2",
        "peer fingerprint (SHA1): Ab (SHA256): 12",
    ];
    for raw in lines {
        let p = parse_log_line(raw);
        match log_re.captures(raw) {
            Some(c) => {
                assert_eq!(p.level, Some(c.name("level").unwrap().as_str()), "{:?}", raw);
                assert_eq!(p.message, c.name("msg").unwrap().as_str(), "{:?}", raw);
            }
            None => {
                assert_eq!(p.level, None, "{:?}", raw);
                assert_eq!(p.message, raw);
            }
        }
        let fp: Vec<(String, String)> = p
            .events()
            .iter()
            .filter_map(|e| match e {
                LogEvent::FingerprintPrompt { sha1, sha256 } => Some((sha1.clone(), sha256.clone())),
                _ => None,
            })
            .collect();
        match fp_re.captures(p.message) {
            Some(c) => assert_eq!(
                fp,
                vec![(c["sha1"].to_string(), c["sha256"].to_string())],
                "{:?}",
                raw
            ),
            None => assert!(fp.is_empty(), "{:?}", raw),
        }
    }
}
