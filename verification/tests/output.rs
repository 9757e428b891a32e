use opencode2api::output::{is_confirmation, colors_enabled, CliErrorInfo, ColorChoice, KeyValue, OutputFormat};
use opencode2api::pidfile::{PidFile, ProcessIdentity};
use opencode2api::presentation::{compact, content_width, facts, rule, summary, terminal_width, truncate, wrap};
use opencode2api::tui::{pad_to_width, strip_ansi, visible_width};
use opencode2api::runtime::{default_root, join_path, RuntimePaths};
use opencode2api::config::BridgeConfig;
use unicode_width::UnicodeWidthStr;

#[test]
fn test_color_choice_default_is_auto() {
    assert_eq!(ColorChoice::default(), ColorChoice::Auto);
}

#[test]
fn test_key_value_display() {
    let kv = KeyValue {
        key: "port".into(),
        value: "4000".into(),
    };
    assert_eq!(kv.to_string(), "port: 4000");
}

#[test]
fn test_output_format_partial_eq() {
    assert_eq!(OutputFormat::Human, OutputFormat::Human);
    assert_ne!(OutputFormat::Human, OutputFormat::Json);
    assert_ne!(OutputFormat::Json, OutputFormat::Quiet);
}

#[test]
fn color_preference_follows_terminal_and_no_color() {
    assert!(!colors_enabled(ColorChoice::Never, false, true));
    assert!(colors_enabled(ColorChoice::Always, true, false));
    assert!(colors_enabled(ColorChoice::Auto, false, true));
    assert!(!colors_enabled(ColorChoice::Auto, true, true));
    assert!(!colors_enabled(ColorChoice::Auto, false, false));
}

#[test]
fn confirmation_accepts_only_yes() {
    assert!(is_confirmation("y\n"));
    assert!(is_confirmation("  YES "));
    assert!(!is_confirmation("yeah"));
    assert!(!is_confirmation(""));
}

#[test]
fn error_info_keeps_its_parts() {
    let info = CliErrorInfo::new("E1", "broken", Some("retry"));
    assert_eq!(info.code, "E1");
    assert_eq!(info.message, "broken");
    assert_eq!(info.hint.as_deref(), Some("retry"));
}

#[test]
fn identity_match_requires_executable_and_start_marker() {
    let identity = ProcessIdentity {
        pid: 42,
        executable: Some("/usr/bin/opencode2api".to_string()),
        start_marker: Some("start-1".to_string()),
    };
    let pidfile = PidFile::with_identity(identity.clone(), 4000, "127.0.0.1");
    assert!(pidfile.owns(&identity));
    let reused = ProcessIdentity {
        start_marker: Some("start-2".to_string()),
        ..identity
    };
    assert!(!pidfile.owns(&reused));
    assert!(!PidFile::new(42, 4000, "127.0.0.1").owns(&reused));
}

#[test]
fn pid_file_records_carry_an_instance_id() {
    let record = PidFile::new(7, 4000, "0.0.0.0");
    assert!(!record.has_identity_evidence());
    let id = record.instance_id.unwrap();
    assert_eq!(id.len(), 32);
    assert!(id.chars().all(|c| c.is_ascii_hexdigit() && !c.is_ascii_uppercase()));
}

#[test]
fn layout_widths_are_clamped() {
    assert_eq!(terminal_width(None), 100);
    assert_eq!(terminal_width(Some(20)), 100);
    assert_eq!(terminal_width(Some(80)), 80);
    assert_eq!(content_width(Some(80)), 78);
    assert_eq!(content_width(Some(240)), 96);
    assert_eq!(content_width(Some(40)), 38);
    assert!(compact(Some(58)));
    assert!(!compact(Some(100)));
    assert_eq!(rule('-', Some(60)), "-".repeat(58));
    assert_eq!(summary(&["a".to_string(), "b".to_string()]), "  a   b");
    assert_eq!(summary(&[]), "  ");
}

#[test]
fn wraps_without_exceeding_visible_width() {
    let lines = wrap("a short sentence that needs wrapping", 12);
    assert!(lines
        .iter()
        .all(|line| UnicodeWidthStr::width(line.as_str()) <= 12));
    assert!(lines.len() > 1);
}

#[test]
fn truncates_unicode_to_requested_width() {
    let value = truncate("hello世界", 7);
    assert!(UnicodeWidthStr::width(value.as_str()) <= 7);
    assert!(value.ends_with('…'));
}

#[test]
fn wrap_keeps_paragraphs_and_cuts_long_words() {
    assert_eq!(wrap("", 10), vec![String::new()]);
    assert_eq!(wrap("a\n\nb", 10), vec!["a", "", "b"]);
    assert_eq!(wrap("abcdefgh", 3), vec!["abc", "def", "gh"]);
    assert_eq!(wrap("one two three", 7), vec!["one two", "three"]);
    assert_eq!(truncate("short", 10), "short");
    assert_eq!(truncate("longer text", 0), "");
    assert_eq!(truncate("longer text", 1), "…");
    assert_eq!(truncate("longer text", 5), "long…");
}

#[test]
fn facts_wrap_long_values_without_losing_content() {
    let value =
        "/home/light/Downloads/bqa/opencode2claude-branch-audit/runtime/opencode2api.log";
    let output = facts(&[("Log", value.to_string())], Some(58));
    assert!(!output.contains('…'));
    assert_eq!(
        output.split_whitespace().collect::<String>(),
        format!("Log{value}")
    );
}

#[test]
fn facts_align_values_without_box_borders() {
    let output = facts(&[("Port", "4000".into()), ("Long label", "value".into())], Some(100));
    assert!(!output.contains('│'));
    assert!(!output.contains('┌'));
    assert!(output.contains("Port"));
    assert!(output.contains("4000"));
}

#[test]
fn facts_layouts_are_exact() {
    assert_eq!(facts(&[], Some(100)), "");
    assert_eq!(
        facts(&[("Port", "4000".into()), ("Long label", "value".into())], Some(100)),
        "  Port         4000\n  Long label   value"
    );
    assert_eq!(facts(&[("Port", "4000".into())], Some(58)), "  Port\n    4000");
    let long = "x".repeat(60);
    assert_eq!(
        facts(&[("Log", long.clone())], Some(58)),
        format!("  Log\n    {}\n    {}", "x".repeat(54), "x".repeat(6))
    );
    let wide = "y".repeat(90);
    assert_eq!(
        facts(&[("Id", wide)], Some(100)),
        format!("  Id   {}\n       {}", "y".repeat(89), "y")
    );
}

#[test]
fn terminal_escapes_are_stripped_and_padding_fills_columns() {
    assert_eq!(strip_ansi("\u{1b}[1;32mok\u{1b}[0m"), "ok");
    assert_eq!(strip_ansi("a\u{1b}b"), "a\u{1b}b");
    assert_eq!(strip_ansi("tail\u{1b}"), "tail\u{1b}");
    assert_eq!(visible_width("\u{1b}[31m世界\u{1b}[0m"), 4);
    assert_eq!(pad_to_width("ab", 5), "ab   ");
    assert_eq!(pad_to_width("abcdef", 3), "abcdef");
}

#[test]
fn runtime_paths_live_under_the_root() {
    let paths = RuntimePaths::from_root("/home/u/.opencode2api");
    assert_eq!(paths.runtime_dir(), "/home/u/.opencode2api");
    assert_eq!(paths.pid_file(), "/home/u/.opencode2api/opencode2api.pid.json");
    assert_eq!(paths.bridge_log(), "/home/u/.opencode2api/opencode2api.log");
    assert_eq!(paths.history_dir(), "/home/u/.opencode2api/history");
    assert_eq!(
        paths.history_database(),
        "/home/u/.opencode2api/history/request-history.sqlite3"
    );
    assert_eq!(join_path("/tmp/", "x"), "/tmp/x");
    assert_eq!(join_path("", "x"), "x");
}

#[test]
fn runtime_root_resolution_order() {
    assert_eq!(default_root(Some("/srv/rt"), Some("/home/u")), "/srv/rt");
    assert_eq!(default_root(None, Some("/home/u")), "/home/u/.opencode2api");
    assert_eq!(default_root(None, None), "./.opencode2api");
    let mut config = BridgeConfig::default();
    assert_eq!(RuntimePaths::from_config(&config, "/d").runtime_dir(), "/d");
    config.runtime.runtime_dir = Some("/configured".to_string());
    assert_eq!(RuntimePaths::from_config(&config, "/d").runtime_dir(), "/configured");
}

#[test]
fn legacy_pid_file_deserializes_without_claiming_ownership() {
    let legacy = PidFile {
        pid: 1,
        port: 4000,
        host: "127.0.0.1".to_string(),
        started_at: 1,
        executable: None,
        start_marker: None,
        instance_id: None,
    };
    assert!(!legacy.has_identity_evidence());
}

#[test]
fn wrap_keeps_every_word_in_order() {
    for (value, width) in [
        ("a short sentence that needs wrapping", 12),
        ("one\n\ntwo  three\tfour", 4),
        ("abcdefghijkl mn", 5),
        ("", 0),
    ] {
        let lines = wrap(value, width);
        let kept: String = lines.concat().chars().filter(|c| !c.is_whitespace()).collect();
        let given: String = value.chars().filter(|c| !c.is_whitespace()).collect();
        assert_eq!(kept, given);
    }
}
