use muxie::config::{
    split_words, default_true, default_version, Browser, Config, Notifications, PatternEntry,
    ValidationError, ValidationResult,
};

fn plain(name: &str, executable: &str, args: &[&str]) -> Browser {
    Browser {
        name: name.into(),
        executable: executable.into(),
        args: args.iter().map(|a| a.to_string()).collect(),
    }
}

#[test]
fn validate_detects_empty() {
    let cfg = Config {
        version: 1,
        browsers: vec![],
        patterns: vec![],
        notifications: Notifications::default(),
    };
    let res = cfg.validate(false);
    assert!(res.errors.iter().any(|e| e.code == "browsers.empty"));
}

#[test]
fn validate_duplicate_names_and_empty_exec() {
    let cfg = Config {
        version: 1,
        browsers: vec![
            Browser {
                name: "A".into(),
                executable: "".into(),
                args: vec![],
            },
            Browser {
                name: "A".into(),
                executable: "firefox".into(),
                args: vec![],
            },
        ],
        patterns: vec![],
        notifications: Notifications::default(),
    };
    let res = cfg.validate(false);
    assert!(res.errors.iter().any(|e| e.code == "browser.name.duplicate"));
    assert!(res.errors.iter().any(|e| e.code == "browser.executable.empty"));
}

#[test]
fn validate_browser_name_empty() {
    let cfg = Config {
        version: 1,
        browsers: vec![Browser {
            name: "   ".into(),
            executable: "firefox".into(),
            args: vec![],
        }],
        patterns: vec![],
        notifications: Notifications::default(),
    };
    let res = cfg.validate(false);
    assert!(res.errors.iter().any(|e| e.code == "browser.name.empty"));
}

#[test]
fn validate_pattern_entry_empty_and_newline() {
    let cfg = Config {
        version: 1,
        browsers: vec![Browser {
            name: "B".into(),
            executable: "firefox".into(),
            args: vec![],
        }],
        patterns: vec![
            PatternEntry {
                pattern: "".into(),
                browsers: vec!["B".into()],
            },
            PatternEntry {
                pattern: "foo\nbar".into(),
                browsers: vec!["B".into()],
            },
        ],
        notifications: Notifications::default(),
    };
    let res = cfg.validate(false);
    assert!(res.errors.iter().any(|e| e.code == "pattern.empty"));
    assert!(res.errors.iter().any(|e| e.code == "pattern.newline"));
}

#[test]
fn validation_result_print_format() {
    let res = ValidationResult {
        errors: vec![
            ValidationError {
                code: "code1".into(),
                message: "msg1".into(),
                path: Some("path1".into()),
            },
            ValidationError {
                code: "code2".into(),
                message: "msg2".into(),
                path: None,
            },
        ],
    };
    let mut buf = String::new();
    res.print_to(&mut buf);
    let s = buf;
    assert!(s.starts_with("Found 2 validation issue(s):\n"));
    assert!(s.contains("- code1: path1 — msg1\n"));
    assert!(s.contains("- code2: msg2\n"));
}

#[test]
fn print_to_renders_whole_report_exactly() {
    let res = ValidationResult {
        errors: vec![ValidationError {
            code: "c".into(),
            message: "m".into(),
            path: Some("p".into()),
        }],
    };
    let mut out = String::from(">");
    res.print_to(&mut out);
    assert_eq!(out, ">Found 1 validation issue(s):\n- c: p — m\n");
    let empty = ValidationResult { errors: vec![] };
    assert!(empty.is_empty());
    assert!(!res.is_empty());
}

#[test]
fn validate_reports_paths_and_messages_in_order() {
    let cfg = Config {
        version: 1,
        browsers: vec![
            plain("A", "a", &["%u"]),
            plain("A", " ", &["--x", "%f", "%U"]),
        ],
        patterns: vec![PatternEntry {
            pattern: " ".into(),
            browsers: vec!["A".into(), "Z".into()],
        }],
        notifications: Notifications::default(),
    };
    let res = cfg.validate(false);
    let got: Vec<(String, String, Option<String>)> = res
        .errors
        .iter()
        .map(|e| (e.code.clone(), e.message.clone(), e.path.clone()))
        .collect();
    assert_eq!(
        got,
        vec![
            (
                "browser.name.duplicate".to_string(),
                "Duplicate browser name: A".to_string(),
                Some("browsers[1].name".to_string())
            ),
            (
                "browser.executable.empty".to_string(),
                "Executable must not be empty".to_string(),
                Some("browsers[1].executable".to_string())
            ),
            (
                "browser.args.unsupported_placeholder".to_string(),
                "Unsupported placeholder in args: '%f' (only %u/%U allowed)".to_string(),
                Some("browsers[1].args[1]".to_string())
            ),
            (
                "pattern.empty".to_string(),
                "Pattern must not be empty".to_string(),
                Some("patterns[0].pattern".to_string())
            ),
        ]
    );
    let strict = cfg.validate(true);
    let last = strict.errors.last().unwrap();
    assert_eq!(last.code, "pattern.browser.unknown");
    assert_eq!(last.message, "Unknown browser in pattern: 'Z'");
    assert_eq!(last.path.as_deref(), Some("patterns[0].browsers[1]"));
}

#[test]
fn validate_strict_flags_unresolved_executables() {
    let cfg = Config {
        version: 1,
        browsers: vec![plain("A", "nowhere", &[]), plain("B", "", &[]), plain("C", "ok", &[])],
        patterns: vec![],
        notifications: Notifications::default(),
    };
    let res = cfg.validate_strict(&vec![false, false, true]);
    let last = res.errors.last().unwrap();
    assert_eq!(last.code, "browser.executable.not_found");
    assert_eq!(last.message, "Executable 'nowhere' not found in PATH");
    assert_eq!(last.path.as_deref(), Some("browsers[0].executable"));
    assert_eq!(
        res.errors.iter().filter(|e| e.code == "browser.executable.not_found").count(),
        1
    );
    let twelve: Vec<Browser> = (0..12).map(|i| plain(&format!("b{i}"), "", &[])).collect();
    let big = Config {
        version: 1,
        browsers: twelve,
        patterns: vec![],
        notifications: Notifications::default(),
    };
    let r = big.validate(false);
    assert_eq!(r.errors[11].path.as_deref(), Some("browsers[11].executable"));
}

#[test]
fn valid_config_has_no_findings() {
    let cfg = Config {
        version: 1,
        browsers: vec![plain("A", "firefox", &["--new-tab", "%U"])],
        patterns: vec![PatternEntry {
            pattern: "example.com".into(),
            browsers: vec!["A".into()],
        }],
        notifications: Notifications::default(),
    };
    assert!(cfg.validate(true).is_empty());
}

#[test]
fn defaults_are_true_and_version_one() {
    assert!(default_true());
    assert_eq!(default_version(), 1);
    let n = Notifications::default();
    assert!(n.enabled && n.redact_urls);
}

#[test]
fn command_args_substitute_or_append_url() {
    let b = plain("A", "firefox", &["--new-window", "%u"]);
    assert_eq!(b.command_args("https://x"), vec!["--new-window", "https://x"]);
    let c = plain("C", "chromium", &["--incognito"]);
    assert_eq!(c.command_args("https://x"), vec!["--incognito", "https://x"]);
    let d = plain("D", "d", &["%U", "%u"]);
    assert_eq!(d.command_args("u"), vec!["u", "u"]);
}

#[test]
fn desktop_entry_fields_give_browser() {
    assert_eq!(split_words("  firefox  %u\t-x "), vec!["firefox", "%u", "-x"]);
    assert!(split_words(" \n ").is_empty());
    let b = Browser::from_desktop_entry(
        Some("Firefox"),
        Some("/usr/bin/firefox %u"),
        Some("text/html;x-scheme-handler/http;x-scheme-handler/https;"),
    )
    .expect("a browser");
    assert_eq!(b.name, "Firefox");
    assert_eq!(b.executable, "/usr/bin/firefox");
    assert_eq!(b.args, vec!["%u".to_string()]);
    assert!(Browser::from_desktop_entry(Some("Viewer"), Some("viewer %f"), Some("image/png;")).is_none());
    assert!(Browser::from_desktop_entry(Some("Blank"), Some("   "), Some("x-scheme-handler/http")).is_none());
    assert!(Browser::from_desktop_entry(None, Some("x"), Some("x-scheme-handler/http")).is_none());
}
