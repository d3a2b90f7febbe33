use muxie::config::{Browser, Config, Notifications, PatternEntry};
use muxie::dispatch::{
    open_url_with, Action, Dispatch, DispatchError, Event, Notifier, Selector, SelectorReply,
    Stage, UrlOpener,
};
use muxie::notify::NotifyPrefs;
use std::cell::RefCell;
use std::collections::{HashMap, VecDeque};

#[derive(Clone, Default)]
struct TestPrefsCapture {
    enabled: bool,
}

struct FakeOpener {
    outcomes: RefCell<HashMap<String, VecDeque<Result<(), String>>>>,
    opens: RefCell<Vec<String>>,
}

impl FakeOpener {
    fn new() -> Self {
        Self {
            outcomes: RefCell::new(HashMap::new()),
            opens: RefCell::new(Vec::new()),
        }
    }
    fn queue_outcomes(&self, name: &str, outcomes: Vec<Result<(), String>>) {
        self.outcomes
            .borrow_mut()
            .insert(name.to_string(), outcomes.into_iter().collect());
    }
}

impl UrlOpener for FakeOpener {
    fn open(&self, browser: &Browser, _url: &str) -> Result<(), String> {
        self.opens.borrow_mut().push(browser.name.clone());
        let mut outcomes = self.outcomes.borrow_mut();
        if let Some(queue) = outcomes.get_mut(&browser.name) {
            if let Some(res) = queue.pop_front() {
                return res;
            }
        }
        Ok(())
    }
}

struct FakeNotifier {
    notifications: RefCell<Vec<(String, String, String, TestPrefsCapture)>>,
}

impl FakeNotifier {
    fn new() -> Self {
        Self {
            notifications: RefCell::new(Vec::new()),
        }
    }
}

impl Notifier for FakeNotifier {
    fn notify_error(
        &self,
        url: &str,
        rule: &str,
        browser: &str,
        error_summary: &str,
        prefs: &NotifyPrefs,
    ) {
        if !prefs.enabled {
            return;
        }
        self.notifications.borrow_mut().push((
            url.to_string(),
            rule.to_string(),
            browser.to_string(),
            TestPrefsCapture {
                enabled: prefs.enabled,
            },
        ));
        let _ = error_summary;
    }
}

fn browser(name: &str) -> Browser {
    Browser {
        name: name.to_string(),
        executable: name.to_lowercase(),
        args: vec!["%u".to_string()],
    }
}

fn cfg_with(browsers: Vec<Browser>, patterns: Vec<PatternEntry>) -> Config {
    Config {
        version: 1,
        browsers,
        patterns,
        notifications: Notifications::default(),
    }
}

struct SelectIdx(pub usize);
struct CancelSelector;
struct ErrorSelector;
struct NoopSelector;

impl Selector for SelectIdx {
    fn pick(&self, _t: &str, _m: &str, _o: &[String], _d: usize) -> Result<Option<usize>, String> {
        Ok(Some(self.0))
    }
}

impl Selector for CancelSelector {
    fn pick(&self, _t: &str, _m: &str, _o: &[String], _d: usize) -> Result<Option<usize>, String> {
        Ok(None)
    }
}

impl Selector for ErrorSelector {
    fn pick(&self, _t: &str, _m: &str, _o: &[String], _d: usize) -> Result<Option<usize>, String> {
        Err("boom".to_string())
    }
}

impl Selector for NoopSelector {
    fn pick(&self, _t: &str, _m: &str, _o: &[String], _d: usize) -> Result<Option<usize>, String> {
        Ok(None)
    }
}

fn rule(pattern: &str, names: &[&str]) -> PatternEntry {
    PatternEntry {
        pattern: pattern.into(),
        browsers: names.iter().map(|n| n.to_string()).collect(),
    }
}

#[test]
fn success_on_first_match() {
    let cfg = cfg_with(vec![browser("A"), browser("B")], vec![rule("example.com", &["A"])]);
    let opener = FakeOpener::new();
    opener.queue_outcomes("A", vec![Ok(())]);
    let notifier = FakeNotifier::new();
    let res = open_url_with(&cfg, &opener, &notifier, &NoopSelector, "https://www.example.com", false);
    assert!(res.is_ok());
    assert_eq!(opener.opens.borrow().as_slice(), ["A"]);
    assert!(notifier.notifications.borrow().is_empty());
}

#[test]
fn retry_on_failure_then_success() {
    let cfg = cfg_with(vec![browser("A"), browser("B")], vec![rule("example.com", &["A", "B"])]);
    let opener = FakeOpener::new();
    opener.queue_outcomes("A", vec![Err("fail A".to_string())]);
    opener.queue_outcomes("B", vec![Ok(())]);
    let notifier = FakeNotifier::new();
    let res = open_url_with(&cfg, &opener, &notifier, &SelectIdx(0), "https://www.example.com/x", false);
    assert!(res.is_ok());
    assert_eq!(opener.opens.borrow().as_slice(), ["A", "B"]);
    let notifies = notifier.notifications.borrow();
    assert_eq!(notifies.len(), 1);
    let (_url, rule, browser, _prefs) = &notifies[0];
    assert_eq!(rule, "example.com");
    assert_eq!(browser, "A");
}

#[test]
fn no_match_uses_default() {
    let cfg = cfg_with(vec![browser("A"), browser("B")], vec![rule("nope", &["B"])]);
    let opener = FakeOpener::new();
    opener.queue_outcomes("A", vec![Ok(())]);
    let notifier = FakeNotifier::new();
    let res = open_url_with(&cfg, &opener, &notifier, &NoopSelector, "https://example.com", false);
    assert!(res.is_ok());
    assert_eq!(opener.opens.borrow().as_slice(), ["A"]);
    assert!(notifier.notifications.borrow().is_empty());
}

#[test]
fn all_fail_with_match_triggers_notify_with_rule() {
    let cfg = cfg_with(vec![browser("A")], vec![rule("example.com", &["A"])]);
    let opener = FakeOpener::new();
    opener.queue_outcomes("A", vec![Err("first".to_string()), Err("default".to_string())]);
    let notifier = FakeNotifier::new();
    let res = open_url_with(&cfg, &opener, &notifier, &NoopSelector, "https://example.com", false);
    assert!(res.is_err());
    assert_eq!(opener.opens.borrow().as_slice(), ["A", "A"]);
    let notifies = notifier.notifications.borrow();
    assert_eq!(notifies.len(), 2);
    let (_url1, rule1, browser1, prefs1) = &notifies[0];
    assert_eq!(rule1, "example.com");
    assert_eq!(browser1, "A");
    assert!(prefs1.enabled);
    let (_url2, rule2, browser2, _prefs2) = &notifies[1];
    assert_eq!(rule2, "default");
    assert_eq!(browser2, "A");
}

#[test]
fn all_fail_no_match_triggers_notify_default_rule() {
    let cfg = cfg_with(vec![browser("A")], vec![rule("nope", &["A"])]);
    let opener = FakeOpener::new();
    opener.queue_outcomes("A", vec![Err("default".to_string())]);
    let notifier = FakeNotifier::new();
    let res = open_url_with(&cfg, &opener, &notifier, &NoopSelector, "https://example.com", false);
    assert!(res.is_err());
    assert_eq!(opener.opens.borrow().as_slice(), ["A"]);
    let notifies = notifier.notifications.borrow();
    assert_eq!(notifies.len(), 1);
    let (_url, rule, browser, _prefs) = &notifies[0];
    assert_eq!(rule, "default");
    assert_eq!(browser, "A");
}

#[test]
fn no_notify_flag_suppresses_notifications() {
    let cfg = cfg_with(vec![browser("A")], vec![rule("nope", &["A"])]);
    let opener = FakeOpener::new();
    opener.queue_outcomes("A", vec![Err("default".to_string())]);
    let notifier = FakeNotifier::new();
    let res = open_url_with(&cfg, &opener, &notifier, &NoopSelector, "https://example.com", true);
    assert!(res.is_err());
    assert!(notifier.notifications.borrow().is_empty());
}

#[test]
fn empty_browsers_errors() {
    let cfg = cfg_with(vec![], vec![]);
    let opener = FakeOpener::new();
    let notifier = FakeNotifier::new();
    let res = open_url_with(&cfg, &opener, &notifier, &NoopSelector, "https://example.com", false);
    assert!(res.is_err());
    assert!(opener.opens.borrow().is_empty());
    assert!(notifier.notifications.borrow().is_empty());
}

#[test]
fn unknown_browser_is_skipped_and_fallback_applies() {
    let cfg = cfg_with(vec![browser("A")], vec![rule("example.com", &["Missing", "A"])]);
    let opener = FakeOpener::new();
    let notifier = FakeNotifier::new();
    let res = open_url_with(&cfg, &opener, &notifier, &NoopSelector, "https://example.com", false);
    assert!(res.is_ok());
    assert_eq!(opener.opens.borrow().as_slice(), ["A"]);
}

#[test]
fn selection_reorders_attempts_and_wraps() {
    let cfg = cfg_with(
        vec![browser("A"), browser("B"), browser("C")],
        vec![rule("example.com", &["A", "B", "C"])],
    );
    let opener = FakeOpener::new();
    opener.queue_outcomes("B", vec![Err("fail B".to_string())]);
    opener.queue_outcomes("C", vec![Ok(())]);
    let notifier = FakeNotifier::new();
    let selector = SelectIdx(1);
    let res = open_url_with(&cfg, &opener, &notifier, &selector, "https://example.com", false);
    assert!(res.is_ok());
    assert_eq!(opener.opens.borrow().as_slice(), ["B", "C"]);
}

#[test]
fn cancel_aborts_no_attempt_and_no_notify() {
    let cfg = cfg_with(vec![browser("A"), browser("B")], vec![rule("example.com", &["A", "B"])]);
    let opener = FakeOpener::new();
    let notifier = FakeNotifier::new();
    let selector = CancelSelector;
    let res = open_url_with(&cfg, &opener, &notifier, &selector, "https://example.com", false);
    assert!(res.is_err());
    assert!(opener.opens.borrow().is_empty());
    assert!(notifier.notifications.borrow().is_empty());
}

#[test]
fn provider_error_falls_back_to_default_order() {
    let cfg = cfg_with(vec![browser("A"), browser("B")], vec![rule("example.com", &["A", "B"])]);
    let opener = FakeOpener::new();
    opener.queue_outcomes("A", vec![Ok(())]);
    let notifier = FakeNotifier::new();
    let selector = ErrorSelector;
    let res = open_url_with(&cfg, &opener, &notifier, &selector, "https://example.com", false);
    assert!(res.is_ok());
    assert_eq!(opener.opens.borrow().as_slice(), ["A"]);
}

#[test]
fn single_rule_single_browser_attempts_it_alone() {
    let cfg = cfg_with(vec![browser("A"), browser("B")], vec![rule("example.com", &["A"])]);
    let opener = FakeOpener::new();
    let notifier = FakeNotifier::new();
    let res = open_url_with(&cfg, &opener, &notifier, &NoopSelector, "https://www.example.com", false);
    assert_eq!(res, Ok(()));
    assert_eq!(opener.opens.borrow().as_slice(), ["A"]);
    assert!(notifier.notifications.borrow().is_empty());
}

#[test]
fn failing_rule_moves_on_to_next_matching_rule() {
    let cfg = cfg_with(
        vec![browser("A"), browser("B"), browser("C")],
        vec![rule("example", &["B"]), rule("nothing", &["A"]), rule(".com", &["C"])],
    );
    let opener = FakeOpener::new();
    opener.queue_outcomes("B", vec![Err("no B".to_string())]);
    let notifier = FakeNotifier::new();
    let res = open_url_with(&cfg, &opener, &notifier, &NoopSelector, "https://example.com", false);
    assert_eq!(res, Ok(()));
    assert_eq!(opener.opens.borrow().as_slice(), ["B", "C"]);
    let notifies = notifier.notifications.borrow();
    assert_eq!(notifies.len(), 1);
    assert_eq!(notifies[0].1, "example");
    assert_eq!(notifies[0].2, "B");
}

#[test]
fn default_failure_reports_all_failed() {
    let cfg = cfg_with(vec![browser("A")], vec![]);
    let opener = FakeOpener::new();
    opener.queue_outcomes("A", vec![Err("gone".to_string())]);
    let notifier = FakeNotifier::new();
    let res = open_url_with(&cfg, &opener, &notifier, &NoopSelector, "https://example.com", false);
    assert_eq!(
        res,
        Err(DispatchError::AllFailed {
            browser: "A".to_string(),
            reason: "gone".to_string()
        })
    );
    assert_eq!(notifier.notifications.borrow().len(), 1);
}

#[test]
fn empty_browsers_is_no_browsers_error() {
    let cfg = cfg_with(vec![], vec![rule("example.com", &["A"])]);
    let opener = FakeOpener::new();
    let notifier = FakeNotifier::new();
    let res = open_url_with(&cfg, &opener, &notifier, &NoopSelector, "https://example.com", false);
    assert_eq!(res, Err(DispatchError::NoBrowsers));
}

#[test]
fn cancel_is_distinct_from_other_failures() {
    let cfg = cfg_with(vec![browser("A"), browser("B")], vec![rule("example.com", &["A", "B"])]);
    let opener = FakeOpener::new();
    let notifier = FakeNotifier::new();
    let res = open_url_with(&cfg, &opener, &notifier, &CancelSelector, "https://example.com", false);
    assert_eq!(res, Err(DispatchError::Canceled));
    assert!(DispatchError::Canceled.message().starts_with("MUXIE:CANCELED"));
}

#[test]
fn config_disabled_notifications_suppress_but_keep_result() {
    let mut cfg = cfg_with(vec![browser("A"), browser("B")], vec![rule("example.com", &["A", "B"])]);
    cfg.notifications.enabled = false;
    let opener = FakeOpener::new();
    opener.queue_outcomes("A", vec![Err("fail A".to_string())]);
    let notifier = FakeNotifier::new();
    let res = open_url_with(&cfg, &opener, &notifier, &ErrorSelector, "https://example.com", false);
    assert_eq!(res, Ok(()));
    assert_eq!(opener.opens.borrow().as_slice(), ["A", "B"]);
    assert!(notifier.notifications.borrow().is_empty());
}

#[test]
fn out_of_range_selection_keeps_declared_order() {
    let cfg = cfg_with(vec![browser("A"), browser("B")], vec![rule("example.com", &["B", "A"])]);
    let opener = FakeOpener::new();
    let notifier = FakeNotifier::new();
    let res = open_url_with(&cfg, &opener, &notifier, &SelectIdx(7), "https://example.com", false);
    assert_eq!(res, Ok(()));
    assert_eq!(opener.opens.borrow().as_slice(), ["B"]);
}

#[test]
fn state_machine_asks_selector_with_redacted_message() {
    let cfg = cfg_with(vec![browser("A"), browser("B")], vec![rule("example.com", &["A", "B"])]);
    let (mut d, action) = Dispatch::begin(&cfg, "https://www.example.com/secret?x=1", false);
    assert_eq!(d.stage, Stage::Choosing);
    match action {
        Action::Choose { title, message, labels } => {
            assert_eq!(title, "Open with…");
            assert_eq!(message, "Choose a browser for: www.example.com");
            assert_eq!(labels, vec!["A".to_string(), "B".to_string()]);
        }
        _ => panic!("expected a selection request"),
    }
    let step = d.resume(Event::Chose(SelectorReply::Selected(1)));
    assert_eq!(step.action, Action::Launch { browser: 1 });
    let step = d.resume(Event::Launched(Err("x".to_string())));
    assert_eq!(step.action, Action::Launch { browser: 0 });
    let notice = step.notice.expect("a notice");
    assert_eq!(notice.rule, "example.com");
    assert_eq!(notice.browser, "B");
    assert_eq!(notice.error, "x");
    let step = d.resume(Event::Launched(Ok(())));
    assert_eq!(step.action, Action::Finish(Ok(())));
    assert_eq!(d.stage, Stage::Finished);
}

#[test]
fn state_machine_default_label_and_no_notice_when_disabled() {
    let cfg = cfg_with(vec![browser("A")], vec![]);
    let (mut d, action) = Dispatch::begin(&cfg, "https://example.com", true);
    assert_eq!(action, Action::Launch { browser: 0 });
    assert_eq!(d.stage, Stage::TryingDefault);
    let step = d.resume(Event::Launched(Err("e".to_string())));
    assert!(step.notice.is_none());
    let (mut d2, _) = Dispatch::begin(&cfg, "https://example.com", false);
    let step2 = d2.resume(Event::Launched(Err("e".to_string())));
    assert_eq!(step.action, step2.action);
    assert_eq!(step2.notice.expect("a notice").rule, "default");
}
