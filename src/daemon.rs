//! The daemon session: one shared configuration that `open_url` dispatches
//! against and `reload_config` replaces wholesale, and the watcher that
//! turns bursts of file-system events into single reloads.
use vstd::prelude::*;
use crate::config::{Config, ConfigError};
use crate::notify::NotifyPrefs;
use vstd::utf8::{decode_utf8, valid_utf8};
use crate::dispatch::{
    effective_prefs, error_message, open_url_with, replay, started, DispatchError, Event,
    Notifier, Planned, Selector, UrlOpener,
};
use crate::text::{is_blank, trim_str, trimmed};

verus! {

/// Why an `OpenURL` request failed.
#[derive(Clone, Debug, PartialEq, Eq)]
pub enum DaemonError {
    /// The URL was empty once trimmed.
    InvalidInput,
    /// The user cancelled; callers must not fall back to another path.
    Canceled,
    /// Any other failure, with its message.
    Failed(String),
}

/// Whether `r` is what `OpenURL` answers for a dispatch that ended with `d`.
pub open spec fn answers(d: Result<(), DispatchError>, r: Result<(), DaemonError>) -> bool {
    match d {
        Ok(()) => r == Ok::<(), DaemonError>(()),
        Err(DispatchError::Canceled) => r == Err::<(), DaemonError>(DaemonError::Canceled),
        Err(e) => r matches Err(DaemonError::Failed(m)) && m@ == error_message(e),
    }
}

/// The answer to an `OpenURL` request whose dispatch ended with `d`: a
/// cancellation keeps its own marker, other failures carry their message.
pub fn daemon_reply(d: Result<(), DispatchError>) -> (r: Result<(), DaemonError>)
    ensures
        answers(d, r),
{
    match d {
        Ok(()) => Ok(()),
        Err(DispatchError::Canceled) => Err(DaemonError::Canceled),
        Err(e) => Err(DaemonError::Failed(e.message())),
    }
}

/// The configuration after a reload attempt, and whether it was replaced.
pub open spec fn reloaded(cfg: Config, loaded: Result<Config, ConfigError>) -> (Config, bool) {
    match loaded {
        Ok(c) => (c, true),
        Err(_) => (cfg, false),
    }
}

/// The daemon's state: the configuration it serves and its flags. The
/// process holds it behind one lock, for whole dispatches and reloads alike.
pub struct MuxieDaemon {
    pub cfg: Config,
    pub no_notify: bool,
    pub verbose: u8,
}

impl MuxieDaemon {
    pub fn new(cfg: Config, no_notify: bool, verbose: u8) -> (r: MuxieDaemon)
        ensures
            r.cfg == cfg,
            r.no_notify == no_notify,
            r.verbose == verbose,
    {
        MuxieDaemon { cfg, no_notify, verbose }
    }

    /// Serves `OpenURL`: a URL that is blank once trimmed is refused;
    /// otherwise the trimmed URL is dispatched against the current
    /// configuration.
    pub fn open_url<O: UrlOpener, N: Notifier, S: Selector>(
        &self,
        url: &str,
        opener: &O,
        notifier: &N,
        selector: &S,
    ) -> (r: Result<(), DaemonError>)
        ensures
            (r == Err::<(), DaemonError>(DaemonError::InvalidInput)) <==> is_blank(url@),
            !is_blank(url@) && self.cfg.browsers@.len() == 0 ==> answers(
                Err(DispatchError::NoBrowsers),
                r,
            ),
            !is_blank(url@) ==> exists|d: Result<(), DispatchError>, events: Seq<Event>|
                #[trigger] replay(
                    self.cfg,
                    trimmed(url@),
                    effective_prefs(self.cfg, self.no_notify),
                    events,
                ).1 == Planned::Finish(d) && #[trigger] answers(d, r),
    {
        let trimmed_url = trim_str(url);
        proof {
            crate::text::lemma_trimmed(url@);
        }
        if trimmed_url.is_empty() {
            return Err(DaemonError::InvalidInput);
        }
        let d = open_url_with(
            &self.cfg,
            opener,
            notifier,
            selector,
            trimmed_url,
            self.no_notify,
        );
        let r = daemon_reply(d);
        proof {
            let events = choose|events: Seq<Event>|
                #[trigger] replay(
                    self.cfg,
                    trimmed_url@,
                    effective_prefs(self.cfg, self.no_notify),
                    events,
                ).1 == Planned::Finish(d);
            assert(replay(
                self.cfg,
                trimmed(url@),
                effective_prefs(self.cfg, self.no_notify),
                events,
            ).1 == Planned::Finish(d) && answers(d, r));
        }
        r
    }

    /// Serves `ReloadConfig` with the outcome of loading the configuration
    /// again: a loaded configuration replaces the current one wholesale; a
    /// failure leaves everything as it was. Returns whether it replaced.
    pub fn reload_config(&mut self, loaded: Result<Config, ConfigError>) -> (r: bool)
        ensures
            (final(self).cfg, r) == reloaded(old(self).cfg, loaded),
            final(self).no_notify == old(self).no_notify,
            final(self).verbose == old(self).verbose,
    {
        match loaded {
            Ok(c) => {
                self.cfg = c;
                true
            },
            Err(_) => false,
        }
    }
}

/// A reload that fails answers `false` and keeps the configuration, so a
/// later dispatch of any URL, whatever the launches and the selector answer,
/// goes through the same states to the same result as before.
pub proof fn lemma_failed_reload_keeps_routing(
    cfg: Config,
    e: ConfigError,
    url: Seq<char>,
    prefs: NotifyPrefs,
    events: Seq<Event>,
)
    ensures
        reloaded(cfg, Err(e)).1 == false,
        reloaded(cfg, Err(e)).0 == cfg,
        started(reloaded(cfg, Err(e)).0, url) == started(cfg, url),
        replay(reloaded(cfg, Err(e)).0, url, prefs, events) == replay(cfg, url, prefs, events),
{
}

/// A path that a file-system event names, with its last component.
#[derive(Clone, Debug, PartialEq, Eq)]
pub struct EventPath {
    /// The path as text; `None` when it is not valid Unicode, so that it
    /// cannot be compared as text.
    pub path: Option<String>,
    /// The last component as text; `None` when there is none or it is not
    /// valid Unicode.
    pub file_name: Option<String>,
}

/// Whether `p` is the configuration file: the same path, or the same file name.
pub open spec fn names_config(p: EventPath, cfg_path: Seq<char>, target: Option<Seq<char>>) -> bool {
    (match p.path {
        Some(x) => x@ == cfg_path,
        None => false,
    }) || match target {
        Some(t) => match p.file_name {
            Some(f) => f@ == t,
            None => false,
        },
        None => false,
    }
}

/// Whether an event concerns the configuration file: one of its paths is the
/// file's path, or has the file's name.
pub fn event_is_relevant(paths: &Vec<EventPath>, cfg_path: &str, target_name: Option<&str>) -> (r:
    bool)
    ensures
        r == exists|i: int|
            0 <= i < paths@.len() && names_config(
                #[trigger] paths@[i],
                cfg_path@,
                match target_name {
                    Some(t) => Some(t@),
                    None => None,
                },
            ),
{
    let ghost target = match target_name {
        Some(t) => Some(t@),
        None => None,
    };
    let mut i: usize = 0;
    while i < paths.len()
        invariant
            i <= paths@.len(),
            target == match target_name {
                Some(t) => Some(t@),
                None => None::<Seq<char>>,
            },
            forall|k: int| 0 <= k < i ==> !names_config(#[trigger] paths@[k], cfg_path@, target),
        decreases paths@.len() - i,
    {
        let p = &paths[i];
        let same_path = match &p.path {
            Some(x) => crate::text::same_str(x.as_str(), cfg_path),
            None => false,
        };
        let same_name = match target_name {
            Some(t) => match &p.file_name {
                Some(f) => crate::text::same_str(f.as_str(), t),
                None => false,
            },
            None => false,
        };
        if same_path || same_name {
            assert(names_config(paths@[i as int], cfg_path@, target));
            return true;
        }
        i = i + 1;
    }
    false
}

/// An input to the configuration watcher. Times are milliseconds on a
/// monotonic clock.
#[derive(Clone, Copy, Debug, PartialEq, Eq)]
pub enum WatchInput {
    /// A file-system event (or an error from the watcher, which is never
    /// relevant).
    Event { relevant: bool, now: u64 },
    /// No event came within the poll interval.
    Timeout { now: u64 },
    /// The event source is gone.
    Closed,
}

/// What the watcher loop does next.
#[derive(Clone, Copy, Debug, PartialEq, Eq)]
pub enum WatchAction {
    /// Keep waiting for events.
    Wait,
    /// Reload the configuration once, then keep waiting.
    Reload,
    /// Stop watching.
    Stop,
    /// Reload the configuration once, then stop.
    ReloadAndStop,
}

/// The debouncing state of the configuration watcher: a coalescing window
/// opens at the first relevant event and closes, with one reload, once no
/// relevant event came for `quiet_ms` or `ceiling_ms` passed since it opened.
#[derive(Clone, Copy, Debug, PartialEq, Eq)]
pub struct ConfigWatcher {
    pub quiet_ms: u64,
    pub ceiling_ms: u64,
    pub poll_ms: u64,
    /// When the open window started, and when its last relevant event came.
    pub window: Option<(u64, u64)>,
}

/// Time from `from` to `now`; nothing when the clock reads earlier.
pub open spec fn elapsed(from: u64, now: u64) -> int {
    if now >= from {
        now - from
    } else {
        0
    }
}

/// Whether the window `(start, last)` closes at `now`.
pub open spec fn window_closes(w: ConfigWatcher, start: u64, last: u64, now: u64) -> bool {
    elapsed(last, now) >= w.quiet_ms || elapsed(start, now) >= w.ceiling_ms
}

/// The watcher's next state and action after `input`. Every input that
/// comes while a window is open closes it, with one reload, once the quiet
/// period has passed since the last relevant event or the ceiling since the
/// window opened.
pub open spec fn watch_step(w: ConfigWatcher, input: WatchInput) -> (ConfigWatcher, WatchAction) {
    let idle = ConfigWatcher { window: None, ..w };
    match w.window {
        None => match input {
            WatchInput::Event { relevant, now } => if relevant {
                (ConfigWatcher { window: Some((now, now)), ..w }, WatchAction::Wait)
            } else {
                (w, WatchAction::Wait)
            },
            WatchInput::Timeout { .. } => (w, WatchAction::Wait),
            WatchInput::Closed => (w, WatchAction::Stop),
        },
        Some((start, last)) => match input {
            WatchInput::Event { relevant, now } => {
                let latest = if relevant {
                    now
                } else {
                    last
                };
                if window_closes(w, start, latest, now) {
                    (idle, WatchAction::Reload)
                } else {
                    (ConfigWatcher { window: Some((start, latest)), ..w }, WatchAction::Wait)
                }
            },
            WatchInput::Timeout { now } => if window_closes(w, start, last, now) {
                (idle, WatchAction::Reload)
            } else {
                (w, WatchAction::Wait)
            },
            WatchInput::Closed => (idle, WatchAction::ReloadAndStop),
        },
    }
}

/// Whether `a` makes the loop reload.
pub open spec fn reloads(a: WatchAction) -> bool {
    a == WatchAction::Reload || a == WatchAction::ReloadAndStop
}

/// The state after `inputs`, and how many reloads they caused.
pub open spec fn run_watch(w: ConfigWatcher, inputs: Seq<WatchInput>) -> (ConfigWatcher, nat)
    decreases inputs.len(),
{
    if inputs.len() == 0 {
        (w, 0)
    } else {
        let before = run_watch(w, inputs.drop_last());
        let step = watch_step(before.0, inputs.last());
        (step.0, before.1 + if reloads(step.1) {
            1nat
        } else {
            0nat
        })
    }
}

impl ConfigWatcher {
    /// A watcher with no open window.
    pub fn new(quiet_ms: u64, ceiling_ms: u64, poll_ms: u64) -> (r: ConfigWatcher)
        ensures
            r == (ConfigWatcher { quiet_ms, ceiling_ms, poll_ms, window: None }),
    {
        ConfigWatcher { quiet_ms, ceiling_ms, poll_ms, window: None }
    }

    /// How long the loop may wait for the next event: without limit when no
    /// window is open, `poll_ms` otherwise.
    pub fn poll_interval(&self) -> (r: Option<u64>)
        ensures
            r == (if self.window is Some {
                Some(self.poll_ms)
            } else {
                None::<u64>
            }),
    {
        match self.window {
            Some(_) => Some(self.poll_ms),
            None => None,
        }
    }

    /// Whether the window `(start, last)` closes at `now`.
    fn closes(quiet_ms: u64, ceiling_ms: u64, start: u64, last: u64, now: u64) -> (r: bool)
        ensures
            r == (elapsed(last, now) >= quiet_ms || elapsed(start, now) >= ceiling_ms),
    {
        let quiet = if now >= last {
            now - last >= quiet_ms
        } else {
            0 >= quiet_ms
        };
        let ceiling = if now >= start {
            now - start >= ceiling_ms
        } else {
            0 >= ceiling_ms
        };
        quiet || ceiling
    }

    /// Takes one input and says what the loop does next.
    pub fn on_input(&mut self, input: WatchInput) -> (r: WatchAction)
        ensures
            (*final(self), r) == watch_step(*old(self), input),
    {
        match self.window {
            None => match input {
                WatchInput::Event { relevant, now } => {
                    if relevant {
                        self.window = Some((now, now));
                    }
                    WatchAction::Wait
                },
                WatchInput::Timeout { .. } => WatchAction::Wait,
                WatchInput::Closed => WatchAction::Stop,
            },
            Some((start, last)) => match input {
                WatchInput::Event { relevant, now } => {
                    let latest = if relevant {
                        now
                    } else {
                        last
                    };
                    if Self::closes(self.quiet_ms, self.ceiling_ms, start, latest, now) {
                        self.window = None;
                        WatchAction::Reload
                    } else {
                        self.window = Some((start, latest));
                        WatchAction::Wait
                    }
                },
                WatchInput::Timeout { now } => {
                    if Self::closes(self.quiet_ms, self.ceiling_ms, start, last, now) {
                        self.window = None;
                        WatchAction::Reload
                    } else {
                        WatchAction::Wait
                    }
                },
                WatchInput::Closed => {
                    self.window = None;
                    WatchAction::ReloadAndStop
                },
            },
        }
    }
}

/// The time an input carries (none for `Closed`, read as 0).
pub open spec fn input_time(i: WatchInput) -> u64 {
    match i {
        WatchInput::Event { now, .. } => now,
        WatchInput::Timeout { now } => now,
        WatchInput::Closed => 0,
    }
}

/// Whether an input is a relevant event.
pub open spec fn is_relevant(i: WatchInput) -> bool {
    i matches WatchInput::Event { relevant: true, .. }
}

/// The time of the last relevant event among the first `k` inputs (0 if none).
pub open spec fn last_relevant_time(ins: Seq<WatchInput>, k: nat) -> u64
    decreases k,
{
    if k == 0 || k > ins.len() {
        0
    } else if is_relevant(ins[k - 1]) {
        input_time(ins[k - 1])
    } else {
        last_relevant_time(ins, (k - 1) as nat)
    }
}

/// Whether `ins` is one burst of writes for `w`: it starts with a relevant
/// event, the source stays open, every input comes before the ceiling since
/// that first event, and every input other than a relevant event comes
/// within the quiet period after the last relevant event before it.
pub open spec fn is_burst(w: ConfigWatcher, ins: Seq<WatchInput>) -> bool {
    &&& ins.len() >= 1
    &&& is_relevant(ins[0])
    &&& forall|k: int|
        0 <= k < ins.len() ==> {
            &&& !(#[trigger] ins[k] is Closed)
            &&& elapsed(input_time(ins[0]), input_time(ins[k])) < w.ceiling_ms
            &&& !is_relevant(ins[k]) ==> elapsed(last_relevant_time(ins, k as nat), input_time(ins[k]))
                < w.quiet_ms
        }
}

proof fn lemma_burst_keeps_window(w: ConfigWatcher, ins: Seq<WatchInput>, k: nat)
    requires
        w.window is None,
        w.quiet_ms > 0,
        is_burst(w, ins),
        1 <= k <= ins.len(),
    ensures
        run_watch(w, ins.subrange(0, k as int)).1 == 0,
        run_watch(w, ins.subrange(0, k as int)).0 == (ConfigWatcher {
            window: Some((input_time(ins[0]), last_relevant_time(ins, k))),
            ..w
        }),
    decreases k,
{
    let pre = ins.subrange(0, k as int);
    assert(pre.drop_last() =~= ins.subrange(0, k - 1));
    assert(pre.last() == ins[k - 1]);
    assert(!(ins[k - 1] is Closed));
    if k == 1 {
        assert(ins.subrange(0, 0) =~= Seq::<WatchInput>::empty());
    } else {
        lemma_burst_keeps_window(w, ins, (k - 1) as nat);
    }
}

/// However many inputs a burst of writes holds (relevant events, other
/// events, poll timeouts), none of them causes a reload; the first input
/// after it that reaches the quiet period or the ceiling causes exactly one,
/// and leaves no window open.
pub proof fn lemma_burst_reloads_once(w: ConfigWatcher, ins: Seq<WatchInput>, next: WatchInput)
    requires
        w.window is None,
        w.quiet_ms > 0,
        is_burst(w, ins),
        !(next is Closed),
        ({
            let latest = if is_relevant(next) {
                input_time(next)
            } else {
                last_relevant_time(ins, ins.len())
            };
            window_closes(w, input_time(ins[0]), latest, input_time(next))
        }),
    ensures
        run_watch(w, ins).1 == 0,
        run_watch(w, ins.push(next)).1 == 1,
        run_watch(w, ins.push(next)).0.window is None,
{
    lemma_burst_keeps_window(w, ins, ins.len());
    assert(ins.subrange(0, ins.len() as int) =~= ins);
    assert(ins.push(next).drop_last() =~= ins);
}

/// A window that has been open for the ceiling closes, with one reload, at
/// the next input, whatever it is.
pub proof fn lemma_ceiling_closes_window(w: ConfigWatcher, input: WatchInput)
    requires
        w.window matches Some((start, _)) && (input is Closed || elapsed(start, input_time(input))
            >= w.ceiling_ms),
    ensures
        reloads(watch_step(w, input).1),
        watch_step(w, input).0.window is None,
{
}

/// Why the bytes that a client sent are not a URL to open.
#[derive(Clone, Copy, Debug, PartialEq, Eq)]
pub enum UrlReadError {
    /// More bytes than the daemon accepts.
    TooLarge,
    /// No bytes at all.
    Empty,
    /// The bytes are not UTF-8.
    NotUtf8,
}

/// Relies on `String::from_utf8`: it succeeds exactly when the bytes are
/// valid UTF-8, and then holds the characters they encode.
#[verifier::external_body]
fn string_from_utf8(bytes: Vec<u8>) -> (r: Option<String>)
    ensures
        r is Some <==> valid_utf8(bytes@),
        r matches Some(s) ==> s@ == decode_utf8(bytes@),
{
    String::from_utf8(bytes).ok()
}

/// The URL that a client sent as `bytes`: at most `cap` bytes, at least one,
/// and valid UTF-8.
pub fn url_from_bytes(bytes: Vec<u8>, cap: usize) -> (r: Result<String, UrlReadError>)
    ensures
        bytes@.len() > cap ==> r == Err::<String, UrlReadError>(UrlReadError::TooLarge),
        bytes@.len() == 0 ==> r == Err::<String, UrlReadError>(UrlReadError::Empty),
        0 < bytes@.len() <= cap && !valid_utf8(bytes@) ==> r == Err::<String, UrlReadError>(
            UrlReadError::NotUtf8,
        ),
        0 < bytes@.len() <= cap && valid_utf8(bytes@) ==> (r matches Ok(s) && s@ == decode_utf8(
            bytes@,
        )),
{
    if bytes.len() > cap {
        return Err(UrlReadError::TooLarge);
    }
    if bytes.len() == 0 {
        return Err(UrlReadError::Empty);
    }
    match string_from_utf8(bytes) {
        Some(s) => Ok(s),
        None => Err(UrlReadError::NotUtf8),
    }
}

} // verus!
