//! The dispatch engine: which browsers a URL goes to, in which order, and
//! what happens when a launch fails or the user cancels.
//!
//! `Dispatch` is a state machine. It hands out one `Action` at a time (ask
//! the user to choose, launch a browser, finish) and is told the outcome of
//! each by an `Event`. `open_url_with` runs it against a selector, a launcher
//! and a notifier.
use vstd::prelude::*;
use vstd::string::*;
use crate::config::{name_known, Browser, Config};
use crate::notify::{redact_url, redacted, NotifyPrefs};
use crate::pattern::{pattern_matches_url, url_matches};

verus! {

/// What the interactive selector answered.
#[derive(Clone, Copy, Debug, PartialEq, Eq)]
pub enum SelectorReply {
    /// The user picked the candidate at this index.
    Selected(usize),
    /// The user closed or cancelled the dialog.
    Canceled,
    /// No dialog could be shown.
    Unavailable,
}

/// Why a dispatch did not open the URL.
#[derive(Clone, Debug, PartialEq, Eq)]
pub enum DispatchError {
    /// The configuration lists no browser.
    NoBrowsers,
    /// The user cancelled the selection: nothing was launched.
    Canceled,
    /// Every candidate failed, the default browser last.
    AllFailed { browser: String, reason: String },
}

/// The text that marks a cancellation in an error message that crosses a
/// process boundary.
pub const CANCELED_ERR_MARKER: &'static str = "MUXIE:CANCELED";

/// The message of a dispatch error.
pub open spec fn error_message(e: DispatchError) -> Seq<char> {
    match e {
        DispatchError::NoBrowsers => "No browsers configured. Run 'muxie install' to set up the browsers."@,
        DispatchError::Canceled => CANCELED_ERR_MARKER@ + " Operation canceled by user"@,
        DispatchError::AllFailed { browser, reason } => "Failed to open URL with default browser '"@
            + browser@ + "': "@ + reason@,
    }
}

impl DispatchError {
    /// The human-readable message; a cancellation's starts with
    /// `CANCELED_ERR_MARKER`.
    pub fn message(&self) -> (r: String)
        ensures
            r@ == error_message(*self),
    {
        match self {
            DispatchError::NoBrowsers => String::from_str(
                "No browsers configured. Run 'muxie install' to set up the browsers.",
            ),
            DispatchError::Canceled => {
                let mut m = String::from_str(CANCELED_ERR_MARKER);
                m.append(" Operation canceled by user");
                m
            },
            DispatchError::AllFailed { browser, reason } => {
                let mut m = String::from_str("Failed to open URL with default browser '");
                m.append(browser.as_str());
                m.append("': ");
                m.append(reason.as_str());
                m
            },
        }
    }
}

/// Where a dispatch stands.
#[derive(Clone, Copy, Debug, PartialEq, Eq)]
pub enum Stage {
    /// Waiting for the selector to order the candidates of a rule.
    Choosing,
    /// Trying the candidates of a rule.
    Trying,
    /// Trying the default browser.
    TryingDefault,
    Finished,
}

/// What the engine asks its environment to do next.
#[derive(Debug, PartialEq)]
pub enum Action {
    /// Ask the user to pick one of `labels`; the first is preselected.
    Choose { title: String, message: String, labels: Vec<String> },
    /// Launch the browser at this index of the configuration.
    Launch { browser: usize },
    /// The dispatch is over, with this result.
    Finish(Result<(), DispatchError>),
}

/// The outcome of the last action.
#[derive(Debug, PartialEq)]
pub enum Event {
    Chose(SelectorReply),
    Launched(Result<(), String>),
}

/// A failed launch to report: the rule label (a pattern, or `default`), the
/// browser's name and the error.
#[derive(Clone, Debug, PartialEq)]
pub struct Notice {
    pub rule: String,
    pub browser: String,
    pub error: String,
}

/// What the engine does with one event: an optional notice and the next action.
#[derive(Debug, PartialEq)]
pub struct Step {
    pub notice: Option<Notice>,
    pub action: Action,
}

/// A dispatch of one URL against one configuration.
pub struct Dispatch<'a> {
    pub cfg: &'a Config,
    pub url: &'a str,
    pub prefs: NotifyPrefs,
    /// The rule being served; the number of rules once at the default browser.
    pub rule: usize,
    /// The candidates of that rule, as browser indices, in attempt order.
    pub order: Vec<usize>,
    /// The position in `order` of the candidate being tried.
    pub pos: usize,
    pub stage: Stage,
}

/// The state of a dispatch, over mathematical values.
pub struct DispatchView {
    pub rule: nat,
    pub order: Seq<usize>,
    pub pos: nat,
    pub stage: Stage,
}

/// An action, as the model plans it.
pub enum Planned {
    /// Ask the user to order these candidates.
    Choose(Seq<usize>),
    Launch(usize),
    Finish(Result<(), DispatchError>),
}

/// A notice over sequences of characters.
pub struct NoticeView {
    pub rule: Seq<char>,
    pub browser: Seq<char>,
    pub error: Seq<char>,
}

impl Notice {
    pub open spec fn view(&self) -> NoticeView {
        NoticeView { rule: self.rule@, browser: self.browser@, error: self.error@ }
    }
}

/// The index of the last browser before `n` called `name`, or -1.
pub open spec fn resolve(bs: Seq<Browser>, name: Seq<char>, n: nat) -> int
    decreases n,
{
    if n == 0 || n > bs.len() {
        -1
    } else if bs[n - 1].name@ == name {
        n - 1
    } else {
        resolve(bs, name, (n - 1) as nat)
    }
}

/// The browsers that the first `n` of `names` resolve to, in order; names
/// that no browser has are dropped.
pub open spec fn candidates(bs: Seq<Browser>, names: Seq<String>, n: nat) -> Seq<usize>
    decreases n,
{
    if n == 0 || n > names.len() {
        Seq::empty()
    } else {
        let prev = candidates(bs, names, (n - 1) as nat);
        let j = resolve(bs, names[n - 1]@, bs.len());
        if j >= 0 {
            prev.push(j as usize)
        } else {
            prev
        }
    }
}

/// The candidates of rule `r`.
pub open spec fn rule_candidates(cfg: Config, r: int) -> Seq<usize> {
    let names = cfg.patterns@[r].browsers@;
    candidates(cfg.browsers@, names, names.len())
}

/// Whether rule `r` applies to `url`: it lists browsers, its pattern matches
/// and at least one of its names resolves.
pub open spec fn fires(cfg: Config, url: Seq<char>, r: int) -> bool {
    let p = cfg.patterns@[r];
    p.browsers@.len() > 0 && url_matches(p.pattern@, url) && rule_candidates(cfg, r).len() > 0
}

/// The first rule at or after `r` that applies to `url`, or the number of rules.
pub open spec fn next_rule(cfg: Config, url: Seq<char>, r: nat) -> nat
    decreases cfg.patterns@.len() - r,
{
    if r >= cfg.patterns@.len() {
        cfg.patterns@.len()
    } else if fires(cfg, url, r as int) {
        r
    } else {
        next_rule(cfg, url, r + 1)
    }
}

/// `c` started at index `k`, wrapping around: `k, k+1, ..., 0, ..., k-1`.
pub open spec fn rotated(c: Seq<usize>, k: int) -> Seq<usize> {
    c.subrange(k, c.len() as int) + c.subrange(0, k)
}

/// The attempt order that a selector reply gives: from the chosen candidate
/// on, or the declared order when nothing valid was chosen.
pub open spec fn chosen_order(c: Seq<usize>, reply: SelectorReply) -> Seq<usize> {
    match reply {
        SelectorReply::Selected(k) => if k < c.len() {
            rotated(c, k as int)
        } else {
            c
        },
        _ => c,
    }
}

/// The title of the selection dialog.
pub open spec fn choose_title() -> Seq<char> {
    "Open with…"@
}

/// The message of the selection dialog for `url`.
pub open spec fn choose_message(url: Seq<char>) -> Seq<char> {
    "Choose a browser for: "@ + redacted(url)
}

/// Whether `a` carries out `p`.
pub open spec fn realizes(cfg: Config, url: Seq<char>, a: Action, p: Planned) -> bool {
    match p {
        Planned::Choose(c) => match a {
            Action::Choose { title, message, labels } => {
                &&& title@ == choose_title()
                &&& message@ == choose_message(url)
                &&& labels@.len() == c.len()
                &&& forall|i: int|
                    0 <= i < c.len() ==> (#[trigger] labels@[i])@ == cfg.browsers@[c[i] as int].name@
            },
            _ => false,
        },
        Planned::Launch(b) => a == Action::Launch { browser: b },
        Planned::Finish(res) => a == Action::Finish(res),
    }
}

/// The state and action on reaching the first rule at or after `r` that
/// applies, or the default browser when none does.
pub open spec fn enter(cfg: Config, url: Seq<char>, r: nat) -> (DispatchView, Planned) {
    let n = next_rule(cfg, url, r);
    if n >= cfg.patterns@.len() {
        (
            DispatchView {
                rule: cfg.patterns@.len(),
                order: Seq::empty(),
                pos: 0,
                stage: Stage::TryingDefault,
            },
            Planned::Launch(0),
        )
    } else {
        let c = rule_candidates(cfg, n as int);
        if c.len() == 1 {
            (DispatchView { rule: n, order: c, pos: 0, stage: Stage::Trying }, Planned::Launch(c[0]))
        } else {
            (DispatchView { rule: n, order: c, pos: 0, stage: Stage::Choosing }, Planned::Choose(c))
        }
    }
}

/// How a dispatch starts: it fails at once without browsers, else it goes to
/// the first rule that applies.
pub open spec fn started(cfg: Config, url: Seq<char>) -> (DispatchView, Planned) {
    if cfg.browsers@.len() == 0 {
        (
            DispatchView { rule: 0, order: Seq::empty(), pos: 0, stage: Stage::Finished },
            Planned::Finish(Err(DispatchError::NoBrowsers)),
        )
    } else {
        enter(cfg, url, 0)
    }
}

/// The notice for a failed launch, when notifications are enabled.
pub open spec fn notice_if(
    prefs: NotifyPrefs,
    rule: Seq<char>,
    browser: Seq<char>,
    error: Seq<char>,
) -> Option<NoticeView> {
    if prefs.enabled {
        Some(NoticeView { rule, browser, error })
    } else {
        None
    }
}

/// The next state, action and notice after event `e` in state `d`. An event
/// that does not answer the pending action changes nothing and repeats it. A
/// finished dispatch takes no events (`resume` requires it unfinished), so
/// its arm here is never used.
pub open spec fn advanced(
    cfg: Config,
    url: Seq<char>,
    prefs: NotifyPrefs,
    d: DispatchView,
    e: Event,
) -> (DispatchView, Planned, Option<NoticeView>) {
    let finished = DispatchView { rule: d.rule, order: d.order, pos: d.pos, stage: Stage::Finished };
    match d.stage {
        Stage::Choosing => match e {
            Event::Chose(SelectorReply::Canceled) => (
                finished,
                Planned::Finish(Err(DispatchError::Canceled)),
                None,
            ),
            Event::Chose(reply) => {
                let o = chosen_order(d.order, reply);
                (
                    DispatchView { rule: d.rule, order: o, pos: 0, stage: Stage::Trying },
                    Planned::Launch(o[0]),
                    None,
                )
            },
            Event::Launched(_) => (d, Planned::Choose(d.order), None),
        },
        Stage::Trying => match e {
            Event::Launched(Ok(())) => (finished, Planned::Finish(Ok(())), None),
            Event::Launched(Err(err)) => {
                let notice = notice_if(
                    prefs,
                    cfg.patterns@[d.rule as int].pattern@,
                    cfg.browsers@[d.order[d.pos as int] as int].name@,
                    err@,
                );
                if d.pos + 1 < d.order.len() {
                    (
                        DispatchView {
                            rule: d.rule,
                            order: d.order,
                            pos: d.pos + 1,
                            stage: Stage::Trying,
                        },
                        Planned::Launch(d.order[d.pos + 1 as int]),
                        notice,
                    )
                } else {
                    let next = enter(cfg, url, d.rule + 1);
                    (next.0, next.1, notice)
                }
            },
            Event::Chose(_) => (d, Planned::Launch(d.order[d.pos as int]), None),
        },
        Stage::TryingDefault => match e {
            Event::Launched(Ok(())) => (finished, Planned::Finish(Ok(())), None),
            Event::Launched(Err(err)) => (
                finished,
                Planned::Finish(
                    Err(DispatchError::AllFailed { browser: cfg.browsers@[0].name, reason: err }),
                ),
                notice_if(prefs, "default"@, cfg.browsers@[0].name@, err@),
            ),
            Event::Chose(_) => (d, Planned::Launch(0), None),
        },
        Stage::Finished => (d, Planned::Finish(Ok(())), None),
    }
}

/// The notification preferences in force: notifications are on when the
/// configuration enables them and the caller did not switch them off.
pub open spec fn effective_prefs(cfg: Config, no_notify: bool) -> NotifyPrefs {
    NotifyPrefs {
        enabled: cfg.notifications.enabled && !no_notify,
        redact_urls: cfg.notifications.redact_urls,
    }
}

proof fn lemma_resolve_bound(bs: Seq<Browser>, name: Seq<char>, n: nat)
    requires
        n <= bs.len(),
    ensures
        -1 <= resolve(bs, name, n) < n,
        resolve(bs, name, n) >= 0 ==> bs[resolve(bs, name, n)].name@ == name,
    decreases n,
{
    if n > 0 && bs[n - 1].name@ != name {
        lemma_resolve_bound(bs, name, (n - 1) as nat);
    }
}

proof fn lemma_candidates_bound(bs: Seq<Browser>, names: Seq<String>, n: nat)
    requires
        n <= names.len(),
    ensures
        forall|i: int|
            0 <= i < candidates(bs, names, n).len() ==> #[trigger] candidates(bs, names, n)[i]
                < bs.len(),
        candidates(bs, names, n).len() <= n,
    decreases n,
{
    if n > 0 {
        lemma_candidates_bound(bs, names, (n - 1) as nat);
        lemma_resolve_bound(bs, names[n - 1]@, bs.len());
    }
}

proof fn lemma_next_rule_bound(cfg: Config, url: Seq<char>, r: nat)
    ensures
        r <= cfg.patterns@.len() ==> r <= next_rule(cfg, url, r),
        next_rule(cfg, url, r) <= cfg.patterns@.len() || next_rule(cfg, url, r) == r,
        next_rule(cfg, url, r) < cfg.patterns@.len() ==> fires(cfg, url, next_rule(cfg, url, r) as int),
    decreases cfg.patterns@.len() - r,
{
    if r < cfg.patterns@.len() && !fires(cfg, url, r as int) {
        lemma_next_rule_bound(cfg, url, r + 1);
    }
}

/// The model of an optional notice.
pub open spec fn notice_view(o: Option<Notice>) -> Option<NoticeView> {
    match o {
        Some(n) => Some(n.view()),
        None => None,
    }
}

/// The last browser called `name`, if any.
fn resolve_name(bs: &Vec<Browser>, name: &String) -> (r: Option<usize>)
    ensures
        match r {
            Some(j) => j as int == resolve(bs@, name@, bs@.len()),
            None => resolve(bs@, name@, bs@.len()) == -1,
        },
{
    let mut n: usize = bs.len();
    while n > 0
        invariant
            n <= bs@.len(),
            resolve(bs@, name@, bs@.len()) == resolve(bs@, name@, n as nat),
        decreases n,
    {
        if bs[n - 1].name == *name {
            return Some(n - 1);
        }
        n = n - 1;
    }
    None
}

/// The candidates of rule `r`, as browser indices.
fn candidates_of(cfg: &Config, r: usize) -> (c: Vec<usize>)
    requires
        r < cfg.patterns@.len(),
    ensures
        c@ == rule_candidates(*cfg, r as int),
{
    let names = &cfg.patterns[r].browsers;
    let mut c: Vec<usize> = Vec::new();
    let mut k: usize = 0;
    while k < names.len()
        invariant
            k <= names@.len(),
            names@ == cfg.patterns@[r as int].browsers@,
            c@ == candidates(cfg.browsers@, names@, k as nat),
        decreases names@.len() - k,
    {
        match resolve_name(&cfg.browsers, &names[k]) {
            Some(j) => {
                c.push(j);
            },
            None => {},
        }
        k = k + 1;
    }
    c
}

/// The first rule at or after `r` that applies to `url`, with its
/// candidates; the number of rules and nothing when none applies.
fn first_firing_rule(cfg: &Config, url: &str, r: usize) -> (res: (usize, Vec<usize>))
    requires
        r <= cfg.patterns@.len(),
    ensures
        res.0 == next_rule(*cfg, url@, r as nat),
        res.0 < cfg.patterns@.len() ==> res.1@ == rule_candidates(*cfg, res.0 as int),
{
    let mut i: usize = r;
    while i < cfg.patterns.len()
        invariant
            r <= i <= cfg.patterns@.len(),
            next_rule(*cfg, url@, i as nat) == next_rule(*cfg, url@, r as nat),
        decreases cfg.patterns@.len() - i,
    {
        let p = &cfg.patterns[i];
        if p.browsers.len() > 0 && pattern_matches_url(p.pattern.as_str(), url) {
            let c = candidates_of(cfg, i);
            if c.len() > 0 {
                return (i, c);
            }
        }
        i = i + 1;
    }
    (i, Vec::new())
}

/// The selection request for candidates `c`.
fn choose_action(cfg: &Config, url: &str, c: &Vec<usize>) -> (a: Action)
    requires
        forall|i: int| 0 <= i < c@.len() ==> #[trigger] c@[i] < cfg.browsers@.len(),
    ensures
        realizes(*cfg, url@, a, Planned::Choose(c@)),
{
    let mut labels: Vec<String> = Vec::new();
    let mut i: usize = 0;
    while i < c.len()
        invariant
            i <= c@.len(),
            forall|k: int| 0 <= k < c@.len() ==> #[trigger] c@[k] < cfg.browsers@.len(),
            labels@.len() == i,
            forall|k: int|
                0 <= k < i ==> (#[trigger] labels@[k])@ == cfg.browsers@[c@[k] as int].name@,
        decreases c@.len() - i,
    {
        labels.push(cfg.browsers[c[i]].name.clone());
        i = i + 1;
    }
    let mut message = String::from_str("Choose a browser for: ");
    let host = redact_url(url);
    message.append(host.as_str());
    Action::Choose { title: String::from_str("Open with…"), message, labels }
}

/// The rank of a stage in the order in which a dispatch goes through them.
pub open spec fn stage_rank(s: Stage) -> nat {
    match s {
        Stage::Choosing => 3,
        Stage::Trying => 2,
        Stage::TryingDefault => 1,
        Stage::Finished => 0,
    }
}

impl<'a> Dispatch<'a> {
    pub open spec fn view(&self) -> DispatchView {
        DispatchView {
            rule: self.rule as nat,
            order: self.order@,
            pos: self.pos as nat,
            stage: self.stage,
        }
    }

    /// The state fits the configuration it serves.
    pub open spec fn wf(&self) -> bool {
        let cfg = *self.cfg;
        let nb = cfg.browsers@.len();
        let np = cfg.patterns@.len();
        &&& self.rule <= np
        &&& forall|i: int| 0 <= i < self.order@.len() ==> #[trigger] self.order@[i] < nb
        &&& match self.stage {
            Stage::Choosing => {
                &&& self.rule < np
                &&& self.order@ == rule_candidates(cfg, self.rule as int)
                &&& self.order@.len() >= 2
                &&& self.pos == 0
            },
            Stage::Trying => self.rule < np && self.pos < self.order@.len(),
            Stage::TryingDefault => nb > 0 && self.rule == np,
            Stage::Finished => true,
        }
    }

    /// Moves to the first rule at or after `r` that applies, or to the
    /// default browser.
    fn enter_rule(&mut self, r: usize) -> (a: Action)
        requires
            r <= old(self).cfg.patterns@.len(),
            old(self).cfg.browsers@.len() > 0,
        ensures
            final(self).cfg == old(self).cfg,
            final(self).url == old(self).url,
            final(self).prefs == old(self).prefs,
            final(self)@ == enter(*old(self).cfg, old(self).url@, r as nat).0,
            realizes(*old(self).cfg, old(self).url@, a, enter(*old(self).cfg, old(self).url@, r as nat).1),
            final(self).wf(),
    {
        let (n, c) = first_firing_rule(self.cfg, self.url, r);
        proof {
            lemma_next_rule_bound(*self.cfg, self.url@, r as nat);
        }
        if n >= self.cfg.patterns.len() {
            self.rule = self.cfg.patterns.len();
            self.order = Vec::new();
            self.pos = 0;
            self.stage = Stage::TryingDefault;
            return Action::Launch { browser: 0 };
        }
        proof {
            let names = self.cfg.patterns@[n as int].browsers@;
            lemma_candidates_bound(self.cfg.browsers@, names, names.len());
        }
        self.rule = n;
        self.pos = 0;
        if c.len() == 1 {
            let first = c[0];
            self.order = c;
            self.stage = Stage::Trying;
            Action::Launch { browser: first }
        } else {
            let a = choose_action(self.cfg, self.url, &c);
            self.order = c;
            self.stage = Stage::Choosing;
            a
        }
    }

    /// Starts dispatching `url` under `cfg`; `no_notify` switches
    /// notifications off for this dispatch.
    pub fn begin(cfg: &'a Config, url: &'a str, no_notify: bool) -> (r: (Dispatch<'a>, Action))
        ensures
            r.0.cfg == cfg,
            r.0.url == url,
            r.0.prefs == effective_prefs(*cfg, no_notify),
            r.0@ == started(*cfg, url@).0,
            realizes(*cfg, url@, r.1, started(*cfg, url@).1),
            r.0.wf(),
    {
        let prefs = NotifyPrefs {
            enabled: cfg.notifications.enabled && !no_notify,
            redact_urls: cfg.notifications.redact_urls,
        };
        let mut d = Dispatch {
            cfg,
            url,
            prefs,
            rule: 0,
            order: Vec::new(),
            pos: 0,
            stage: Stage::Finished,
        };
        if cfg.browsers.len() == 0 {
            return (d, Action::Finish(Err(DispatchError::NoBrowsers)));
        }
        let a = d.enter_rule(0);
        (d, a)
    }

    /// Takes the outcome of the pending action and says what comes next.
    pub fn resume(&mut self, e: Event) -> (s: Step)
        requires
            old(self).wf(),
            old(self).stage != Stage::Finished,
        ensures
            final(self).cfg == old(self).cfg,
            final(self).url == old(self).url,
            final(self).prefs == old(self).prefs,
            final(self)@ == advanced(*old(self).cfg, old(self).url@, old(self).prefs, old(self)@, e).0,
            realizes(
                *old(self).cfg,
                old(self).url@,
                s.action,
                advanced(*old(self).cfg, old(self).url@, old(self).prefs, old(self)@, e).1,
            ),
            notice_view(s.notice) == advanced(
                *old(self).cfg,
                old(self).url@,
                old(self).prefs,
                old(self)@,
                e,
            ).2,
            final(self).wf(),
    {
        match self.stage {
            Stage::Choosing => match e {
                Event::Chose(SelectorReply::Canceled) => {
                    self.stage = Stage::Finished;
                    Step { notice: None, action: Action::Finish(Err(DispatchError::Canceled)) }
                },
                Event::Chose(reply) => {
                    let n = self.order.len();
                    match reply {
                        SelectorReply::Selected(k) => {
                            if k < n {
                                let mut o: Vec<usize> = Vec::new();
                                let mut i: usize = k;
                                while i < n
                                    invariant
                                        k <= i <= n,
                                        n == self.order@.len(),
                                        o@ == self.order@.subrange(k as int, i as int),
                                    decreases n - i,
                                {
                                    o.push(self.order[i]);
                                    i = i + 1;
                                }
                                let mut j: usize = 0;
                                while j < k
                                    invariant
                                        j <= k < n,
                                        n == self.order@.len(),
                                        o@ == self.order@.subrange(k as int, n as int)
                                            + self.order@.subrange(0, j as int),
                                    decreases k - j,
                                {
                                    o.push(self.order[j]);
                                    j = j + 1;
                                }
                                assert(o@ =~= rotated(self.order@, k as int));
                                self.order = o;
                            }
                        },
                        _ => {},
                    }
                    self.pos = 0;
                    self.stage = Stage::Trying;
                    Step { notice: None, action: Action::Launch { browser: self.order[0] } }
                },
                Event::Launched(_) => {
                    let a = choose_action(self.cfg, self.url, &self.order);
                    Step { notice: None, action: a }
                },
            },
            Stage::Trying => match e {
                Event::Launched(Ok(())) => {
                    self.stage = Stage::Finished;
                    Step { notice: None, action: Action::Finish(Ok(())) }
                },
                Event::Launched(Err(err)) => {
                    let n = self.order.len();
                    let np = self.cfg.patterns.len();
                    let notice = if self.prefs.enabled {
                        Some(
                            Notice {
                                rule: self.cfg.patterns[self.rule].pattern.clone(),
                                browser: self.cfg.browsers[self.order[self.pos]].name.clone(),
                                error: err,
                            },
                        )
                    } else {
                        None
                    };
                    if self.pos + 1 < n {
                        self.pos = self.pos + 1;
                        Step { notice, action: Action::Launch { browser: self.order[self.pos] } }
                    } else {
                        let a = self.enter_rule(self.rule + 1);
                        Step { notice, action: a }
                    }
                },
                Event::Chose(_) => Step {
                    notice: None,
                    action: Action::Launch { browser: self.order[self.pos] },
                },
            },
            Stage::TryingDefault => match e {
                Event::Launched(Ok(())) => {
                    self.stage = Stage::Finished;
                    Step { notice: None, action: Action::Finish(Ok(())) }
                },
                Event::Launched(Err(err)) => {
                    self.stage = Stage::Finished;
                    let notice = if self.prefs.enabled {
                        Some(
                            Notice {
                                rule: String::from_str("default"),
                                browser: self.cfg.browsers[0].name.clone(),
                                error: err.clone(),
                            },
                        )
                    } else {
                        None
                    };
                    let failure = DispatchError::AllFailed {
                        browser: self.cfg.browsers[0].name.clone(),
                        reason: err,
                    };
                    Step { notice, action: Action::Finish(Err(failure)) }
                },
                Event::Chose(_) => Step { notice: None, action: Action::Launch { browser: 0 } },
            },
            Stage::Finished => Step { notice: None, action: Action::Finish(Ok(())) },
        }
    }
}

/// Launches a browser on a URL. Success means the process was started.
pub trait UrlOpener {
    fn open(&self, browser: &Browser, url: &str) -> Result<(), String>;
}

/// Reports a failed launch to the user, best effort.
pub trait Notifier {
    fn notify_error(
        &self,
        url: &str,
        rule: &str,
        browser: &str,
        error_summary: &str,
        prefs: &NotifyPrefs,
    );
}

/// Asks the user to pick one of `options`: `Ok(Some(i))` for a choice,
/// `Ok(None)` for a cancellation, `Err` when no dialog could be shown.
pub trait Selector {
    fn pick(
        &self,
        title: &str,
        message: &str,
        options: &[String],
        default_idx: usize,
    ) -> Result<Option<usize>, String>;
}

/// The reply that a selector's answer stands for.
pub fn selector_reply(answer: Result<Option<usize>, String>) -> (r: SelectorReply)
    ensures
        r == match answer {
            Ok(Some(i)) => SelectorReply::Selected(i),
            Ok(None) => SelectorReply::Canceled,
            Err(_) => SelectorReply::Unavailable,
        },
{
    match answer {
        Ok(Some(i)) => SelectorReply::Selected(i),
        Ok(None) => SelectorReply::Canceled,
        Err(_) => SelectorReply::Unavailable,
    }
}

/// Whether `a` is the action that a dispatch in state `d` waits on.
pub open spec fn pending(d: DispatchView, a: Action) -> bool {
    match a {
        Action::Finish(_) => d.stage == Stage::Finished,
        Action::Choose { .. } => d.stage == Stage::Choosing,
        Action::Launch { browser } => (d.stage == Stage::Trying && d.pos < d.order.len() && browser
            == d.order[d.pos as int]) || (d.stage == Stage::TryingDefault && browser == 0),
    }
}

/// Dispatches `url` under `config`: the first rule that applies gives the
/// candidates, the selector orders them when there are several, each is
/// launched in turn until one starts, the next applicable rule follows, and
/// the default browser comes last. Failed launches are reported through
/// `notifier` unless notifications are off (`no_notify` or the configuration).
pub fn open_url_with<O: UrlOpener, N: Notifier, S: Selector>(
    config: &Config,
    opener: &O,
    notifier: &N,
    selector: &S,
    url: &str,
    no_notify: bool,
) -> (r: Result<(), DispatchError>)
    ensures
        (r == Err::<(), DispatchError>(DispatchError::NoBrowsers)) <==> config.browsers@.len()
            == 0,
        r matches Err(DispatchError::AllFailed { browser, .. }) ==> browser
            == config.browsers@[0].name,
        exists|events: Seq<Event>|
            #[trigger] replay(*config, url@, effective_prefs(*config, no_notify), events).1
                == Planned::Finish(r),
{
    let ghost prefs = effective_prefs(*config, no_notify);
    let (mut d, mut action) = Dispatch::begin(config, url, no_notify);
    let ghost mut events: Seq<Event> = Seq::empty();
    loop
        invariant
            d.wf(),
            d.cfg == config,
            d.url == url,
            d.prefs == prefs,
            prefs == effective_prefs(*config, no_notify),
            pending(d@, action),
            replay(*config, url@, prefs, events).0 == d@,
            realizes(*config, url@, action, replay(*config, url@, prefs, events).1),
            action == Action::Finish(Err(DispatchError::NoBrowsers)) ==> config.browsers@.len()
                == 0,
            config.browsers@.len() == 0 ==> action == Action::Finish(
                Err(DispatchError::NoBrowsers),
            ),
            action matches Action::Finish(Err(DispatchError::AllFailed { browser, .. }))
                ==> browser == config.browsers@[0].name,
        decreases config.patterns@.len() - d.rule, stage_rank(d.stage), d.order@.len() - d.pos,
    {
        let ghost before = d@;
        let event = match action {
            Action::Finish(res) => {
                assert(replay(*config, url@, prefs, events).1 == Planned::Finish(res));
                return res;
            },
            Action::Choose { title, message, labels } => {
                let answer = selector.pick(title.as_str(), message.as_str(), labels.as_slice(), 0);
                Event::Chose(selector_reply(answer))
            },
            Action::Launch { browser } => Event::Launched(opener.open(&config.browsers[browser], url)),
        };
        let ghost seen = event;
        let step = d.resume(event);
        proof {
            lemma_next_rule_bound(*config, url@, before.rule + 1);
            let next = events.push(seen);
            assert(next.drop_last() =~= events);
            events = next;
        }
        match &step.notice {
            Some(n) => {
                notifier.notify_error(
                    url,
                    n.rule.as_str(),
                    n.browser.as_str(),
                    n.error.as_str(),
                    &d.prefs,
                );
            },
            None => {},
        }
        action = step.action;
    }
}

/// Notifications are off when the configuration or the caller turns them
/// off; with them off a dispatch goes through the same states and actions
/// and gives no notice.
pub proof fn lemma_notifications_do_not_steer(
    cfg: Config,
    url: Seq<char>,
    no_notify: bool,
    d: DispatchView,
    e: Event,
)
    ensures
        !effective_prefs(cfg, no_notify).enabled <==> (no_notify || !cfg.notifications.enabled),
        ({
            let on = effective_prefs(cfg, false);
            let off = NotifyPrefs { enabled: false, redact_urls: on.redact_urls };
            &&& advanced(cfg, url, off, d, e).0 == advanced(cfg, url, on, d, e).0
            &&& advanced(cfg, url, off, d, e).1 == advanced(cfg, url, on, d, e).1
            &&& advanced(cfg, url, off, d, e).2 is None
        }),
{
}

/// The state, the last planned action and the notices after a dispatch that
/// started as `started(cfg, url)` has been fed `events` in order; events
/// after it finished are ignored.
pub open spec fn replay(
    cfg: Config,
    url: Seq<char>,
    prefs: NotifyPrefs,
    events: Seq<Event>,
) -> (DispatchView, Planned, Seq<Option<NoticeView>>)
    decreases events.len(),
{
    if events.len() == 0 {
        let s = started(cfg, url);
        (s.0, s.1, Seq::empty())
    } else {
        let prev = replay(cfg, url, prefs, events.drop_last());
        if prev.0.stage == Stage::Finished {
            prev
        } else {
            let next = advanced(cfg, url, prefs, prev.0, events.last());
            (next.0, next.1, prev.2.push(next.2))
        }
    }
}

/// Whatever the launches and the selector do, a dispatch with notifications
/// off (by the caller's flag or by the configuration) goes through the same
/// states to the same result as one with them on, and gives no notice at all.
pub proof fn lemma_disabled_notifications_change_only_notices(
    cfg: Config,
    url: Seq<char>,
    no_notify: bool,
    events: Seq<Event>,
)
    requires
        no_notify || !cfg.notifications.enabled,
    ensures
        !effective_prefs(cfg, no_notify).enabled,
        replay(cfg, url, effective_prefs(cfg, no_notify), events).0 == replay(
            cfg,
            url,
            effective_prefs(cfg, false),
            events,
        ).0,
        replay(cfg, url, effective_prefs(cfg, no_notify), events).1 == replay(
            cfg,
            url,
            effective_prefs(cfg, false),
            events,
        ).1,
        forall|i: int|
            0 <= i < replay(cfg, url, effective_prefs(cfg, no_notify), events).2.len()
                ==> #[trigger] replay(cfg, url, effective_prefs(cfg, no_notify), events).2[i]
                is None,
    decreases events.len(),
{
    let off = effective_prefs(cfg, no_notify);
    let on = effective_prefs(cfg, false);
    if events.len() > 0 {
        lemma_disabled_notifications_change_only_notices(cfg, url, no_notify, events.drop_last());
        let prev = replay(cfg, url, off, events.drop_last());
        if prev.0.stage != Stage::Finished {
            lemma_notifications_do_not_steer(cfg, url, no_notify, prev.0, events.last());
            let next = advanced(cfg, url, off, prev.0, events.last());
            assert(off == NotifyPrefs { enabled: false, redact_urls: on.redact_urls });
            assert(next.2 is None);
            let all = prev.2.push(next.2);
            assert forall|i: int| 0 <= i < all.len() implies #[trigger] all[i] is None by {
                if i < prev.2.len() {
                    assert(all[i] == prev.2[i]);
                }
            }
        }
    }
}

proof fn lemma_resolve_finds_known(bs: Seq<Browser>, name: Seq<char>, n: nat, j: int)
    requires
        n <= bs.len(),
        0 <= j < n,
        bs[j].name@ == name,
    ensures
        j <= resolve(bs, name, n) < n,
    decreases n,
{
    if bs[n - 1].name@ != name {
        lemma_resolve_finds_known(bs, name, (n - 1) as nat, j);
    }
}

proof fn lemma_candidates_keep_known(bs: Seq<Browser>, names: Seq<String>, n: nat, k: int)
    requires
        n <= names.len(),
        0 <= k < n,
        name_known(bs, names[k]@),
    ensures
        candidates(bs, names, n).contains(resolve(bs, names[k]@, bs.len()) as usize),
    decreases n,
{
    let j = choose|j: int| 0 <= j < bs.len() && (#[trigger] bs[j]).name@ == names[k]@;
    lemma_resolve_finds_known(bs, names[k]@, bs.len(), j);
    let prev = candidates(bs, names, (n - 1) as nat);
    if k < n - 1 {
        lemma_candidates_keep_known(bs, names, (n - 1) as nat, k);
        let i = choose|i: int| 0 <= i < prev.len() && prev[i] == resolve(bs, names[k]@, bs.len()) as usize;
        let cur = candidates(bs, names, n);
        if resolve(bs, names[n - 1]@, bs.len()) >= 0 {
            assert(cur[i] == prev[i]);
        }
    } else {
        let cur = candidates(bs, names, n);
        assert(cur[cur.len() - 1] == resolve(bs, names[k]@, bs.len()) as usize);
    }
}

/// Names in a rule that no browser has are dropped without failing the
/// rule: every name that a browser has contributes that browser to the
/// candidates, so a rule that matches and lists one known name applies.
pub proof fn lemma_unknown_names_are_skipped(cfg: Config, url: Seq<char>, r: int, k: int)
    requires
        0 <= r < cfg.patterns@.len(),
        0 <= k < cfg.patterns@[r].browsers@.len(),
        name_known(cfg.browsers@, cfg.patterns@[r].browsers@[k]@),
        url_matches(cfg.patterns@[r].pattern@, url),
    ensures
        rule_candidates(cfg, r).contains(
            resolve(
                cfg.browsers@,
                cfg.patterns@[r].browsers@[k]@,
                cfg.browsers@.len(),
            ) as usize,
        ),
        fires(cfg, url, r),
{
    let names = cfg.patterns@[r].browsers@;
    lemma_candidates_keep_known(cfg.browsers@, names, names.len(), k);
}

/// When no rule applies, the default browser is tried first: its success
/// ends the dispatch with no notice, its failure ends it with `AllFailed` and
/// one notice labelled `default` (when notifications are on).
pub proof fn lemma_no_match_uses_default(cfg: Config, url: Seq<char>, prefs: NotifyPrefs, err: String)
    requires
        cfg.browsers@.len() > 0,
        next_rule(cfg, url, 0) == cfg.patterns@.len(),
    ensures
        started(cfg, url).0.stage == Stage::TryingDefault,
        started(cfg, url).1 == Planned::Launch(0),
        advanced(cfg, url, prefs, started(cfg, url).0, Event::Launched(Ok(()))).1
            == Planned::Finish(Ok(())),
        advanced(cfg, url, prefs, started(cfg, url).0, Event::Launched(Ok(()))).2 is None,
        advanced(cfg, url, prefs, started(cfg, url).0, Event::Launched(Err(err))).1
            == Planned::Finish(
            Err(DispatchError::AllFailed { browser: cfg.browsers@[0].name, reason: err }),
        ),
        advanced(cfg, url, prefs, started(cfg, url).0, Event::Launched(Err(err))).2 == notice_if(
            prefs,
            "default"@,
            cfg.browsers@[0].name@,
            err@,
        ),
{
}

/// A cancelled selection ends the whole dispatch at once with `Canceled`:
/// no launch follows and no notice is given.
pub proof fn lemma_cancel_aborts(cfg: Config, url: Seq<char>, prefs: NotifyPrefs, d: DispatchView)
    requires
        d.stage == Stage::Choosing,
    ensures
        advanced(cfg, url, prefs, d, Event::Chose(SelectorReply::Canceled)).0.stage
            == Stage::Finished,
        advanced(cfg, url, prefs, d, Event::Chose(SelectorReply::Canceled)).1 == Planned::Finish(
            Err(DispatchError::Canceled),
        ),
        advanced(cfg, url, prefs, d, Event::Chose(SelectorReply::Canceled)).2 is None,
{
}

} // verus!
