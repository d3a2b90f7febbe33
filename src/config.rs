//! The configuration store: browsers, pattern rules and notification
//! preferences, with the advisory checks that `validate` reports.
use vstd::prelude::*;
use vstd::string::*;
use crate::text::{decimal, is_blank, is_blank_str, push_decimal};

verus! {

/// A browser that URLs can be handed to.
#[derive(Clone, Debug, PartialEq)]
pub struct Browser {
    /// Unique key of the browser within a configuration.
    pub name: String,
    pub executable: String,
    /// Arguments; `%u` or `%U` stands for the URL, which is appended when
    /// neither occurs.
    pub args: Vec<String>,
}

/// A rule: URLs that match `pattern` go to one of `browsers`, in order.
#[derive(Clone, Debug, PartialEq)]
pub struct PatternEntry {
    pub pattern: String,
    pub browsers: Vec<String>,
}

/// Notification preferences.
#[derive(Clone, Copy, Debug, PartialEq, Eq)]
pub struct Notifications {
    pub enabled: bool,
    pub redact_urls: bool,
}

/// The whole configuration. `browsers[0]` is the default browser.
#[derive(Clone, Debug, PartialEq)]
pub struct Config {
    pub version: u32,
    pub browsers: Vec<Browser>,
    pub patterns: Vec<PatternEntry>,
    pub notifications: Notifications,
}

/// Why a configuration could not be loaded.
#[derive(Clone, Debug, PartialEq, Eq)]
pub enum ConfigError {
    /// There is no configuration file.
    NotFound(String),
    /// The file could not be read or parsed.
    ParseError(String),
}

/// The value that a missing boolean preference takes.
pub fn default_true() -> (r: bool)
    ensures
        r,
{
    true
}

/// The format version that a configuration without one has.
pub fn default_version() -> (r: u32)
    ensures
        r == 1,
{
    1
}

impl Default for Notifications {
    fn default() -> (r: Notifications)
        ensures
            r.enabled,
            r.redact_urls,
    {
        Notifications { enabled: true, redact_urls: true }
    }
}

/// One advisory finding of `Config::validate`.
#[derive(Clone, Debug, PartialEq, Eq)]
pub struct ValidationError {
    pub code: String,
    pub message: String,
    pub path: Option<String>,
}

/// A finding, over sequences of characters.
pub struct Issue {
    pub code: Seq<char>,
    pub message: Seq<char>,
    pub path: Option<Seq<char>>,
}

impl View for ValidationError {
    type V = Issue;

    open spec fn view(&self) -> Issue {
        Issue {
            code: self.code@,
            message: self.message@,
            path: match self.path {
                Some(p) => Some(p@),
                None => None,
            },
        }
    }
}

/// The findings of one validation, in the order they were found.
#[derive(Clone, Debug, PartialEq, Eq)]
pub struct ValidationResult {
    pub errors: Vec<ValidationError>,
}

/// The models of a sequence of findings.
pub open spec fn issues_of(s: Seq<ValidationError>) -> Seq<Issue> {
    s.map_values(|e: ValidationError| e@)
}

impl ValidationError {
    fn new(code: &str, message: String, path: Option<String>) -> (r: ValidationError)
        ensures
            r.code@ == code@,
            r.message@ == message@,
            r.path == path,
    {
        ValidationError { code: code.to_owned(), message, path }
    }
}

/// A finding located at `path`.
pub open spec fn issue_at(code: Seq<char>, message: Seq<char>, path: Seq<char>) -> Issue {
    Issue { code, message, path: Some(path) }
}

/// `<top>[<i>].<field>`, the location of a field of an element of a list.
pub open spec fn field_path(top: Seq<char>, i: nat, field: Seq<char>) -> Seq<char> {
    top + "["@ + decimal(i) + "]."@ + field
}

/// `<top>[<i>].<field>[<k>]`, the location of an element of a list field.
pub open spec fn item_path(top: Seq<char>, i: nat, field: Seq<char>, k: nat) -> Seq<char> {
    field_path(top, i, field) + "["@ + decimal(k) + "]"@
}

/// One finding if `cond` holds, none otherwise.
pub open spec fn when(cond: bool, e: Issue) -> Seq<Issue> {
    if cond {
        seq![e]
    } else {
        Seq::empty()
    }
}

/// Whether an argument is a `%` placeholder other than `%u` and `%U`.
pub open spec fn bad_placeholder(a: Seq<char>) -> bool {
    a.len() > 0 && a[0] == '%' && !(a.len() == 2 && (a[1] == 'u' || a[1] == 'U'))
}

/// Whether a browser before index `i` has the same name as browser `i`.
pub open spec fn name_seen_before(bs: Seq<Browser>, i: int) -> bool {
    exists|j: int| 0 <= j < i && (#[trigger] bs[j]).name@ == bs[i].name@
}

/// Whether some browser is called `name`.
pub open spec fn name_known(bs: Seq<Browser>, name: Seq<char>) -> bool {
    exists|j: int| 0 <= j < bs.len() && (#[trigger] bs[j]).name@ == name
}

/// Findings on the first `n` arguments of browser `i`.
pub open spec fn arg_issues(args: Seq<String>, i: nat, n: nat) -> Seq<Issue>
    decreases n,
{
    if n == 0 || n > args.len() {
        Seq::empty()
    } else {
        let k = (n - 1) as nat;
        arg_issues(args, i, k) + when(
            bad_placeholder(args[k as int]@),
            issue_at(
                "browser.args.unsupported_placeholder"@,
                "Unsupported placeholder in args: '"@ + args[k as int]@ + "' (only %u/%U allowed)"@,
                item_path("browsers"@, i, "args"@, k),
            ),
        )
    }
}

/// Findings on browser `i`.
pub open spec fn browser_issues(bs: Seq<Browser>, i: nat) -> Seq<Issue> {
    let b = bs[i as int];
    when(
        is_blank(b.name@),
        issue_at(
            "browser.name.empty"@,
            "Browser name must not be empty"@,
            field_path("browsers"@, i, "name"@),
        ),
    ) + when(
        b.name@.len() > 0 && name_seen_before(bs, i as int),
        issue_at(
            "browser.name.duplicate"@,
            "Duplicate browser name: "@ + b.name@,
            field_path("browsers"@, i, "name"@),
        ),
    ) + when(
        is_blank(b.executable@),
        issue_at(
            "browser.executable.empty"@,
            "Executable must not be empty"@,
            field_path("browsers"@, i, "executable"@),
        ),
    ) + arg_issues(b.args@, i, b.args@.len())
}

/// Findings on the first `n` browsers.
pub open spec fn browsers_issues(bs: Seq<Browser>, n: nat) -> Seq<Issue>
    decreases n,
{
    if n == 0 || n > bs.len() {
        Seq::empty()
    } else {
        browsers_issues(bs, (n - 1) as nat) + browser_issues(bs, (n - 1) as nat)
    }
}

/// Findings on the first `n` browser names of rule `pi` (strict mode only).
pub open spec fn rule_name_issues(
    bs: Seq<Browser>,
    names: Seq<String>,
    pi: nat,
    n: nat,
) -> Seq<Issue>
    decreases n,
{
    if n == 0 || n > names.len() {
        Seq::empty()
    } else {
        let k = (n - 1) as nat;
        rule_name_issues(bs, names, pi, k) + when(
            !name_known(bs, names[k as int]@),
            issue_at(
                "pattern.browser.unknown"@,
                "Unknown browser in pattern: '"@ + names[k as int]@ + "'"@,
                item_path("patterns"@, pi, "browsers"@, k),
            ),
        )
    }
}

/// Findings on rule `pi`.
pub open spec fn rule_issues(bs: Seq<Browser>, ps: Seq<PatternEntry>, pi: nat, strict: bool) -> Seq<
    Issue,
> {
    let p = ps[pi as int];
    when(
        is_blank(p.pattern@),
        issue_at(
            "pattern.empty"@,
            "Pattern must not be empty"@,
            field_path("patterns"@, pi, "pattern"@),
        ),
    ) + when(
        p.pattern@.contains('\n'),
        issue_at(
            "pattern.newline"@,
            "Pattern contains a newline"@,
            field_path("patterns"@, pi, "pattern"@),
        ),
    ) + (if strict {
        rule_name_issues(bs, p.browsers@, pi, p.browsers@.len())
    } else {
        Seq::empty()
    })
}

/// Findings on the first `n` rules.
pub open spec fn rules_issues(bs: Seq<Browser>, ps: Seq<PatternEntry>, n: nat, strict: bool) -> Seq<
    Issue,
>
    decreases n,
{
    if n == 0 || n > ps.len() {
        Seq::empty()
    } else {
        rules_issues(bs, ps, (n - 1) as nat, strict) + rule_issues(bs, ps, (n - 1) as nat, strict)
    }
}

/// Everything `validate` reports on `c`, in order: an empty browser list,
/// then each browser, then each rule.
pub open spec fn validation_issues(c: Config, strict: bool) -> Seq<Issue> {
    when(
        c.browsers@.len() == 0,
        issue_at("browsers.empty"@, "No browsers configured"@, "browsers"@),
    ) + browsers_issues(c.browsers@, c.browsers@.len()) + rules_issues(
        c.browsers@,
        c.patterns@,
        c.patterns@.len(),
        strict,
    )
}

/// Findings on the executables of the first `n` browsers that could not be
/// resolved (`found[i]` tells whether browser `i`'s was).
pub open spec fn executable_issues(bs: Seq<Browser>, found: Seq<bool>, n: nat) -> Seq<Issue>
    decreases n,
{
    if n == 0 || n > bs.len() || n > found.len() {
        Seq::empty()
    } else {
        let k = (n - 1) as nat;
        executable_issues(bs, found, k) + when(
            !is_blank(bs[k as int].executable@) && !found[k as int],
            issue_at(
                "browser.executable.not_found"@,
                "Executable '"@ + bs[k as int].executable@ + "' not found in PATH"@,
                field_path("browsers"@, k, "executable"@),
            ),
        )
    }
}

/// Appends `e` to `errors`.
fn push_issue(errors: &mut Vec<ValidationError>, e: ValidationError)
    ensures
        issues_of(final(errors)@) == issues_of(old(errors)@).push(e@),
{
    errors.push(e);
    assert(issues_of(errors@) =~= issues_of(old(errors)@).push(e@));
}

/// `<top>[<i>].<field>`.
fn make_field_path(top: &str, i: usize, field: &str) -> (r: String)
    ensures
        r@ == field_path(top@, i as nat, field@),
{
    let mut p = String::from_str(top);
    p.append("[");
    push_decimal(&mut p, i);
    p.append("].");
    p.append(field);
    assert(p@ =~= field_path(top@, i as nat, field@));
    p
}

/// `<top>[<i>].<field>[<k>]`.
fn make_item_path(top: &str, i: usize, field: &str, k: usize) -> (r: String)
    ensures
        r@ == item_path(top@, i as nat, field@, k as nat),
{
    let mut p = make_field_path(top, i, field);
    p.append("[");
    push_decimal(&mut p, k);
    p.append("]");
    assert(p@ =~= item_path(top@, i as nat, field@, k as nat));
    p
}

/// `<before><middle><after>`.
fn enclose(before: &str, middle: &str, after: &str) -> (r: String)
    ensures
        r@ == before@ + middle@ + after@,
{
    let mut m = String::from_str(before);
    m.append(middle);
    m.append(after);
    m
}

/// Whether an argument is a `%` placeholder other than `%u` and `%U`.
fn is_bad_placeholder(a: &str) -> (r: bool)
    ensures
        r == bad_placeholder(a@),
{
    let cs = crate::text::chars_of(a);
    if cs.len() == 0 || cs[0] != '%' {
        return false;
    }
    !(cs.len() == 2 && (cs[1] == 'u' || cs[1] == 'U'))
}

/// Appends the placeholder findings on the arguments of browser `i`.
fn check_args(b: &Browser, i: usize, errors: &mut Vec<ValidationError>)
    ensures
        issues_of(final(errors)@) == issues_of(old(errors)@) + arg_issues(
            b.args@,
            i as nat,
            b.args@.len(),
        ),
{
    let mut k: usize = 0;
    while k < b.args.len()
        invariant
            k <= b.args@.len(),
            issues_of(errors@) == issues_of(old(errors)@) + arg_issues(b.args@, i as nat, k as nat),
        decreases b.args@.len() - k,
    {
        let ghost before = issues_of(errors@);
        let arg = &b.args[k];
        if is_bad_placeholder(arg.as_str()) {
            let msg = enclose(
                "Unsupported placeholder in args: '",
                arg.as_str(),
                "' (only %u/%U allowed)",
            );
            let path = make_item_path("browsers", i, "args", k);
            push_issue(
                errors,
                ValidationError::new("browser.args.unsupported_placeholder", msg, Some(path)),
            );
        }
        proof {
            let step = when(
                bad_placeholder(b.args@[k as int]@),
                issue_at(
                    "browser.args.unsupported_placeholder"@,
                    "Unsupported placeholder in args: '"@ + b.args@[k as int]@
                        + "' (only %u/%U allowed)"@,
                    item_path("browsers"@, i as nat, "args"@, k as nat),
                ),
            );
            assert(arg_issues(b.args@, i as nat, (k + 1) as nat) == arg_issues(
                b.args@,
                i as nat,
                k as nat,
            ) + step);
            assert(issues_of(errors@) =~= issues_of(old(errors)@) + arg_issues(
                b.args@,
                i as nat,
                k as nat,
            ) + step);
        }
        k = k + 1;
    }
}

/// Whether a browser before index `i` is called `bs[i].name`.
fn seen_before(bs: &Vec<Browser>, i: usize) -> (r: bool)
    requires
        i < bs@.len(),
    ensures
        r == name_seen_before(bs@, i as int),
{
    let mut j: usize = 0;
    while j < i
        invariant
            j <= i < bs@.len(),
            forall|m: int| 0 <= m < j ==> (#[trigger] bs@[m]).name@ != bs@[i as int].name@,
        decreases i - j,
    {
        if bs[j].name == bs[i].name {
            return true;
        }
        j = j + 1;
    }
    false
}

/// Whether some browser is called `name`.
fn known_name(bs: &Vec<Browser>, name: &String) -> (r: bool)
    ensures
        r == name_known(bs@, name@),
{
    let mut j: usize = 0;
    while j < bs.len()
        invariant
            j <= bs@.len(),
            forall|m: int| 0 <= m < j ==> (#[trigger] bs@[m]).name@ != name@,
        decreases bs@.len() - j,
    {
        if bs[j].name == *name {
            return true;
        }
        j = j + 1;
    }
    false
}

/// Appends the findings on browser `i`.
fn check_browser(bs: &Vec<Browser>, i: usize, errors: &mut Vec<ValidationError>)
    requires
        i < bs@.len(),
    ensures
        issues_of(final(errors)@) == issues_of(old(errors)@) + browser_issues(bs@, i as nat),
{
    let b = &bs[i];
    let ghost e0 = issues_of(errors@);
    if is_blank_str(b.name.as_str()) {
        let path = make_field_path("browsers", i, "name");
        push_issue(
            errors,
            ValidationError::new(
                "browser.name.empty",
                String::from_str("Browser name must not be empty"),
                Some(path),
            ),
        );
    }
    let ghost e1 = issues_of(errors@);
    if !b.name.as_str().is_empty() && seen_before(bs, i) {
        let path = make_field_path("browsers", i, "name");
        let mut msg = String::from_str("Duplicate browser name: ");
        msg.append(b.name.as_str());
        push_issue(errors, ValidationError::new("browser.name.duplicate", msg, Some(path)));
    }
    let ghost e2 = issues_of(errors@);
    if is_blank_str(b.executable.as_str()) {
        let path = make_field_path("browsers", i, "executable");
        push_issue(
            errors,
            ValidationError::new(
                "browser.executable.empty",
                String::from_str("Executable must not be empty"),
                Some(path),
            ),
        );
    }
    let ghost e3 = issues_of(errors@);
    check_args(b, i, errors);
    proof {
        let bv = bs@[i as int];
        let w1 = when(
            is_blank(bv.name@),
            issue_at(
                "browser.name.empty"@,
                "Browser name must not be empty"@,
                field_path("browsers"@, i as nat, "name"@),
            ),
        );
        let w2 = when(
            bv.name@.len() > 0 && name_seen_before(bs@, i as int),
            issue_at(
                "browser.name.duplicate"@,
                "Duplicate browser name: "@ + bv.name@,
                field_path("browsers"@, i as nat, "name"@),
            ),
        );
        let w3 = when(
            is_blank(bv.executable@),
            issue_at(
                "browser.executable.empty"@,
                "Executable must not be empty"@,
                field_path("browsers"@, i as nat, "executable"@),
            ),
        );
        assert(e1 =~= e0 + w1);
        assert(e2 =~= e1 + w2);
        assert(e3 =~= e2 + w3);
        assert(issues_of(errors@) =~= e0 + browser_issues(bs@, i as nat));
    }
}

/// Appends the findings on rule `pi`.
fn check_rule(
    bs: &Vec<Browser>,
    ps: &Vec<PatternEntry>,
    pi: usize,
    strict: bool,
    errors: &mut Vec<ValidationError>,
)
    requires
        pi < ps@.len(),
    ensures
        issues_of(final(errors)@) == issues_of(old(errors)@) + rule_issues(
            bs@,
            ps@,
            pi as nat,
            strict,
        ),
{
    let p = &ps[pi];
    let ghost e0 = issues_of(errors@);
    if is_blank_str(p.pattern.as_str()) {
        let path = make_field_path("patterns", pi, "pattern");
        push_issue(
            errors,
            ValidationError::new(
                "pattern.empty",
                String::from_str("Pattern must not be empty"),
                Some(path),
            ),
        );
    }
    let ghost e1 = issues_of(errors@);
    if crate::text::contains_char(p.pattern.as_str(), '\n') {
        let path = make_field_path("patterns", pi, "pattern");
        push_issue(
            errors,
            ValidationError::new(
                "pattern.newline",
                String::from_str("Pattern contains a newline"),
                Some(path),
            ),
        );
    }
    let ghost e2 = issues_of(errors@);
    if strict {
        let mut k: usize = 0;
        while k < p.browsers.len()
            invariant
                k <= p.browsers@.len(),
                issues_of(errors@) == e2 + rule_name_issues(bs@, p.browsers@, pi as nat, k as nat),
            decreases p.browsers@.len() - k,
        {
            let ghost before = issues_of(errors@);
            let name = &p.browsers[k];
            if !known_name(bs, name) {
                let msg = enclose("Unknown browser in pattern: '", name.as_str(), "'");
                let path = make_item_path("patterns", pi, "browsers", k);
                push_issue(errors, ValidationError::new("pattern.browser.unknown", msg, Some(path)));
            }
            proof {
                let step = when(
                    !name_known(bs@, p.browsers@[k as int]@),
                    issue_at(
                        "pattern.browser.unknown"@,
                        "Unknown browser in pattern: '"@ + p.browsers@[k as int]@ + "'"@,
                        item_path("patterns"@, pi as nat, "browsers"@, k as nat),
                    ),
                );
                assert(issues_of(errors@) =~= before + step);
                assert(issues_of(errors@) =~= e2 + rule_name_issues(
                    bs@,
                    p.browsers@,
                    pi as nat,
                    (k + 1) as nat,
                ));
            }
            k = k + 1;
        }
    }
    proof {
        let pv = ps@[pi as int];
        let w1 = when(
            is_blank(pv.pattern@),
            issue_at(
                "pattern.empty"@,
                "Pattern must not be empty"@,
                field_path("patterns"@, pi as nat, "pattern"@),
            ),
        );
        let w2 = when(
            pv.pattern@.contains('\n'),
            issue_at(
                "pattern.newline"@,
                "Pattern contains a newline"@,
                field_path("patterns"@, pi as nat, "pattern"@),
            ),
        );
        assert(e1 =~= e0 + w1);
        assert(e2 =~= e1 + w2);
        assert(issues_of(errors@) =~= e0 + rule_issues(bs@, ps@, pi as nat, strict));
    }
}

impl Config {
    /// The advisory findings on this configuration: an empty browser list;
    /// per browser a blank name, a repeated name, a blank executable and
    /// unsupported `%` placeholders; per rule a blank pattern, a pattern with
    /// a newline and, when `strict`, browser names that no browser has.
    /// Whether executables can be found is checked by `validate_strict`.
    pub fn validate(&self, strict: bool) -> (r: ValidationResult)
        ensures
            issues_of(r.errors@) == validation_issues(*self, strict),
    {
        let mut errors: Vec<ValidationError> = Vec::new();
        if self.browsers.len() == 0 {
            push_issue(
                &mut errors,
                ValidationError::new(
                    "browsers.empty",
                    String::from_str("No browsers configured"),
                    Some(String::from_str("browsers")),
                ),
            );
        }
        let ghost head = issues_of(errors@);
        assert(head =~= when(
            self.browsers@.len() == 0,
            issue_at("browsers.empty"@, "No browsers configured"@, "browsers"@),
        ));
        let mut i: usize = 0;
        while i < self.browsers.len()
            invariant
                i <= self.browsers@.len(),
                issues_of(errors@) == head + browsers_issues(self.browsers@, i as nat),
            decreases self.browsers@.len() - i,
        {
            check_browser(&self.browsers, i, &mut errors);
            assert(issues_of(errors@) =~= head + browsers_issues(self.browsers@, (i + 1) as nat));
            i = i + 1;
        }
        let ghost mid = issues_of(errors@);
        let mut pi: usize = 0;
        while pi < self.patterns.len()
            invariant
                pi <= self.patterns@.len(),
                issues_of(errors@) == mid + rules_issues(
                    self.browsers@,
                    self.patterns@,
                    pi as nat,
                    strict,
                ),
            decreases self.patterns@.len() - pi,
        {
            check_rule(&self.browsers, &self.patterns, pi, strict, &mut errors);
            assert(issues_of(errors@) =~= mid + rules_issues(
                self.browsers@,
                self.patterns@,
                (pi + 1) as nat,
                strict,
            ));
            pi = pi + 1;
        }
        assert(issues_of(errors@) =~= validation_issues(*self, strict));
        ValidationResult { errors }
    }

    /// The findings of strict validation: those of `validate(true)`, then,
    /// for each browser whose executable is not blank and was not found
    /// (`found[i]` is false), an `executable.not_found` finding.
    pub fn validate_strict(&self, found: &Vec<bool>) -> (r: ValidationResult)
        requires
            found@.len() == self.browsers@.len(),
        ensures
            issues_of(r.errors@) == validation_issues(*self, true) + executable_issues(
                self.browsers@,
                found@,
                self.browsers@.len(),
            ),
    {
        let mut res = self.validate(true);
        let ghost head = issues_of(res.errors@);
        let mut i: usize = 0;
        while i < self.browsers.len()
            invariant
                i <= self.browsers@.len(),
                found@.len() == self.browsers@.len(),
                issues_of(res.errors@) == head + executable_issues(self.browsers@, found@, i as nat),
            decreases self.browsers@.len() - i,
        {
            let ghost before = issues_of(res.errors@);
            let b = &self.browsers[i];
            if !is_blank_str(b.executable.as_str()) && !found[i] {
                let msg = enclose("Executable '", b.executable.as_str(), "' not found in PATH");
                let path = make_field_path("browsers", i, "executable");
                push_issue(
                    &mut res.errors,
                    ValidationError::new("browser.executable.not_found", msg, Some(path)),
                );
            }
            proof {
                let step = when(
                    !is_blank(self.browsers@[i as int].executable@) && !found@[i as int],
                    issue_at(
                        "browser.executable.not_found"@,
                        "Executable '"@ + self.browsers@[i as int].executable@
                            + "' not found in PATH"@,
                        field_path("browsers"@, i as nat, "executable"@),
                    ),
                );
                assert(issues_of(res.errors@) =~= before + step);
                assert(issues_of(res.errors@) =~= head + executable_issues(
                    self.browsers@,
                    found@,
                    (i + 1) as nat,
                ));
            }
            i = i + 1;
        }
        res
    }
}

/// The report line of one finding: `- <code>: [<path> — ]<message>`.
pub open spec fn report_line(e: Issue) -> Seq<char> {
    match e.path {
        Some(p) => "- "@ + e.code + ": "@ + p + " — "@ + e.message + "\n"@,
        None => "- "@ + e.code + ": "@ + e.message + "\n"@,
    }
}

/// The report lines of the first `n` findings.
pub open spec fn report_lines(s: Seq<Issue>, n: nat) -> Seq<char>
    decreases n,
{
    if n == 0 || n > s.len() {
        Seq::empty()
    } else {
        report_lines(s, (n - 1) as nat) + report_line(s[n - 1])
    }
}

/// The whole report: a header with the number of findings, then one line each.
pub open spec fn report(s: Seq<Issue>) -> Seq<char> {
    "Found "@ + decimal(s.len()) + " validation issue(s):\n"@ + report_lines(s, s.len())
}

impl ValidationResult {
    /// Whether nothing was found.
    pub fn is_empty(&self) -> (r: bool)
        ensures
            r == (self.errors@.len() == 0),
    {
        self.errors.len() == 0
    }

    /// Appends the human-readable report of the findings to `out`.
    pub fn print_to(&self, out: &mut String)
        ensures
            final(out)@ == old(out)@ + report(issues_of(self.errors@)),
    {
        let ghost all = issues_of(self.errors@);
        out.append("Found ");
        push_decimal(out, self.errors.len());
        out.append(" validation issue(s):\n");
        let ghost head = out@;
        assert(head =~= old(out)@ + "Found "@ + decimal(all.len()) + " validation issue(s):\n"@);
        let mut i: usize = 0;
        while i < self.errors.len()
            invariant
                i <= self.errors@.len(),
                all == issues_of(self.errors@),
                out@ == head + report_lines(all, i as nat),
            decreases self.errors@.len() - i,
        {
            let d = &self.errors[i];
            let ghost before = out@;
            out.append("- ");
            out.append(d.code.as_str());
            out.append(": ");
            match &d.path {
                Some(path) => {
                    out.append(path.as_str());
                    out.append(" — ");
                },
                None => {},
            }
            out.append(d.message.as_str());
            out.append("\n");
            proof {
                assert(all[i as int] == d@);
                assert(out@ =~= before + report_line(all[i as int]));
                assert(out@ =~= head + report_lines(all, (i + 1) as nat));
            }
            i = i + 1;
        }
        assert(out@ =~= old(out)@ + report(all));
    }
}

/// Whether an argument stands for the URL: `%u` or `%U`.
pub open spec fn is_url_placeholder(a: Seq<char>) -> bool {
    a.len() == 2 && a[0] == '%' && (a[1] == 'u' || a[1] == 'U')
}

/// The arguments of a launch of `args` on `url`: each placeholder becomes the
/// URL, and the URL is appended when there is no placeholder.
pub open spec fn launch_args(args: Seq<String>, url: Seq<char>) -> Seq<Seq<char>> {
    let s = args.map_values(|a: String| if is_url_placeholder(a@) { url } else { a@ });
    if exists|i: int| 0 <= i < args.len() && is_url_placeholder((#[trigger] args[i])@) {
        s
    } else {
        s.push(url)
    }
}

/// The models of a sequence of strings.
pub open spec fn strings_of(v: Seq<String>) -> Seq<Seq<char>> {
    v.map_values(|s: String| s@)
}

impl Browser {
    /// The arguments to start this browser on `url` with.
    pub fn command_args(&self, url: &str) -> (r: Vec<String>)
        ensures
            strings_of(r@) == launch_args(self.args@, url@),
    {
        let mut out: Vec<String> = Vec::new();
        let mut found = false;
        let mut i: usize = 0;
        while i < self.args.len()
            invariant
                i <= self.args@.len(),
                strings_of(out@) == self.args@.subrange(0, i as int).map_values(
                    |a: String| if is_url_placeholder(a@) { url@ } else { a@ },
                ),
                found == exists|k: int| 0 <= k < i && is_url_placeholder((#[trigger] self.args@[k])@),
            decreases self.args@.len() - i,
        {
            let a = &self.args[i];
            let cs = crate::text::chars_of(a.as_str());
            let placeholder = cs.len() == 2 && cs[0] == '%' && (cs[1] == 'u' || cs[1] == 'U');
            let ghost prev = strings_of(out@);
            if placeholder {
                found = true;
                out.push(String::from_str(url));
            } else {
                out.push(a.clone());
            }
            proof {
                assert(strings_of(out@) =~= prev.push(
                    if is_url_placeholder(a@) { url@ } else { a@ },
                ));
                assert(self.args@.subrange(0, i + 1).drop_last() =~= self.args@.subrange(0, i as int));
                assert(strings_of(out@) =~= self.args@.subrange(0, i + 1).map_values(
                    |a: String| if is_url_placeholder(a@) { url@ } else { a@ },
                ));
            }
            i = i + 1;
        }
        assert(self.args@.subrange(0, self.args@.len() as int) =~= self.args@);
        if !found {
            let ghost prev = strings_of(out@);
            out.push(String::from_str(url));
            assert(strings_of(out@) =~= prev.push(url@));
        }
        out
    }
}

/// Splitting the first `n` characters of `s` at white space: the words
/// already ended, and the word still being read.
pub open spec fn split_state(s: Seq<char>, n: nat) -> (Seq<Seq<char>>, Seq<char>)
    decreases n,
{
    if n == 0 || n > s.len() {
        (Seq::empty(), Seq::empty())
    } else {
        let prev = split_state(s, (n - 1) as nat);
        let c = s[n - 1];
        if crate::text::is_space(c) {
            if prev.1.len() > 0 {
                (prev.0.push(prev.1), Seq::empty())
            } else {
                (prev.0, Seq::empty())
            }
        } else {
            (prev.0, prev.1.push(c))
        }
    }
}

/// The maximal runs of non-white-space characters of `s`, in order.
pub open spec fn words(s: Seq<char>) -> Seq<Seq<char>> {
    let st = split_state(s, s.len());
    if st.1.len() > 0 {
        st.0.push(st.1)
    } else {
        st.0
    }
}

/// The words of `s`.
pub fn split_words(s: &str) -> (r: Vec<String>)
    ensures
        strings_of(r@) == words(s@),
{
    let cs = crate::text::chars_of(s);
    let mut out: Vec<String> = Vec::new();
    let mut cur = String::new();
    let mut i: usize = 0;
    while i < cs.len()
        invariant
            i <= cs@.len(),
            cs@ == s@,
            strings_of(out@) == split_state(s@, i as nat).0,
            cur@ == split_state(s@, i as nat).1,
        decreases cs@.len() - i,
    {
        let c = cs[i];
        if crate::text::is_space_char(c) {
            if !cur.as_str().is_empty() {
                let ghost prev = strings_of(out@);
                let word = cur;
                cur = String::new();
                out.push(word);
                assert(strings_of(out@) =~= prev.push(split_state(s@, i as nat).1));
            }
        } else {
            crate::text::push_char(&mut cur, c);
        }
        i = i + 1;
    }
    if !cur.as_str().is_empty() {
        let ghost prev = strings_of(out@);
        let ghost last = cur@;
        out.push(cur);
        assert(strings_of(out@) =~= prev.push(last));
    }
    out
}

/// The browser that a desktop entry describes: it needs a name, a command
/// line with at least one word and a MIME list that names
/// `x-scheme-handler/http`; the first word is the executable, the others are
/// the arguments.
pub open spec fn entry_browser(
    name: Option<Seq<char>>,
    exec: Option<Seq<char>>,
    mime: Option<Seq<char>>,
) -> Option<(Seq<char>, Seq<Seq<char>>)> {
    match (name, exec, mime) {
        (Some(n), Some(e), Some(m)) => if crate::text::contains_seq(
            m,
            "x-scheme-handler/http"@,
        ) && words(e).len() > 0 {
            Some((n, words(e)))
        } else {
            None
        },
        _ => None,
    }
}

/// The model of an optional string slice.
pub open spec fn opt_view(o: Option<&str>) -> Option<Seq<char>> {
    match o {
        Some(s) => Some(s@),
        None => None,
    }
}

impl Browser {
    /// The browser that a desktop entry with these fields describes, if it
    /// handles http URLs.
    pub fn from_desktop_entry(name: Option<&str>, exec: Option<&str>, mime: Option<&str>) -> (r:
            Option<Browser>)
        ensures
            r is Some <==> entry_browser(opt_view(name), opt_view(exec), opt_view(mime)) is Some,
            r matches Some(b) ==> ({
                let w = entry_browser(opt_view(name), opt_view(exec), opt_view(mime))->Some_0;
                &&& b.name@ == w.0
                &&& b.executable@ == w.1[0]
                &&& strings_of(b.args@) == w.1.subrange(1, w.1.len() as int)
            }),
    {
        let (n, e, m) = match (name, exec, mime) {
            (Some(n), Some(e), Some(m)) => (n, e, m),
            _ => return None,
        };
        if !crate::text::contains_str(m, "x-scheme-handler/http") {
            return None;
        }
        let mut parts = split_words(e);
        if parts.len() == 0 {
            return None;
        }
        let ghost all = strings_of(parts@);
        let executable = parts.remove(0);
        assert(strings_of(parts@) =~= all.subrange(1, all.len() as int));
        Some(Browser { name: String::from_str(n), executable, args: parts })
    }
}

} // verus!
