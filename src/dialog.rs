//! The interactive selector: which dialog program to use, what to pass it,
//! and how to read the user's choice back from its output.
use vstd::prelude::*;
use vstd::string::*;
use crate::text::{chars_of, decimal, push_decimal, same_str, trim_str, trimmed};

verus! {

/// A dialog program that can show a list to pick from.
#[derive(Clone, Copy, Debug, PartialEq, Eq)]
pub enum Provider {
    Kdialog,
    Zenity,
    Yad,
}

/// The dialog program to use, given which ones are installed: kdialog, then
/// zenity, then yad.
pub fn detect_provider(has_kdialog: bool, has_zenity: bool, has_yad: bool) -> (r: Option<Provider>)
    ensures
        r == if has_kdialog {
            Some(Provider::Kdialog)
        } else if has_zenity {
            Some(Provider::Zenity)
        } else if has_yad {
            Some(Provider::Yad)
        } else {
            None
        },
{
    if has_kdialog {
        return Some(Provider::Kdialog);
    }
    if has_zenity {
        return Some(Provider::Zenity);
    }
    if has_yad {
        return Some(Provider::Yad);
    }
    None
}

/// Whether every character of `s` is an ASCII digit.
pub open spec fn all_digits(s: Seq<char>) -> bool {
    forall|i: int| 0 <= i < s.len() ==> '0' <= #[trigger] s[i] <= '9'
}

/// The number that the ASCII digits `s` spell in base ten.
pub open spec fn digits_value(s: Seq<char>) -> nat
    decreases s.len(),
{
    if s.len() == 0 {
        0
    } else {
        digits_value(s.drop_last()) * 10 + (s.last() as nat - 48) as nat
    }
}

/// What `s` parses to as a `usize`: an optional `+`, then one or more ASCII
/// digits whose value fits.
pub open spec fn parsed_usize(s: Seq<char>) -> Option<nat> {
    let d = if s.len() > 0 && s[0] == '+' {
        s.subrange(1, s.len() as int)
    } else {
        s
    };
    if d.len() > 0 && all_digits(d) && digits_value(d) <= usize::MAX {
        Some(digits_value(d))
    } else {
        None
    }
}

/// Relies on `str::parse::<usize>` (`usize::from_str`): it accepts an
/// optional `+` followed by ASCII digits, and nothing else, and fails when the
/// value does not fit.
#[verifier::external_body]
fn parse_usize(s: &str) -> (r: Option<usize>)
    ensures
        match r {
            Some(v) => parsed_usize(s@) == Some(v as nat),
            None => parsed_usize(s@) is None,
        },
{
    s.parse::<usize>().ok()
}

/// The first index of `options` whose text is `t`.
pub open spec fn position_of(options: Seq<String>, t: Seq<char>) -> Option<nat> {
    if exists|i: int| 0 <= i < options.len() && (#[trigger] options[i])@ == t {
        Some(
            choose|i: nat|
                i < options.len() && options[i as int]@ == t && forall|k: int|
                    0 <= k < i ==> (#[trigger] options[k])@ != t,
        )
    } else {
        None
    }
}

/// The index of the first option whose text is `t`.
fn find_option(options: &Vec<String>, t: &str) -> (r: Option<usize>)
    ensures
        match r {
            Some(i) => position_of(options@, t@) == Some(i as nat),
            None => position_of(options@, t@) is None,
        },
{
    let mut i: usize = 0;
    while i < options.len()
        invariant
            i <= options@.len(),
            forall|k: int| 0 <= k < i ==> (#[trigger] options@[k])@ != t@,
        decreases options@.len() - i,
    {
        if same_str(options[i].as_str(), t) {
            let ghost w = choose|j: nat|
                j < options@.len() && options@[j as int]@ == t@ && forall|k: int|
                    0 <= k < j ==> (#[trigger] options@[k])@ != t@;
            assert((i as nat) < options@.len() && options@[i as int]@ == t@ && forall|k: int|
                0 <= k < i ==> (#[trigger] options@[k])@ != t@);
            assert(w == i as nat) by {
                if w < (i as nat) {
                    assert(options@[w as int]@ != t@);
                }
                if w > (i as nat) {
                    assert(options@[i as int]@ != t@);
                }
            }
            return Some(i);
        }
        i = i + 1;
    }
    None
}

/// The choice that kdialog reported on `stdout`: the tag it printed, when it
/// is the index of one of `n` options.
pub open spec fn kdialog_choice(stdout: Seq<char>, n: nat) -> Option<nat> {
    let t = trimmed(stdout);
    if t.len() == 0 {
        None
    } else {
        match parsed_usize(t) {
            Some(v) => if v < n {
                Some(v)
            } else {
                None
            },
            None => None,
        }
    }
}

/// Reads the index that kdialog printed; `None` when nothing valid was chosen.
pub fn parse_kdialog_output(stdout: &str, n: usize) -> (r: Option<usize>)
    ensures
        match r {
            Some(i) => kdialog_choice(stdout@, n as nat) == Some(i as nat),
            None => kdialog_choice(stdout@, n as nat) is None,
        },
{
    let t = trim_str(stdout);
    if t.is_empty() {
        return None;
    }
    match parse_usize(t) {
        Some(v) => if v < n {
            Some(v)
        } else {
            None
        },
        None => None,
    }
}

/// The choice that zenity reported on `stdout`: the option whose text it
/// printed.
pub open spec fn zenity_choice(stdout: Seq<char>, options: Seq<String>) -> Option<nat> {
    let t = trimmed(stdout);
    if t.len() == 0 {
        None
    } else {
        position_of(options, t)
    }
}

/// Reads the option that zenity printed; `None` when nothing valid was chosen.
pub fn parse_zenity_output(stdout: &str, options: &Vec<String>) -> (r: Option<usize>)
    ensures
        match r {
            Some(i) => zenity_choice(stdout@, options@) == Some(i as nat),
            None => zenity_choice(stdout@, options@) is None,
        },
{
    let t = trim_str(stdout);
    if t.is_empty() {
        return None;
    }
    find_option(options, t)
}

/// Index of the first `c` in `s` at or after `i`, or the length of `s`.
pub open spec fn char_pos(s: Seq<char>, c: char, i: nat) -> nat
    decreases s.len() - i,
{
    if i < s.len() && s[i as int] != c {
        char_pos(s, c, i + 1)
    } else {
        i
    }
}

/// The part of `s` before the first `c`, or all of `s`.
pub open spec fn before_char(s: Seq<char>, c: char) -> Seq<char> {
    s.subrange(0, char_pos(s, c, 0) as int)
}

/// The part of `s` before the first `c`.
fn cut_at(s: &str, c: char) -> (r: &str)
    ensures
        r@ == before_char(s@, c),
{
    let cs = chars_of(s);
    let mut i: usize = 0;
    while i < cs.len()
        invariant
            i <= cs@.len(),
            cs@ == s@,
            char_pos(s@, c, i as nat) == char_pos(s@, c, 0),
        decreases cs@.len() - i,
    {
        if cs[i] == c {
            return s.substring_char(0, i);
        }
        i = i + 1;
    }
    assert(s@.subrange(0, s@.len() as int) =~= s@);
    s
}

/// The choice that yad reported on `stdout`: the first column of its first
/// line, trimmed, names the option.
pub open spec fn yad_choice(stdout: Seq<char>, options: Seq<String>) -> Option<nat> {
    let first = trimmed(before_char(stdout, '\n'));
    let selected = trimmed(before_char(first, '|'));
    if first.len() == 0 || selected.len() == 0 {
        None
    } else {
        position_of(options, selected)
    }
}

/// Reads the option that yad printed; `None` when nothing valid was chosen.
pub fn parse_yad_output(stdout: &str, options: &Vec<String>) -> (r: Option<usize>)
    ensures
        match r {
            Some(i) => yad_choice(stdout@, options@) == Some(i as nat),
            None => yad_choice(stdout@, options@) is None,
        },
{
    let first = trim_str(cut_at(stdout, '\n'));
    if first.is_empty() {
        return None;
    }
    let selected = trim_str(cut_at(first, '|'));
    if selected.is_empty() {
        return None;
    }
    find_option(options, selected)
}

/// The arguments of a kdialog radio list: the title, the message, then per
/// option its index as tag, its label, and `on` for the preselected one.
pub open spec fn kdialog_args(
    title: Seq<char>,
    message: Seq<char>,
    options: Seq<String>,
    default_idx: nat,
) -> Seq<Seq<char>> {
    seq!["--title"@, title, "--radiolist"@, message] + Seq::new(
        3 * options.len(),
        |k: int|
            if k % 3 == 0 {
                decimal((k / 3) as nat)
            } else if k % 3 == 1 {
                options[k / 3]@
            } else if k / 3 == default_idx {
                "on"@
            } else {
                "off"@
            },
    )
}

/// The command-line arguments for kdialog.
pub fn kdialog_command_args(
    title: &str,
    message: &str,
    options: &Vec<String>,
    default_idx: usize,
) -> (r: Vec<String>)
    ensures
        crate::config::strings_of(r@) == kdialog_args(title@, message@, options@, default_idx as nat),
{
    let mut out: Vec<String> = Vec::new();
    out.push(String::from_str("--title"));
    out.push(String::from_str(title));
    out.push(String::from_str("--radiolist"));
    out.push(String::from_str(message));
    let ghost head = seq!["--title"@, title@, "--radiolist"@, message@];
    assert(crate::config::strings_of(out@) =~= head);
    let mut i: usize = 0;
    while i < options.len()
        invariant
            i <= options@.len(),
            crate::config::strings_of(out@) =~= head + kdialog_args(
                title@,
                message@,
                options@,
                default_idx as nat,
            ).subrange(4, 4 + 3 * i),
        decreases options@.len() - i,
    {
        let ghost prev = crate::config::strings_of(out@);
        let mut tag = String::new();
        push_decimal(&mut tag, i);
        out.push(tag);
        out.push(options[i].clone());
        if i == default_idx {
            out.push(String::from_str("on"));
        } else {
            out.push(String::from_str("off"));
        }
        proof {
            let all = kdialog_args(title@, message@, options@, default_idx as nat);
            let b = 3 * i as int;
            assert(b % 3 == 0 && b / 3 == i) by (nonlinear_arith)
                requires b == 3 * i;
            assert((b + 1) % 3 == 1 && (b + 1) / 3 == i) by (nonlinear_arith)
                requires b == 3 * i;
            assert((b + 2) % 3 == 2 && (b + 2) / 3 == i) by (nonlinear_arith)
                requires b == 3 * i;
            assert(all[4 + b] == decimal(i as nat));
            assert(all[4 + b + 1] == options@[i as int]@);
            let onoff = if i == default_idx { "on"@ } else { "off"@ };
            assert(all[4 + b + 2] == onoff);
            assert(crate::config::strings_of(out@) =~= prev.push(decimal(i as nat)).push(
                options@[i as int]@,
            ).push(onoff));
            assert(all.subrange(4, 4 + b + 3) =~= all.subrange(4, 4 + b).push(all[4 + b]).push(
                all[4 + b + 1],
            ).push(all[4 + b + 2]));
            assert(crate::config::strings_of(out@) =~= head + all.subrange(4, 4 + 3 * (i + 1)));
        }
        i = i + 1;
    }
    proof {
        let all = kdialog_args(title@, message@, options@, default_idx as nat);
        assert(all =~= head + all.subrange(4, 4 + 3 * options@.len() as int));
    }
    out
}

} // verus!
