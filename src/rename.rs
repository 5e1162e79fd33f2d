//! Planning of file renames: which files get which new names.
//!
//! A rule is either a substring replacement written `old->new` (or `old`
//! alone, replaced by nothing) or a regular expression with a replacement.
//! Only file names change; files keep their directory.

use crate::text::{replace_text, replaced_of, str_eq};
use vstd::prelude::*;

verus! {

#[verifier::external_type_specification]
#[verifier::external_body]
pub struct ExRegex(regex::Regex);

#[verifier::external_type_specification]
#[verifier::external_body]
pub struct ExRegexError(regex::Error);

/// Whether `regex::Regex::new` accepts a pattern.
pub uninterp spec fn regex_accepts(pattern: Seq<char>) -> bool;

/// The pattern a compiled regex was made from.
pub uninterp spec fn regex_source(re: regex::Regex) -> Seq<char>;

/// What `Regex::replace_all` makes of `text` for a regex made from `pattern`
/// and a replacement template.
pub uninterp spec fn regex_replaced(pattern: Seq<char>, text: Seq<char>, rep: Seq<char>) -> Seq<char>;

/// Relies on `regex::Regex::new`: whether it accepts the pattern depends on
/// the pattern alone, and the regex keeps its pattern.
#[verifier::external_body]
fn compile_regex(pattern: &str) -> (r: Result<regex::Regex, regex::Error>)
    ensures
        r is Ok <==> regex_accepts(pattern@),
        r matches Ok(re) ==> regex_source(re) == pattern@,
{
    regex::Regex::new(pattern)
}

/// Relies on `regex::Regex::replace_all`: every match replaced by the
/// expanded template; the result depends on the pattern, the text and the
/// template alone.
#[verifier::external_body]
fn regex_replace_all(re: &regex::Regex, text: &str, rep: &str) -> (r: String)
    ensures
        r@ == regex_replaced(regex_source(*re), text@, rep@),
{
    re.replace_all(text, rep).into_owned()
}

/// Index of the first `->` in `s` at or after `i`.
pub open spec fn arrow_from(s: Seq<char>, i: nat) -> Option<nat>
    decreases s.len() - i,
{
    if i + 1 >= s.len() {
        None
    } else if s[i as int] == '-' && s[(i + 1) as int] == '>' {
        Some(i)
    } else {
        arrow_from(s, i + 1)
    }
}

/// The two sides of a substring pattern: split at the first `->`, or the
/// whole pattern and nothing.
pub open spec fn pattern_sides(p: Seq<char>) -> (Seq<char>, Seq<char>) {
    match arrow_from(p, 0) {
        Some(i) => (p.take(i as int), p.skip((i + 2) as int)),
        None => (p, Seq::empty()),
    }
}

/// How file names are rewritten.
pub enum RenameRule {
    /// Every occurrence of `from` becomes `to`.
    Substring { from: String, to: String },
    /// Every match of `regex` becomes the expanded `replacement`.
    Pattern { regex: regex::Regex, replacement: String },
}

/// Why a rule cannot be made.
pub enum RenameError {
    /// The regular expression does not compile.
    InvalidRegex(regex::Error),
    /// A regular expression was given without a replacement.
    MissingReplacement,
}

/// The name a rule makes of a file name.
pub open spec fn rule_output(rule: RenameRule, name: Seq<char>) -> Seq<char> {
    match rule {
        RenameRule::Substring { from, to } => replaced_of(name, from@, to@),
        RenameRule::Pattern { regex, replacement } => regex_replaced(
            regex_source(regex),
            name,
            replacement@,
        ),
    }
}

/// A file, by directory and name.
pub struct FileName {
    pub dir: String,
    pub name: String,
}

/// A planned rename of a file within its directory.
pub struct RenameStep {
    pub dir: String,
    pub from_name: String,
    pub to_name: String,
}

/// Index of the first `->` in `s` at or after `i`.
fn find_arrow(s: &str, i: usize) -> (r: Option<usize>)
    requires
        i <= s@.len(),
    ensures
        r is None <==> arrow_from(s@, i as nat) is None,
        r matches Some(j) ==> j + 2 <= s@.len() && arrow_from(s@, i as nat) == Some(j as nat),
    decreases s@.len() - i,
{
    let n = s.unicode_len();
    if n < 2 || i > n - 2 {
        None
    } else if s.get_char(i) == '-' && s.get_char(i + 1) == '>' {
        Some(i)
    } else {
        find_arrow(s, i + 1)
    }
}

impl RenameRule {
    /// A substring rule from a pattern `old->new`; a pattern without `->`
    /// replaces itself by nothing.
    pub fn from_pattern(pattern: &str) -> (r: RenameRule)
        ensures
            (r matches RenameRule::Substring { from, to } && from@ == pattern_sides(pattern@).0
                && to@ == pattern_sides(pattern@).1),
    {
        match find_arrow(pattern, 0) {
            Some(i) => {
                let n = pattern.unicode_len();
                let from = pattern.substring_char(0, i).to_owned();
                let to = pattern.substring_char(i + 2, n).to_owned();
                proof {
                    assert(from@ =~= pattern@.take(i as int));
                    assert(to@ =~= pattern@.skip(i + 2));
                }
                RenameRule::Substring { from, to }
            },
            None => RenameRule::Substring { from: pattern.to_owned(), to: String::new() },
        }
    }

    /// A regular-expression rule; the pattern must compile and a replacement
    /// must be given (the pattern is checked first).
    pub fn from_regex(pattern: &str, replacement: Option<&str>) -> (r: Result<RenameRule, RenameError>)
        ensures
            !regex_accepts(pattern@) ==> r matches Err(RenameError::InvalidRegex(_)),
            regex_accepts(pattern@) && replacement is None ==> r matches Err(
                RenameError::MissingReplacement,
            ),
            regex_accepts(pattern@) && replacement is Some ==> (r matches Ok(
                RenameRule::Pattern { regex, replacement: rep },
            ) && regex_source(regex) == pattern@ && rep@ == replacement->0@),
    {
        match compile_regex(pattern) {
            Err(e) => Err(RenameError::InvalidRegex(e)),
            Ok(re) => match replacement {
                Some(rep) => Ok(RenameRule::Pattern { regex: re, replacement: rep.to_owned() }),
                None => Err(RenameError::MissingReplacement),
            },
        }
    }

    /// The new name of a file, when the rule changes it.
    pub fn new_file_name(&self, name: &str) -> (r: Option<String>)
        ensures
            rule_output(*self, name@) != name@ ==> (r matches Some(n) && n@ == rule_output(
                *self,
                name@,
            )),
            rule_output(*self, name@) == name@ ==> r is None,
    {
        let out = match self {
            RenameRule::Substring { from, to } => replace_text(name, from.as_str(), to.as_str()),
            RenameRule::Pattern { regex, replacement } => regex_replace_all(
                regex,
                name,
                replacement.as_str(),
            ),
        };
        if str_eq(out.as_str(), name) {
            None
        } else {
            Some(out)
        }
    }
}

/// The steps planned for the first `n` files: one for each file whose name
/// the rule changes, in order.
pub open spec fn planned_steps(rule: RenameRule, files: Seq<FileName>, n: nat) -> Seq<(Seq<char>, Seq<char>, Seq<char>)>
    decreases n,
{
    if n == 0 {
        Seq::empty()
    } else {
        let rest = planned_steps(rule, files, (n - 1) as nat);
        let f = files[n - 1];
        let out = rule_output(rule, f.name@);
        if out != f.name@ {
            rest.push((f.dir@, f.name@, out))
        } else {
            rest
        }
    }
}

/// A step as (directory, old name, new name).
pub open spec fn step_view(s: RenameStep) -> (Seq<char>, Seq<char>, Seq<char>) {
    (s.dir@, s.from_name@, s.to_name@)
}

/// Plans the renames of `files` under `rule`: one step for each file whose
/// name changes, in order.
pub fn plan_renames(rule: &RenameRule, files: &Vec<FileName>) -> (r: Vec<RenameStep>)
    ensures
        r@.map_values(|s: RenameStep| step_view(s)) == planned_steps(*rule, files@, files@.len()),
{
    let mut out: Vec<RenameStep> = Vec::new();
    let mut i: usize = 0;
    while i < files.len()
        invariant
            i <= files@.len(),
            out@.map_values(|s: RenameStep| step_view(s)) == planned_steps(*rule, files@, i as nat),
        decreases files@.len() - i,
    {
        let f = &files[i];
        match rule.new_file_name(f.name.as_str()) {
            Some(to) => {
                let step = RenameStep {
                    dir: f.dir.clone(),
                    from_name: f.name.clone(),
                    to_name: to,
                };
                let ghost before = out@;
                out.push(step);
                assert(out@.map_values(|s: RenameStep| step_view(s)) =~= before.map_values(
                    |s: RenameStep| step_view(s),
                ).push(step_view(step)));
            },
            None => {},
        }
        i = i + 1;
    }
    out
}

} // verus!
