//! Selection: glob patterns over entry names, the include and exclude
//! filters of each operation, the per-mode decision table and the plan that
//! pairs file system candidates with archive entries.
use crate::cli::{Command, ZipArgs};
use vstd::prelude::*;
use vstd::string::StrSliceExecFns;

verus! {

/// Whether the regex crate compiles `pattern` and finds a match in `name`;
/// `None` when the pattern does not compile.
pub uninterp spec fn regex_match_of(pattern: Seq<char>, name: Seq<char>) -> Option<bool>;

/// Relies on regex::Regex::new and regex::Regex::is_match: compiles the
/// pattern and tests it on the name; a pattern that does not compile gives
/// `None`.
#[verifier::external_body]
fn regex_search(pattern: &Vec<char>, name: &str) -> (r: Option<bool>)
    ensures
        r == regex_match_of(pattern@, name@),
{
    let p: String = pattern.iter().collect();
    match regex::Regex::new(&p) {
        Ok(re) => Some(re.is_match(name)),
        Err(_) => None,
    }
}

/// The characters that have a meaning of their own in a regular expression.
pub open spec fn is_regex_meta(c: char) -> bool {
    c == '\\' || c == '.' || c == '+' || c == '*' || c == '?' || c == '(' || c == ')' || c == '|'
        || c == '[' || c == ']' || c == '{' || c == '}' || c == '^' || c == '$' || c == '#' || c == '&'
        || c == '-' || c == '~'
}

fn regex_meta(c: char) -> (r: bool)
    ensures
        r == is_regex_meta(c),
{
    c == '\\' || c == '.' || c == '+' || c == '*' || c == '?' || c == '(' || c == ')' || c == '|'
        || c == '[' || c == ']' || c == '{' || c == '}' || c == '^' || c == '$' || c == '#' || c == '&'
        || c == '-' || c == '~'
}

/// The regular expression for one glob character: `*` any run, `?` any one
/// character, every other character itself, escaped where the regex syntax
/// gives it a meaning.
pub open spec fn glob_char(c: char) -> Seq<char> {
    if c == '*' {
        seq!['.', '*']
    } else if c == '?' {
        seq!['.']
    } else if is_regex_meta(c) {
        seq!['\\', c]
    } else {
        seq![c]
    }
}

/// The regular expression body of a glob, character by character.
pub open spec fn glob_body(p: Seq<char>) -> Seq<char>
    decreases p.len(),
{
    if p.len() == 0 {
        Seq::empty()
    } else {
        glob_body(p.drop_last()) + glob_char(p.last())
    }
}

/// The glob as a regular expression anchored at both ends; `.` in the
/// expression is made to match line breaks too, so `*` and `?` match any
/// character.
pub open spec fn glob_regex(p: Seq<char>) -> Seq<char> {
    seq!['(', '?', 's', ')', '^'] + glob_body(p) + seq!['$']
}

/// Whether `name` matches `pattern`: literally when wildcards are off, else
/// as a glob; a glob that does not compile matches nothing.
pub open spec fn pattern_matches(name: Seq<char>, pattern: Seq<char>, no_wildcards: bool) -> bool {
    if no_wildcards {
        name == pattern
    } else {
        regex_match_of(glob_regex(pattern), name) == Some(true)
    }
}

fn chars_of(s: &str) -> (r: Vec<char>)
    ensures
        r@ == s@,
{
    let n = s.unicode_len();
    let mut v: Vec<char> = Vec::new();
    let mut i: usize = 0;
    while i < n
        invariant
            0 <= i <= n,
            n == s@.len(),
            v@ == s@.subrange(0, i as int),
        decreases n - i,
    {
        v.push(s.get_char(i));
        i = i + 1;
        assert(v@ =~= s@.subrange(0, i as int));
    }
    assert(v@ =~= s@);
    v
}

fn glob_to_regex(pattern: &str) -> (r: Vec<char>)
    ensures
        r@ == glob_regex(pattern@),
{
    let p = chars_of(pattern);
    let mut v: Vec<char> = Vec::new();
    v.push('(');
    v.push('?');
    v.push('s');
    v.push(')');
    v.push('^');
    let mut i: usize = 0;
    while i < p.len()
        invariant
            0 <= i <= p@.len(),
            v@ == seq!['(', '?', 's', ')', '^'] + glob_body(p@.subrange(0, i as int)),
        decreases p@.len() - i,
    {
        let c = p[i];
        assert(p@.subrange(0, i + 1).drop_last() =~= p@.subrange(0, i as int));
        if c == '*' {
            v.push('.');
            v.push('*');
        } else if c == '?' {
            v.push('.');
        } else if regex_meta(c) {
            v.push('\\');
            v.push(c);
        } else {
            v.push(c);
        }
        i = i + 1;
        assert(v@ =~= seq!['(', '?', 's', ')', '^'] + glob_body(p@.subrange(0, i as int)));
    }
    v.push('$');
    assert(p@.subrange(0, p@.len() as int) =~= p@);
    assert(v@ =~= glob_regex(pattern@));
    v
}

fn str_eq(a: &str, b: &str) -> (r: bool)
    ensures
        r == (a@ == b@),
{
    let n = a.unicode_len();
    if n != b.unicode_len() {
        return false;
    }
    let mut i: usize = 0;
    while i < n
        invariant
            0 <= i <= n,
            n == a@.len(),
            n == b@.len(),
            forall|j: int| 0 <= j < i ==> a@[j] == b@[j],
        decreases n - i,
    {
        if a.get_char(i) != b.get_char(i) {
            return false;
        }
        i = i + 1;
    }
    assert(a@ =~= b@);
    true
}

pub fn match_pattern(name: &str, pattern: &str, no_wildcards: bool) -> (r: bool)
    ensures
        r == pattern_matches(name@, pattern@, no_wildcards),
{
    if no_wildcards {
        return str_eq(name, pattern);
    }
    let re = glob_to_regex(pattern);
    match regex_search(&re, name) {
        Some(b) => b,
        None => false,
    }
}

/// The number of `c` in `s`.
pub open spec fn count_char(s: Seq<char>, c: char) -> nat
    decreases s.len(),
{
    if s.len() == 0 {
        0
    } else {
        count_char(s.drop_last(), c) + if s.last() == c { 1nat } else { 0nat }
    }
}

fn count_char_exec(s: &str, c: char) -> (r: usize)
    ensures
        r == count_char(s@, c),
{
    let n = s.unicode_len();
    let mut k: usize = 0;
    let mut i: usize = 0;
    while i < n
        invariant
            0 <= i <= n,
            n == s@.len(),
            k == count_char(s@.subrange(0, i as int), c),
            k <= i,
        decreases n - i,
    {
        assert(s@.subrange(0, i + 1).drop_last() =~= s@.subrange(0, i as int));
        if s.get_char(i) == c {
            k = k + 1;
        }
        i = i + 1;
    }
    assert(s@.subrange(0, n as int) =~= s@);
    k
}

fn contains_char(s: &str, c: char) -> (r: bool)
    ensures
        r == s@.contains(c),
{
    let n = s.unicode_len();
    let mut i: usize = 0;
    while i < n
        invariant
            0 <= i <= n,
            n == s@.len(),
            forall|j: int| 0 <= j < i ==> s@[j] != c,
        decreases n - i,
    {
        if s.get_char(i) == c {
            return true;
        }
        i = i + 1;
    }
    false
}

/// A pattern match for files being added: with `no_wildcards_boundary`, a
/// pattern holding `*` or `?` only matches names at its own directory depth.
pub open spec fn bounded_matches(name: Seq<char>, pattern: Seq<char>, no_wildcards: bool, boundary: bool) -> bool {
    if boundary && (pattern.contains('*') || pattern.contains('?')) {
        count_char(name, '/') == count_char(pattern, '/') && pattern_matches(name, pattern, no_wildcards)
    } else {
        pattern_matches(name, pattern, no_wildcards)
    }
}

/// Whether some pattern of the list matches.
pub open spec fn any_matches(name: Seq<char>, patterns: Seq<String>, no_wildcards: bool, boundary: bool) -> bool {
    exists|i: int| 0 <= i < patterns.len() && bounded_matches(name, #[trigger] patterns[i]@, no_wildcards, boundary)
}

fn bounded_match(name: &str, pattern: &str, no_wildcards: bool, boundary: bool) -> (r: bool)
    ensures
        r == bounded_matches(name@, pattern@, no_wildcards, boundary),
{
    if boundary && (contains_char(pattern, '*') || contains_char(pattern, '?')) {
        if count_char_exec(name, '/') == count_char_exec(pattern, '/') {
            match_pattern(name, pattern, no_wildcards)
        } else {
            false
        }
    } else {
        match_pattern(name, pattern, no_wildcards)
    }
}

fn any_match(name: &str, patterns: &Vec<String>, no_wildcards: bool, boundary: bool) -> (r: bool)
    ensures
        r == any_matches(name@, patterns@, no_wildcards, boundary),
{
    let mut i: usize = 0;
    while i < patterns.len()
        invariant
            0 <= i <= patterns@.len(),
            forall|j: int|
                0 <= j < i ==> !bounded_matches(name@, #[trigger] patterns@[j]@, no_wildcards, boundary),
        decreases patterns@.len() - i,
    {
        if bounded_match(name, patterns[i].as_str(), no_wildcards, boundary) {
            return true;
        }
        i = i + 1;
    }
    false
}

/// What the filters decide for a name. Archive entries under delete: kept
/// for deletion when an exclude pattern matches; under copy: selected when
/// an include pattern matches (or none is given) and no exclude pattern
/// does; under other operations always. Files being added: as for copy,
/// with the depth rule of `no_wildcards_boundary`.
pub open spec fn filters_spec(name: Seq<char>, args: &ZipArgs, is_archive_file: bool) -> bool {
    let nw = args.other.no_wildcards;
    let inc = args.filter.includes@;
    let exc = args.filter.exclude@;
    if is_archive_file {
        if args.command == Command::Delete {
            any_matches(name, exc, nw, false)
        } else if args.command == Command::Copy {
            (inc.len() == 0 || any_matches(name, inc, nw, false)) && !any_matches(name, exc, nw, false)
        } else {
            true
        }
    } else {
        let b = args.other.no_wildcards_boundary;
        (inc.len() == 0 || any_matches(name, inc, nw, b)) && !any_matches(name, exc, nw, b)
    }
}

pub fn apply_filters(name: &str, args: &ZipArgs, is_archive_file: bool) -> (r: bool)
    ensures
        r == filters_spec(name@, args, is_archive_file),
{
    let nw = args.other.no_wildcards;
    if is_archive_file {
        if args.command == Command::Delete {
            return any_match(name, &args.filter.exclude, nw, false);
        } else if args.command == Command::Copy {
            let included = args.filter.includes.len() == 0 || any_match(
                name,
                &args.filter.includes,
                nw,
                false,
            );
            let excluded = any_match(name, &args.filter.exclude, nw, false);
            return included && !excluded;
        }
        true
    } else {
        let b = args.other.no_wildcards_boundary;
        let included = args.filter.includes.len() == 0 || any_match(name, &args.filter.includes, nw, b);
        let excluded = any_match(name, &args.filter.exclude, nw, b);
        included && !excluded
    }
}

/// Whether included names are reported: verbose, not quiet, and some filter given.
pub fn should_log_inclusion(args: &ZipArgs) -> (r: bool)
    ensures
        r == (!args.basic_options.quiet && args.basic_options.verbose && (args.filter.exclude@.len()
            > 0 || args.filter.includes@.len() > 0)),
{
    !args.basic_options.quiet && args.basic_options.verbose && (args.filter.exclude.len() > 0
        || args.filter.includes.len() > 0)
}

/// Whether excluded names are reported: verbose, not quiet, and some filter given.
pub fn should_log_exclusion(args: &ZipArgs) -> (r: bool)
    ensures
        r == (!args.basic_options.quiet && args.basic_options.verbose && (args.filter.exclude@.len()
            > 0 || args.filter.includes@.len() > 0)),
{
    !args.basic_options.quiet && args.basic_options.verbose && (args.filter.exclude.len() > 0
        || args.filter.includes.len() > 0)
}

/// Whether the date diagnostics of excluded names are shown.
pub fn should_log_date_exclusion(args: &ZipArgs) -> (r: bool)
    ensures
        r == (!args.basic_options.quiet && args.basic_options.verbose),
{
    !args.basic_options.quiet && args.basic_options.verbose
}

} // verus!
