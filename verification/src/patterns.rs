//! The patterns looked for in spec files and build logs, what each of them finds, and the calls
//! into the `regex` crate that find it.
use vstd::prelude::*;

use crate::text;

verus! {

/// The header of a spec section.
pub const SECTION_HEADER: &'static str = r"^%[A-Za-z_]\w*(?:\s|$)";

/// A line that makes the package independent of the architecture.
pub const BUILD_ARCH_NOARCH: &'static str = r"^BuildArch:\s*noarch\s*$";

/// The option with the arguments of the install step.
pub const INSTALL_OPTION: &'static str = r"(?m)^BuildOption\(install\):\s*(.*)$";

/// The option with the arguments of the check step.
pub const CHECK_OPTION: &'static str = r"(?m)^BuildOption\(check\):\s*(.*)$";

/// A version comparison in a requirement.
pub const VERSION_OPERATOR: &'static str = r"\s+(?:[<>=]=?|=)\s+";

/// An argument: a text in double quotes, or what stands between white space.
pub const ARGUMENT: &'static str = r#""[^"]*"|\S+"#;

/// A Python or pkg-config requirement.
pub const BUILD_DEPENDENCY: &'static str = r"(python3dist\([^)]+\)|pkgconfig\([^)]+\))";

/// A requirement that no package provides.
pub const UNRESOLVABLE: &'static str =
    r"(?:nothing provides|unresolvable:\s*nothing provides)\s+((?:python[\d.]*dist|pkgconfig)\([^)]+\))";

/// An absolute path.
pub const ABSOLUTE_PATH: &'static str = r"(/[^\s]+)";

/// The module that an install step did not find.
pub const UNMATCHED_GLOB: &'static str =
    r#"(?m)^(?:\[[^\]]+\]\s*)?(?:ValueError:\s+)?Globs did not match any module:\s*(\S+)\s*$"#;

/// The module that an import check is about to import.
pub const CHECKED_IMPORT: &'static str = r"Check import:\s*(\S+)";

/// The module that an import did not find.
pub const MISSING_MODULE: &'static str = r"No module named '([^']+)'";

/// Whether a character outside ASCII belongs to the class `\w`.
pub uninterp spec fn unicode_word(c: char) -> bool;

/// Whether a character outside ASCII belongs to the class `\d`.
pub uninterp spec fn unicode_digit(c: char) -> bool;

pub open spec fn is_ascii(c: char) -> bool {
    (c as u32) < 128
}

/// The class `\w`. No white space belongs to it.
pub open spec fn is_word(c: char) -> bool {
    if text::is_white(c) {
        false
    } else if is_ascii(c) {
        text::is_ascii_alnum(c) || c == '_'
    } else {
        unicode_word(c)
    }
}

/// The class `\d`.
pub open spec fn is_digit(c: char) -> bool {
    if is_ascii(c) {
        text::is_ascii_digit(c)
    } else {
        unicode_digit(c)
    }
}

/// Where a run of word characters that starts at `i` ends.
pub open spec fn word_end(s: Seq<char>, i: int) -> int
    decreases s.len() - i,
{
    if 0 <= i < s.len() && is_word(s[i]) {
        word_end(s, i + 1)
    } else {
        i
    }
}

/// What [`SECTION_HEADER`] matches: `%`, a letter or `_`, word characters, and then white space
/// or the end.
pub open spec fn is_header(s: Seq<char>) -> bool {
    &&& s.len() >= 2
    &&& s[0] == '%'
    &&& text::is_ascii_letter(s[1]) || s[1] == '_'
    &&& word_end(s, 2) == s.len() || text::is_white(s[word_end(s, 2)])
}

/// What [`BUILD_ARCH_NOARCH`] matches.
pub open spec fn is_noarch(s: Seq<char>) -> bool {
    match text::strip_prefix(s, "BuildArch:"@) {
        Some(rest) => text::trim(rest) == "noarch"@,
        None => false,
    }
}

/// A line starts at `i`.
pub open spec fn at_line_start(s: Seq<char>, i: int) -> bool {
    i == 0 || (0 < i <= s.len() && s[i - 1] == '\n')
}

/// The first position at or behind `i` where a line starts with `tag`.
pub open spec fn tagged_line_from(s: Seq<char>, tag: Seq<char>, i: int) -> Option<int>
    decreases s.len() + 1 - i,
{
    if i < 0 || i > s.len() {
        None
    } else if at_line_start(s, i) && text::occurs_at(s, tag, i) {
        Some(i)
    } else {
        tagged_line_from(s, tag, i + 1)
    }
}

/// What [`INSTALL_OPTION`] and [`CHECK_OPTION`] find: the first line that starts with `tag`, up
/// to the end of the line that holds the first character behind `tag` other than white space,
/// and what stands there from that character on.
pub open spec fn tagged_option(s: Seq<char>, tag: Seq<char>) -> Option<(Seq<char>, Seq<char>)> {
    match tagged_line_from(s, tag, 0) {
        Some(i) => {
            let from = text::white_end(s, i + tag.len());
            let to = text::index_of(s, '\n', from);
            Some((s.subrange(i, to), s.subrange(from, to)))
        },
        None => None,
    }
}

/// White space, a comparison and white space stand at `i`.
pub open spec fn operator_at(s: Seq<char>, i: int) -> bool {
    let w = text::white_end(s, i);
    let o = if w + 1 < s.len() && s[w + 1] == '=' {
        w + 2
    } else {
        w + 1
    };
    &&& 0 <= i < w
    &&& o < s.len()
    &&& s[w] == '<' || s[w] == '>' || s[w] == '='
    &&& text::is_white(s[o])
}

/// The first position at or behind `i` of a version comparison, the length of the text where
/// there is none.
pub open spec fn operator_from(s: Seq<char>, i: int) -> int
    decreases s.len() - i,
{
    if 0 <= i < s.len() && !operator_at(s, i) {
        operator_from(s, i + 1)
    } else {
        i
    }
}

/// What stands before the first match of [`VERSION_OPERATOR`].
pub open spec fn before_operator(s: Seq<char>) -> Seq<char> {
    s.take(operator_from(s, 0))
}

/// Where the argument that starts at `k` ends.
pub open spec fn argument_end(s: Seq<char>, k: int) -> int {
    if s[k] == '"' && text::index_of(s, '"', k + 1) < s.len() {
        text::index_of(s, '"', k + 1) + 1
    } else {
        text::dark_end(s, k)
    }
}

/// The matches of [`ARGUMENT`] from position `i` on.
pub open spec fn arguments_from(s: Seq<char>, i: int) -> Seq<Seq<char>>
    decreases s.len() - i,
{
    let k = text::white_end(s, i);
    let e = argument_end(s, k);
    if 0 <= i <= k < e <= s.len() {
        seq![s.subrange(k, e)] + arguments_from(s, e)
    } else {
        seq![]
    }
}

pub open spec fn arguments(s: Seq<char>) -> Seq<Seq<char>> {
    arguments_from(s, 0)
}

/// Where the closing parenthesis stands of what opens before `i`, with something in between.
pub open spec fn closing(s: Seq<char>, i: int) -> Option<int> {
    let j = text::index_of(s, ')', i);
    if i < j < s.len() {
        Some(j + 1)
    } else {
        None
    }
}

/// Where a match of [`BUILD_DEPENDENCY`] that starts at `i` ends.
pub open spec fn dependency_end(s: Seq<char>, i: int) -> Option<int> {
    if text::occurs_at(s, "python3dist("@, i) {
        closing(s, i + "python3dist("@.len())
    } else if text::occurs_at(s, "pkgconfig("@, i) {
        closing(s, i + "pkgconfig("@.len())
    } else {
        None
    }
}

/// The first match of [`BUILD_DEPENDENCY`] at or behind `i`.
pub open spec fn dependency_from(s: Seq<char>, i: int) -> Option<Seq<char>>
    decreases s.len() - i,
{
    if i < 0 || i >= s.len() {
        None
    } else {
        match dependency_end(s, i) {
            Some(e) => Some(s.subrange(i, e)),
            None => dependency_from(s, i + 1),
        }
    }
}

/// Where a run of digits and dots that starts at `i` ends.
pub open spec fn version_end(s: Seq<char>, i: int) -> int
    decreases s.len() - i,
{
    if 0 <= i < s.len() && (is_digit(s[i]) || s[i] == '.') {
        version_end(s, i + 1)
    } else {
        i
    }
}

/// Where a requirement of [`UNRESOLVABLE`] that starts at `i` ends.
pub open spec fn requirement_end(s: Seq<char>, i: int) -> Option<int> {
    if text::occurs_at(s, "python"@, i) {
        let v = version_end(s, i + "python"@.len());
        if text::occurs_at(s, "dist("@, v) {
            closing(s, v + "dist("@.len())
        } else {
            None
        }
    } else if text::occurs_at(s, "pkgconfig("@, i) {
        closing(s, i + "pkgconfig("@.len())
    } else {
        None
    }
}

/// The requirement that `nothing provides` at `k` speaks of: where it starts and ends.
pub open spec fn unprovided_at(s: Seq<char>, k: int) -> Option<(int, int)> {
    let head = k + "nothing provides"@.len();
    let w = text::white_end(s, head);
    if text::occurs_at(s, "nothing provides"@, k) && w > head {
        match requirement_end(s, w) {
            Some(e) => Some((w, e)),
            None => None,
        }
    } else {
        None
    }
}

/// The requirements in the matches of [`UNRESOLVABLE`] at or behind `i`.
pub open spec fn unprovided_from(s: Seq<char>, i: int) -> Seq<Seq<char>>
    decreases s.len() - i,
{
    if i < 0 || i >= s.len() {
        seq![]
    } else {
        match unprovided_at(s, i) {
            Some((w, e)) => if i < e {
                seq![s.subrange(w, e)] + unprovided_from(s, e)
            } else {
                seq![]
            },
            None => unprovided_from(s, i + 1),
        }
    }
}

/// The first match of [`ABSOLUTE_PATH`] at or behind `i`.
pub open spec fn path_from(s: Seq<char>, i: int) -> Option<Seq<char>>
    decreases s.len() - i,
{
    if i < 0 || i + 1 >= s.len() {
        None
    } else if s[i] == '/' && !text::is_white(s[i + 1]) {
        Some(s.subrange(i, text::dark_end(s, i)))
    } else {
        path_from(s, i + 1)
    }
}

/// The module in a match of [`UNMATCHED_GLOB`] that starts at `i`: behind an optional text in
/// square brackets and an optional `ValueError:`, what follows the message as the last word of
/// its line.
pub open spec fn unmatched_glob_at(s: Seq<char>, i: int) -> Option<(int, int)> {
    let bracket = text::index_of(s, ']', i + 1);
    let a = if 0 <= i < s.len() && s[i] == '[' && i + 1 < bracket < s.len() {
        text::white_end(s, bracket + 1)
    } else {
        i
    };
    let error = a + "ValueError:"@.len();
    let b = if text::occurs_at(s, "ValueError:"@, a) && text::white_end(s, error) > error {
        text::white_end(s, error)
    } else {
        a
    };
    let from = text::white_end(s, b + "Globs did not match any module:"@.len());
    let to = text::dark_end(s, from);
    let eol = text::index_of(s, '\n', to);
    if text::occurs_at(s, "Globs did not match any module:"@, b) && from < to && text::white_end(
        s,
        to,
    ) >= eol {
        Some((from, to))
    } else {
        None
    }
}

/// The module in the first match of [`UNMATCHED_GLOB`] at or behind `i`.
pub open spec fn unmatched_glob_from(s: Seq<char>, i: int) -> Option<Seq<char>>
    decreases s.len() - i,
{
    if i < 0 || i >= s.len() {
        None
    } else if at_line_start(s, i) && unmatched_glob_at(s, i) is Some {
        let (from, to) = unmatched_glob_at(s, i)->0;
        Some(s.subrange(from, to))
    } else {
        unmatched_glob_from(s, i + 1)
    }
}

/// The modules in the matches of [`CHECKED_IMPORT`] at or behind `i`.
pub open spec fn checked_imports_from(s: Seq<char>, i: int) -> Seq<Seq<char>>
    decreases s.len() - i,
{
    let w = text::white_end(s, i + "Check import:"@.len());
    let e = text::dark_end(s, w);
    if i < 0 || i >= s.len() {
        seq![]
    } else if text::occurs_at(s, "Check import:"@, i) && i < w < e <= s.len() {
        seq![s.subrange(w, e)] + checked_imports_from(s, e)
    } else {
        checked_imports_from(s, i + 1)
    }
}

/// Where the module of a match of [`MISSING_MODULE`] that starts at `i` starts and ends.
pub open spec fn missing_module_at(s: Seq<char>, i: int) -> Option<(int, int)> {
    let from = i + "No module named '"@.len();
    let to = text::index_of(s, '\'', from);
    if text::occurs_at(s, "No module named '"@, i) && from < to < s.len() {
        Some((from, to))
    } else {
        None
    }
}

/// The modules in the matches of [`MISSING_MODULE`] at or behind `i`.
pub open spec fn missing_modules_from(s: Seq<char>, i: int) -> Seq<Seq<char>>
    decreases s.len() - i,
{
    if i < 0 || i >= s.len() {
        seq![]
    } else {
        match missing_module_at(s, i) {
            Some((from, to)) => if i < to {
                seq![s.subrange(from, to)] + missing_modules_from(s, to + 1)
            } else {
                seq![]
            },
            None => missing_modules_from(s, i + 1),
        }
    }
}

/// The first of a list of texts.
pub open spec fn first_of(v: Seq<Seq<char>>) -> Option<Seq<char>> {
    if v.len() > 0 {
        Some(v[0])
    } else {
        None
    }
}

/// `regex::Regex::is_match`: whether the pattern matches somewhere in the text. For the two
/// patterns that it is asked about, this is [`is_header`] and [`is_noarch`]; that a character
/// outside ASCII is a word character shows where it stands behind `%a`.
#[verifier::external_body]
pub(crate) fn regex_is_match(pattern: &str, text: &str) -> (r: bool)
    requires
        pattern@ == SECTION_HEADER@ || pattern@ == BUILD_ARCH_NOARCH@,
    ensures
        pattern@ == SECTION_HEADER@ ==> r == is_header(text@),
        pattern@ == SECTION_HEADER@ && text@.len() == 3 && text@[0] == '%' && text@[1] == 'a'
            && !is_ascii(text@[2]) && !text::is_white(text@[2]) ==> r == unicode_word(text@[2]),
        pattern@ == BUILD_ARCH_NOARCH@ ==> r == is_noarch(text@),
{
    regex::Regex::new(pattern).expect("valid pattern").is_match(text)
}

/// The model of the whole match and the first group.
pub open spec fn opt_groups(o: Option<(String, String)>) -> Option<(Seq<char>, Seq<char>)> {
    match o {
        Some((whole, group)) => Some((whole@, group@)),
        None => None,
    }
}

pub open spec fn opt_group(o: Option<(String, String)>) -> Option<Seq<char>> {
    match o {
        Some((whole, group)) => Some(group@),
        None => None,
    }
}

/// `regex::Regex::captures`: the first match of the pattern, and its first group. Both are
/// stated for the options; of the patterns for logs only the group is, which is all that is
/// read of them.
#[verifier::external_body]
pub(crate) fn regex_captures(pattern: &str, text: &str) -> (r: Option<(String, String)>)
    requires
        pattern@ == INSTALL_OPTION@ || pattern@ == CHECK_OPTION@ || pattern@ == BUILD_DEPENDENCY@
            || pattern@ == ABSOLUTE_PATH@ || pattern@ == UNMATCHED_GLOB@ || pattern@
            == MISSING_MODULE@,
    ensures
        pattern@ == INSTALL_OPTION@ ==> opt_groups(r) == tagged_option(
            text@,
            "BuildOption(install):"@,
        ),
        pattern@ == CHECK_OPTION@ ==> opt_groups(r) == tagged_option(
            text@,
            "BuildOption(check):"@,
        ),
        pattern@ == BUILD_DEPENDENCY@ ==> opt_group(r) == dependency_from(text@, 0),
        pattern@ == ABSOLUTE_PATH@ ==> opt_group(r) == path_from(text@, 0),
        pattern@ == UNMATCHED_GLOB@ ==> opt_group(r) == unmatched_glob_from(text@, 0),
        pattern@ == MISSING_MODULE@ ==> opt_group(r) == first_of(missing_modules_from(text@, 0)),
{
    let re = regex::Regex::new(pattern).expect("valid pattern");
    re.captures(text).map(|found| (found[0].to_owned(), found[1].to_owned()))
}

/// `regex::Regex::captures_iter`: the first group of each match of the pattern, from left to
/// right, no two of them overlapping. That a character outside ASCII is a digit shows where it
/// stands as the version of a requirement.
#[verifier::external_body]
pub(crate) fn regex_captures_iter(pattern: &str, text: &str) -> (r: Vec<String>)
    requires
        pattern@ == UNRESOLVABLE@ || pattern@ == CHECKED_IMPORT@ || pattern@ == MISSING_MODULE@,
    ensures
        pattern@ == UNRESOLVABLE@ ==> text::texts(r@) == unprovided_from(text@, 0),
        pattern@ == UNRESOLVABLE@ && text@.len() == 31 && text@ == "nothing provides python"@
            + seq![text@[23]] + "dist(x)"@ && !is_ascii(text@[23]) ==> (r@.len() == 1)
            == unicode_digit(text@[23]),
        pattern@ == CHECKED_IMPORT@ ==> text::texts(r@) == checked_imports_from(text@, 0),
        pattern@ == MISSING_MODULE@ ==> text::texts(r@) == missing_modules_from(text@, 0),
{
    let re = regex::Regex::new(pattern).expect("valid pattern");
    re.captures_iter(text).map(|found| found[1].to_owned()).collect()
}

/// `regex::Regex::find_iter`: the matches of the pattern, from left to right.
#[verifier::external_body]
pub(crate) fn regex_find_iter(pattern: &str, text: &str) -> (r: Vec<String>)
    requires
        pattern@ == ARGUMENT@,
    ensures
        text::texts(r@) == arguments(text@),
{
    let re = regex::Regex::new(pattern).expect("valid pattern");
    re.find_iter(text).map(|found| found.as_str().to_owned()).collect()
}

/// `regex::Regex::split`: the first of the pieces that the matches of the pattern separate. There
/// is always one.
#[verifier::external_body]
pub(crate) fn regex_split_first(pattern: &str, text: &str) -> (r: Option<String>)
    requires
        pattern@ == VERSION_OPERATOR@,
    ensures
        text::opt_text(r) == Some(before_operator(text@)),
{
    let re = regex::Regex::new(pattern).expect("valid pattern");
    let first = re.split(text).next().map(|piece| piece.to_owned());
    first
}

} // verus!
