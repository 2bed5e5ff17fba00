//! Reading and changing the text of RPM spec files.
use vstd::prelude::*;

use crate::patterns;
use crate::patterns::{
    regex_captures, regex_find_iter, regex_is_match, regex_split_first, ARGUMENT,
    BUILD_ARCH_NOARCH, CHECK_OPTION, INSTALL_OPTION, SECTION_HEADER, VERSION_OPERATOR,
};
use crate::pieces;
use crate::pieces::{
    add_unique, has_text, insert_sorted, joined, lines_of, push_unique, replaced, replaced_first,
    split_at_first,
};
use crate::report::push_line;
use crate::text;
use crate::text::{
    cat2, cat3, holds, has_prefix, has_suffix, is_empty, same, trimmed, trimmed_char, trimmed_end,
    trimmed_start, without_prefix, without_suffix,
};

verus! {

/// Each line without the white space at its end.
pub open spec fn trim_end_each(v: Seq<Seq<char>>) -> Seq<Seq<char>> {
    Seq::new(v.len(), |i: int| text::trim_end(v[i]))
}

/// `v` without the empty lines at its end.
pub open spec fn drop_empty_end(v: Seq<Seq<char>>) -> Seq<Seq<char>>
    decreases v.len(),
{
    if v.len() > 0 && v.last().len() == 0 {
        drop_empty_end(v.drop_last())
    } else {
        v
    }
}

/// The lines of a normalised text that has these lines.
pub open spec fn tidy(v: Seq<Seq<char>>) -> Seq<Seq<char>> {
    drop_empty_end(trim_end_each(v))
}

/// A text without white space at the end of its lines and without empty lines at its end, which
/// ends with a line feed.
pub open spec fn normalized(s: Seq<char>) -> Seq<char> {
    pieces::join(tidy(pieces::lines(s)), "\n"@) + "\n"@
}

/// The normalised text of a list of lines.
pub open spec fn text_of(v: Seq<Seq<char>>) -> Seq<char> {
    normalized(pieces::join(v, "\n"@))
}

pub fn normalize_spec(spec_text: &str) -> (r: String)
    ensures
        r@ == normalized(spec_text@),
{
    let lines = lines_of(spec_text);
    let mut v: Vec<String> = Vec::new();
    let mut i: usize = 0;
    while i < lines.len()
        invariant
            i <= lines@.len(),
            v@.len() == i,
            forall|k: int| 0 <= k < i ==> (#[trigger] v@[k])@ == text::trim_end(lines@[k]@),
        decreases lines@.len() - i,
    {
        v.push(trimmed_end(lines[i].as_str()));
        i += 1;
    }
    assert(text::texts(v@) =~= trim_end_each(text::texts(lines@)));
    while v.len() > 0 && is_empty(v[v.len() - 1].as_str())
        invariant
            drop_empty_end(text::texts(v@)) == tidy(text::texts(lines@)),
        decreases v@.len(),
    {
        let ghost before = text::texts(v@);
        v.pop();
        assert(text::texts(v@) =~= before.drop_last());
    }
    cat2(joined(&v, "\n").as_str(), "\n")
}

fn text_of_lines(lines: &[String]) -> (r: String)
    ensures
        r@ == text_of(text::texts(lines@)),
{
    normalize_spec(joined(lines, "\n").as_str())
}

/// The first line at or behind `i` that starts with `prefix`, the number of lines where there is
/// none.
pub open spec fn line_from(v: Seq<Seq<char>>, prefix: Seq<char>, i: int) -> int
    decreases v.len() - i,
{
    if 0 <= i < v.len() && !text::starts_with(v[i], prefix) {
        line_from(v, prefix, i + 1)
    } else {
        i
    }
}

/// The last line before `j` that starts with `prefix`, -1 where there is none.
pub open spec fn line_before(v: Seq<Seq<char>>, prefix: Seq<char>, j: int) -> int
    decreases j,
{
    if 0 < j <= v.len() && !text::starts_with(v[j - 1], prefix) {
        line_before(v, prefix, j - 1)
    } else {
        j - 1
    }
}

fn first_line(lines: &[String], prefix: &str) -> (r: usize)
    ensures
        r == line_from(text::texts(lines@), prefix@, 0),
        r <= lines@.len(),
{
    let mut i: usize = 0;
    while i < lines.len() && !has_prefix(lines[i].as_str(), prefix)
        invariant
            i <= lines@.len(),
            line_from(text::texts(lines@), prefix@, 0) == line_from(
                text::texts(lines@),
                prefix@,
                i as int,
            ),
        decreases lines@.len() - i,
    {
        i += 1;
    }
    i
}

/// The place behind the last line that starts with `prefix`, 0 where there is none.
fn behind_last_line(lines: &[String], prefix: &str) -> (r: usize)
    ensures
        r == line_before(text::texts(lines@), prefix@, lines@.len() as int) + 1,
        r <= lines@.len(),
{
    let mut i: usize = lines.len();
    while i > 0 && !has_prefix(lines[i - 1].as_str(), prefix)
        invariant
            i <= lines@.len(),
            line_before(text::texts(lines@), prefix@, lines@.len() as int) == line_before(
                text::texts(lines@),
                prefix@,
                i as int,
            ),
        decreases i,
    {
        i -= 1;
    }
    i
}

/// `v` with the lines of `more` from place `at` on.
pub open spec fn with_lines(v: Seq<Seq<char>>, at: int, more: Seq<Seq<char>>) -> Seq<Seq<char>> {
    v.take(at) + more + v.skip(at)
}

fn insert_lines(lines: &mut Vec<String>, at: usize, more: &[String])
    requires
        at <= old(lines)@.len(),
    ensures
        text::texts(final(lines)@) == with_lines(
            text::texts(old(lines)@),
            at as int,
            text::texts(more@),
        ),
{
    let ghost before = text::texts(lines@);
    let ghost all = text::texts(more@);
    let mut i: usize = more.len();
    assert(before =~= with_lines(before, at as int, all.skip(i as int)));
    while i > 0
        invariant
            i <= more@.len(),
            at <= lines@.len(),
            at <= before.len(),
            all == text::texts(more@),
            text::texts(lines@) == with_lines(before, at as int, all.skip(i as int)),
        decreases i,
    {
        i -= 1;
        let ghost mid = text::texts(lines@);
        lines.insert(at, more[i].clone());
        assert(text::texts(lines@) =~= mid.insert(at as int, all[i as int]));
        assert(mid.insert(at as int, all[i as int]) =~= with_lines(
            before,
            at as int,
            all.skip(i as int),
        ));
    }
    assert(all.skip(0) =~= all);
}

/// The first value that a line gives for `prefix`.
pub open spec fn value_from(v: Seq<Seq<char>>, prefix: Seq<char>, i: int) -> Option<Seq<char>>
    decreases v.len() - i,
{
    if i < 0 || i >= v.len() {
        None
    } else {
        match text::strip_prefix(v[i], prefix) {
            Some(rest) => if text::trim(rest).len() > 0 {
                Some(text::trim(rest))
            } else {
                value_from(v, prefix, i + 1)
            },
            None => value_from(v, prefix, i + 1),
        }
    }
}

/// The value of a tag: what the first line gives that gives one.
pub open spec fn tag_text(spec_text: Seq<char>, tag: Seq<char>) -> Option<Seq<char>> {
    value_from(pieces::lines(spec_text), tag + ":"@, 0)
}

#[verifier::loop_isolation(false)]
pub fn tag_value(spec_text: &str, tag: &str) -> (r: Option<String>)
    ensures
        text::opt_text(r) == tag_text(spec_text@, tag@),
{
    let prefix = cat2(tag, ":");
    let lines = lines_of(spec_text);
    let mut i: usize = 0;
    while i < lines.len()
        invariant
            i <= lines@.len(),
            value_from(text::texts(lines@), prefix@, 0) == value_from(
                text::texts(lines@),
                prefix@,
                i as int,
            ),
        decreases lines@.len() - i,
    {
        match without_prefix(lines[i].as_str(), prefix.as_str()) {
            Some(rest) => {
                let value = trimmed(rest.as_str());
                if !is_empty(value.as_str()) {
                    return Some(value);
                }
            },
            None => {},
        }
        i += 1;
    }
    None
}

/// The package name that the lines from `i` on declare: the value of the first `Name` before
/// which every line has a colon, unless it is empty or holds a macro.
pub open spec fn name_from(v: Seq<Seq<char>>, i: int) -> Option<Seq<char>>
    decreases v.len() - i,
{
    if i < 0 || i >= v.len() {
        None
    } else {
        match pieces::split_once(v[i], ":"@) {
            Some((key, value)) => if text::trim(key) != "Name"@ {
                name_from(v, i + 1)
            } else if text::trim(value).len() == 0 || text::contains(text::trim(value), "%{"@) {
                None
            } else {
                Some(text::trim(value))
            },
            None => None,
        }
    }
}

pub open spec fn declared_name(spec_text: Seq<char>) -> Option<Seq<char>> {
    name_from(pieces::lines(spec_text), 0)
}

#[verifier::loop_isolation(false)]
pub fn declared_package_name(spec_text: &str) -> (r: Option<String>)
    ensures
        text::opt_text(r) == declared_name(spec_text@),
{
    let lines = lines_of(spec_text);
    let mut i: usize = 0;
    while i < lines.len()
        invariant
            i <= lines@.len(),
            name_from(text::texts(lines@), 0) == name_from(text::texts(lines@), i as int),
        decreases lines@.len() - i,
    {
        match split_at_first(lines[i].as_str(), ":") {
            Some((key, value)) => {
                if same(trimmed(key.as_str()).as_str(), "Name") {
                    let value = trimmed(value.as_str());
                    if is_empty(value.as_str()) || holds(value.as_str(), "%{") {
                        return None;
                    }
                    return Some(value);
                }
            },
            None => return None,
        }
        i += 1;
    }
    None
}

/// The name of a spec file without its ending, and without the prefix of a file that a source
/// service made.
pub open spec fn spec_base_name(file_name: Seq<char>) -> Option<Seq<char>> {
    match text::strip_suffix(file_name, ".spec"@) {
        Some(stem) => {
            let base = match text::strip_prefix(stem, "_service:obs_scm:"@) {
                Some(rest) => rest,
                None => stem,
            };
            if base.len() == 0 {
                None
            } else {
                Some(base)
            }
        },
        None => None,
    }
}

pub fn spec_file_basename(file_name: &str) -> (r: Option<String>)
    ensures
        text::opt_text(r) == spec_base_name(file_name@),
{
    match without_suffix(file_name, ".spec") {
        Some(stem) => {
            let base = match without_prefix(stem.as_str(), "_service:obs_scm:") {
                Some(rest) => rest,
                None => stem,
            };
            if is_empty(base.as_str()) {
                None
            } else {
                Some(base)
            }
        },
        None => None,
    }
}

/// A text that ends with a line feed.
pub open spec fn with_line_feed(s: Seq<char>) -> Seq<char> {
    if text::ends_with(s, "\n"@) {
        s
    } else {
        s + "\n"@
    }
}

/// What is written to the file of a spec.
pub fn spec_file_text(spec_text: &str) -> (r: String)
    ensures
        r@ == with_line_feed(spec_text@),
{
    if has_suffix(spec_text, "\n") {
        spec_text.to_owned()
    } else {
        cat2(spec_text, "\n")
    }
}

/// A requirement without its version.
pub open spec fn requirement_name(dep: Seq<char>) -> Seq<char> {
    patterns::before_operator(text::trim(dep))
}

fn dep_identity(dep: &str) -> (r: String)
    ensures
        r@ == requirement_name(dep@),
{
    match regex_split_first(VERSION_OPERATOR, trimmed(dep).as_str()) {
        Some(name) => name,
        None => dep.to_owned(),
    }
}

/// The build requirements of a spec, each with and without its version.
pub open spec fn known_requirements(v: Seq<Seq<char>>) -> Seq<Seq<char>>
    decreases v.len(),
{
    if v.len() == 0 {
        seq![]
    } else {
        match text::strip_prefix(v.last(), "BuildRequires:"@) {
            Some(dep) => known_requirements(v.drop_last()).push(
                requirement_name(text::trim(dep)),
            ).push(text::trim(dep)),
            None => known_requirements(v.drop_last()),
        }
    }
}

/// `known` with the requirements `added`, each with and without its version.
pub open spec fn with_requirements(known: Seq<Seq<char>>, added: Seq<Seq<char>>) -> Seq<Seq<char>>
    decreases added.len(),
{
    if added.len() == 0 {
        known
    } else {
        with_requirements(known, added.drop_last()).push(requirement_name(added.last())).push(
            added.last(),
        )
    }
}

/// Of `deps` those that are not known, neither with nor without their version.
pub open spec fn new_requirements(known: Seq<Seq<char>>, deps: Seq<Seq<char>>) -> Seq<Seq<char>>
    decreases deps.len(),
{
    if deps.len() == 0 {
        seq![]
    } else {
        let added = new_requirements(known, deps.drop_last());
        let seen = with_requirements(known, added);
        let dep = text::trim(deps.last());
        if dep.len() == 0 || seen.contains(dep) || seen.contains(requirement_name(dep)) {
            added
        } else {
            added.push(dep)
        }
    }
}

/// Where new build requirements go: behind the last one, else before the first macro, else at the
/// end.
pub open spec fn requirement_place(v: Seq<Seq<char>>) -> int {
    if line_before(v, "BuildRequires:"@, v.len() as int) >= 0 {
        line_before(v, "BuildRequires:"@, v.len() as int) + 1
    } else {
        line_from(v, "%"@, 0)
    }
}

/// `spec_text` with the requirements among `deps` that it does not have yet.
pub open spec fn with_buildrequires(spec_text: Seq<char>, deps: Seq<Seq<char>>) -> Seq<char> {
    let v = pieces::lines(spec_text);
    let added = new_requirements(known_requirements(v), deps);
    if added.len() == 0 {
        spec_text
    } else {
        text_of(with_lines(v, requirement_place(v), pieces::prefix_each("BuildRequires:  "@, added)))
    }
}

fn known_requirement_list(lines: &[String]) -> (r: Vec<String>)
    ensures
        text::texts(r@) == known_requirements(text::texts(lines@)),
{
    let ghost all = text::texts(lines@);
    let mut known: Vec<String> = Vec::new();
    assert(text::texts(known@) =~= seq![]);
    let mut i: usize = 0;
    while i < lines.len()
        invariant
            i <= lines@.len(),
            all == text::texts(lines@),
            text::texts(known@) == known_requirements(all.take(i as int)),
        decreases lines@.len() - i,
    {
        match without_prefix(lines[i].as_str(), "BuildRequires:") {
            Some(dep) => {
                let dep = trimmed(dep.as_str());
                push_line(&mut known, dep_identity(dep.as_str()));
                push_line(&mut known, dep);
            },
            None => {},
        }
        i += 1;
        assert(all.take(i as int).drop_last() =~= all.take(i - 1));
    }
    assert(all.take(all.len() as int) =~= all);
    known
}

pub fn add_buildrequires(spec_text: &str, deps: &[String]) -> (r: String)
    ensures
        r@ == with_buildrequires(spec_text@, text::texts(deps@)),
{
    let mut lines = lines_of(spec_text);
    let mut seen = known_requirement_list(&lines);
    let ghost known = text::texts(seen@);
    let ghost all = text::texts(deps@);
    let ghost mut added: Seq<Seq<char>> = seq![];
    let mut additions: Vec<String> = Vec::new();
    let mut i: usize = 0;
    assert(text::texts(additions@) =~= pieces::prefix_each("BuildRequires:  "@, added));
    while i < deps.len()
        invariant
            i <= deps@.len(),
            all == text::texts(deps@),
            added == new_requirements(known, all.take(i as int)),
            text::texts(seen@) == with_requirements(known, added),
            text::texts(additions@) == pieces::prefix_each("BuildRequires:  "@, added),
        decreases deps@.len() - i,
    {
        assert(all.take(i + 1).drop_last() =~= all.take(i as int));
        let dep = trimmed(deps[i].as_str());
        if !is_empty(dep.as_str()) {
            let identity = dep_identity(dep.as_str());
            if !has_text(&seen, dep.as_str()) && !has_text(&seen, identity.as_str()) {
                let ghost before = added;
                push_line(&mut additions, cat2("BuildRequires:  ", dep.as_str()));
                push_line(&mut seen, identity);
                proof {
                    added = added.push(dep@);
                    assert(added.drop_last() =~= before);
                    assert(pieces::prefix_each("BuildRequires:  "@, added) =~= pieces::prefix_each(
                        "BuildRequires:  "@,
                        before,
                    ).push("BuildRequires:  "@ + dep@));
                }
                push_line(&mut seen, dep);
            }
        }
        i += 1;
    }
    assert(all.take(all.len() as int) =~= all);
    if additions.len() == 0 {
        assert(added.len() == 0);
        return spec_text.to_owned();
    }
    assert(text::texts(additions@).len() == additions@.len());
    let behind: usize = behind_last_line(&lines, "BuildRequires:");
    let at: usize = if behind > 0 {
        behind
    } else {
        first_line(&lines, "%")
    };
    insert_lines(&mut lines, at, &additions);
    text_of_lines(&lines)
}

/// A line starts a section of the spec: it has the form of a section header and is none of the
/// macros that stand in a file list.
pub open spec fn starts_section(line: Seq<char>) -> bool {
    &&& patterns::is_header(line)
    &&& !text::starts_with(line, "%dir"@)
    &&& !text::starts_with(line, "%doc"@)
    &&& !text::starts_with(line, "%license"@)
}

pub fn is_section_header(line: &str) -> (r: bool)
    ensures
        r == starts_section(line@),
{
    regex_is_match(SECTION_HEADER, line) && !has_prefix(line, "%dir") && !has_prefix(line, "%doc")
        && !has_prefix(line, "%license")
}

/// Where the section ends that holds line `i`: at the next section header, or at the end.
pub open spec fn section_end(v: Seq<Seq<char>>, i: int) -> int
    decreases v.len() - i,
{
    if 0 <= i < v.len() && !starts_section(v[i]) {
        section_end(v, i + 1)
    } else {
        i
    }
}

fn section_end_at(lines: &[String], start: usize) -> (r: usize)
    requires
        start <= lines@.len(),
    ensures
        r == section_end(text::texts(lines@), start as int),
        start <= r <= lines@.len(),
{
    let mut i: usize = start;
    while i < lines.len() && !is_section_header(lines[i].as_str())
        invariant
            start <= i <= lines@.len(),
            section_end(text::texts(lines@), start as int) == section_end(
                text::texts(lines@),
                i as int,
            ),
        decreases lines@.len() - i,
    {
        i += 1;
    }
    i
}

/// A path behind the prefix `dir`, with the macro for it in place of `dir`.
pub open spec fn under(path: Seq<char>, dir: Seq<char>, name: Seq<char>) -> Option<Seq<char>> {
    match text::strip_prefix(path, dir) {
        Some(rest) => Some(name + rest),
        None => None,
    }
}

/// A path with the macro for the directory that holds it.
pub open spec fn path_macro(path: Seq<char>) -> Seq<char> {
    let found = text::or_else(
        under(path, "/usr/bin/"@, "%{_bindir}/"@),
        text::or_else(
            under(path, "/usr/sbin/"@, "%{_sbindir}/"@),
            text::or_else(
                under(path, "/usr/libexec/"@, "%{_libexecdir}/"@),
                text::or_else(
                    under(path, "/usr/share/man/"@, "%{_mandir}/"@),
                    text::or_else(
                        under(path, "/usr/share/"@, "%{_datadir}/"@),
                        text::or_else(
                            under(path, "/etc/"@, "%{_sysconfdir}/"@),
                            text::or_else(
                                under(path, "/usr/include/"@, "%{_includedir}/"@),
                                text::or_else(
                                    under(path, "/usr/lib64/"@, "%{_libdir}/"@),
                                    under(path, "/usr/lib/"@, "%{_prefix}/lib/"@),
                                ),
                            ),
                        ),
                    ),
                ),
            ),
        ),
    );
    match found {
        Some(entry) => entry,
        None => path,
    }
}

fn entry_under(path: &str, dir: &str, name: &str) -> (r: Option<String>)
    ensures
        text::opt_text(r) == under(path@, dir@, name@),
{
    match without_prefix(path, dir) {
        Some(rest) => Some(cat2(name, rest.as_str())),
        None => None,
    }
}

pub fn path_to_macro(path: &str) -> (r: String)
    ensures
        r@ == path_macro(path@),
{
    if let Some(entry) = entry_under(path, "/usr/bin/", "%{_bindir}/") {
        return entry;
    }
    if let Some(entry) = entry_under(path, "/usr/sbin/", "%{_sbindir}/") {
        return entry;
    }
    if let Some(entry) = entry_under(path, "/usr/libexec/", "%{_libexecdir}/") {
        return entry;
    }
    if let Some(entry) = entry_under(path, "/usr/share/man/", "%{_mandir}/") {
        return entry;
    }
    if let Some(entry) = entry_under(path, "/usr/share/", "%{_datadir}/") {
        return entry;
    }
    if let Some(entry) = entry_under(path, "/etc/", "%{_sysconfdir}/") {
        return entry;
    }
    if let Some(entry) = entry_under(path, "/usr/include/", "%{_includedir}/") {
        return entry;
    }
    if let Some(entry) = entry_under(path, "/usr/lib64/", "%{_libdir}/") {
        return entry;
    }
    if let Some(entry) = entry_under(path, "/usr/lib/", "%{_prefix}/lib/") {
        return entry;
    }
    path.to_owned()
}

/// The entries of a file list for the absolute paths among `files`, in order and each once.
pub open spec fn file_entries(files: Seq<Seq<char>>) -> Seq<Seq<char>>
    decreases files.len(),
{
    if files.len() == 0 {
        seq![]
    } else if text::starts_with(text::trim(files.last()), "/"@) {
        pieces::sorted_insert(
            file_entries(files.drop_last()),
            path_macro(text::trim(files.last())),
        )
    } else {
        file_entries(files.drop_last())
    }
}

fn file_entry_list(files: &[String]) -> (r: Vec<String>)
    ensures
        text::texts(r@) == file_entries(text::texts(files@)),
{
    let ghost all = text::texts(files@);
    let mut out: Vec<String> = Vec::new();
    assert(text::texts(out@) =~= seq![]);
    let mut i: usize = 0;
    while i < files.len()
        invariant
            i <= files@.len(),
            all == text::texts(files@),
            text::texts(out@) == file_entries(all.take(i as int)),
        decreases files@.len() - i,
    {
        let file = trimmed(files[i].as_str());
        if has_prefix(file.as_str(), "/") {
            insert_sorted(&mut out, path_to_macro(file.as_str()).as_str());
        }
        i += 1;
        assert(all.take(i as int).drop_last() =~= all.take(i - 1));
    }
    assert(all.take(all.len() as int) =~= all);
    out
}

pub open spec fn is_blank(line: Seq<char>) -> bool {
    text::trim(line).len() == 0
}

pub fn blank(line: &str) -> (r: bool)
    ensures
        r == is_blank(line@),
{
    is_empty(trimmed(line).as_str())
}

/// Where the blank lines end that start at `i`.
pub open spec fn blank_end(v: Seq<Seq<char>>, i: int) -> int
    decreases v.len() - i,
{
    if 0 <= i < v.len() && is_blank(v[i]) {
        blank_end(v, i + 1)
    } else {
        i
    }
}

fn blank_end_at(lines: &[String], start: usize) -> (r: usize)
    requires
        start <= lines@.len(),
    ensures
        r == blank_end(text::texts(lines@), start as int),
        start <= r <= lines@.len(),
{
    let mut i: usize = start;
    while i < lines.len() && blank(lines[i].as_str())
        invariant
            start <= i <= lines@.len(),
            blank_end(text::texts(lines@), start as int) == blank_end(
                text::texts(lines@),
                i as int,
            ),
        decreases lines@.len() - i,
    {
        i += 1;
    }
    i
}

/// Of `entries` those that no line of `v` is, white space around it aside.
pub open spec fn unlisted(v: Seq<Seq<char>>, entries: Seq<Seq<char>>) -> Seq<Seq<char>>
    decreases entries.len(),
{
    if entries.len() == 0 {
        seq![]
    } else if pieces::trim_each(v).contains(entries.last()) {
        unlisted(v, entries.drop_last())
    } else {
        unlisted(v, entries.drop_last()).push(entries.last())
    }
}

/// `v` with an empty line before the section header at `at`, unless there is a blank one.
pub open spec fn with_gap(v: Seq<Seq<char>>, at: int) -> Seq<Seq<char>> {
    if at < v.len() && at > 0 && !is_blank(v[at - 1]) {
        v.insert(at, seq![])
    } else {
        v
    }
}

/// The lines of a spec with `entries` in the file list that starts at line `files`: in place of
/// the blank lines of a list that is empty, else at its end.
pub open spec fn with_entries(v: Seq<Seq<char>>, files: int, entries: Seq<Seq<char>>) -> Seq<
    Seq<char>,
> {
    let end = section_end(v, files + 1);
    let filled = if blank_end(v, files + 1) >= end {
        v.take(files + 1) + entries + v.skip(blank_end(v, files + 1))
    } else {
        with_lines(v, end, entries)
    };
    with_gap(filled, section_end(filled, files + 1))
}

/// `spec_text` with entries for the absolute paths among `files` in its file list.
pub open spec fn with_files(spec_text: Seq<char>, files: Seq<Seq<char>>) -> Seq<char> {
    let v = pieces::lines(spec_text);
    let entries = file_entries(files);
    let at = line_from(v, "%files"@, 0);
    if entries.len() == 0 {
        spec_text
    } else if at >= v.len() {
        text_of(v.push("%files"@) + entries)
    } else {
        let added = unlisted(v.subrange(at + 1, section_end(v, at + 1)), entries);
        if added.len() == 0 {
            spec_text
        } else {
            text_of(with_entries(v, at, added))
        }
    }
}

pub fn append_files_entries(spec_text: &str, files: &[String]) -> (r: String)
    ensures
        r@ == with_files(spec_text@, text::texts(files@)),
{
    let entries = file_entry_list(files);
    assert(text::texts(entries@).len() == entries@.len());
    if entries.len() == 0 {
        return spec_text.to_owned();
    }
    let mut lines = lines_of(spec_text);
    let ghost v = text::texts(lines@);
    let at: usize = first_line(&lines, "%files");
    if at >= lines.len() {
        push_line(&mut lines, "%files".to_owned());
        let n: usize = lines.len();
        insert_lines(&mut lines, n, &entries);
        assert(text::texts(lines@) =~= v.push("%files"@) + text::texts(entries@));
        return text_of_lines(&lines);
    }
    let end: usize = section_end_at(&lines, at + 1);
    let mut listed: Vec<String> = Vec::new();
    let mut k: usize = at + 1;
    while k < end
        invariant
            at + 1 <= k <= end <= lines@.len(),
            v == text::texts(lines@),
            listed@.len() == k - (at + 1),
            forall|j: int| 0 <= j < listed@.len() ==> (#[trigger] listed@[j])@ == text::trim(
                v[at + 1 + j],
            ),
        decreases end - k,
    {
        listed.push(trimmed(lines[k].as_str()));
        k += 1;
    }
    let ghost section = v.subrange(at + 1, end as int);
    assert(text::texts(listed@) =~= pieces::trim_each(section));
    let mut added: Vec<String> = Vec::new();
    let mut i: usize = 0;
    let ghost all = text::texts(entries@);
    assert(text::texts(added@) =~= seq![]);
    while i < entries.len()
        invariant
            i <= entries@.len(),
            all == text::texts(entries@),
            text::texts(listed@) == pieces::trim_each(section),
            text::texts(added@) == unlisted(section, all.take(i as int)),
        decreases entries@.len() - i,
    {
        if !has_text(&listed, entries[i].as_str()) {
            push_line(&mut added, entries[i].clone());
        }
        i += 1;
        assert(all.take(i as int).drop_last() =~= all.take(i - 1));
    }
    assert(all.take(all.len() as int) =~= all);
    assert(text::texts(added@).len() == added@.len());
    if added.len() == 0 {
        return spec_text.to_owned();
    }
    let gap: usize = blank_end_at(&lines, at + 1);
    if gap >= end {
        let mut n: usize = gap;
        while n > at + 1
            invariant
                at + 1 <= n <= gap <= v.len(),
                at < v.len(),
                text::texts(lines@) == v.take(n as int) + v.skip(gap as int),
            decreases n,
        {
            n -= 1;
            let ghost before = text::texts(lines@);
            assert(before.len() == lines@.len());
            lines.remove(n);
            assert(text::texts(lines@) =~= before.remove(n as int));
            assert(before.remove(n as int) =~= v.take(n as int) + v.skip(gap as int));
        }
        insert_lines(&mut lines, at + 1, &added);
        assert(text::texts(lines@) =~= v.take(at + 1) + text::texts(added@) + v.skip(gap as int));
    } else {
        insert_lines(&mut lines, end, &added);
    }
    let ghost filled = text::texts(lines@);
    let next: usize = section_end_at(&lines, at + 1);
    if next < lines.len() && !blank(lines[next - 1].as_str()) {
        lines.insert(next, String::new());
        assert(text::texts(lines@) =~= filled.insert(next as int, seq![]));
    }
    text_of_lines(&lines)
}

/// The place of the first `-l` that an argument follows, the number of arguments where there is
/// none.
pub open spec fn module_flag(args: Seq<Seq<char>>, i: int) -> int
    decreases args.len() - i,
{
    if 0 <= i < args.len() && !(args[i] == "-l"@ && i + 1 < args.len()) {
        module_flag(args, i + 1)
    } else {
        i
    }
}

/// The arguments of the install step with `arg`: `-L` as it is, any other as the module that
/// follows `-l`.
pub open spec fn install_args(args: Seq<Seq<char>>, arg: Seq<char>) -> Seq<Seq<char>> {
    if arg == "-L"@ {
        pieces::add_unique(args, arg)
    } else if module_flag(args, 0) < args.len() {
        args.update(module_flag(args, 0) + 1, arg)
    } else {
        args.push("-l"@).push(arg)
    }
}

/// `spec_text` with `arg` among the arguments of its install step.
pub open spec fn with_install_arg(spec_text: Seq<char>, arg: Seq<char>) -> Seq<char> {
    match patterns::tagged_option(spec_text, "BuildOption(install):"@) {
        Some((whole, args)) => pieces::replace_first(
            spec_text,
            whole,
            "BuildOption(install):  "@ + pieces::join(
                install_args(patterns::arguments(args), arg),
                " "@,
            ),
        ),
        None => spec_text,
    }
}

fn split_args(args: &str) -> (r: Vec<String>)
    ensures
        text::texts(r@) == patterns::arguments(args@),
{
    regex_find_iter(ARGUMENT, args)
}

pub fn fix_buildoption_install(spec_text: &str, arg: &str) -> (r: String)
    ensures
        r@ == with_install_arg(spec_text@, arg@),
{
    match regex_captures(INSTALL_OPTION, spec_text) {
        Some((whole, found)) => {
            let mut args = split_args(found.as_str());
            let ghost before = text::texts(args@);
            if same(arg, "-L") {
                push_unique(&mut args, arg);
            } else {
                let mut i: usize = 0;
                while i < args.len() && !(same(args[i].as_str(), "-l") && i + 1 < args.len())
                    invariant
                        i <= args@.len(),
                        before == text::texts(args@),
                        module_flag(before, 0) == module_flag(before, i as int),
                    decreases args@.len() - i,
                {
                    i += 1;
                }
                if i < args.len() {
                    args.set(i + 1, arg.to_owned());
                    assert(text::texts(args@) =~= before.update(i + 1, arg@));
                } else {
                    push_line(&mut args, "-l".to_owned());
                    push_line(&mut args, arg.to_owned());
                }
            }
            let line = cat2("BuildOption(install):  ", joined(&args, " ").as_str());
            replaced_first(spec_text, whole.as_str(), line.as_str())
        },
        None => spec_text.to_owned(),
    }
}

/// What the first `n` arguments exclude behind `-e`, each once.
pub open spec fn excluded_by(found: Seq<Seq<char>>, args: Seq<Seq<char>>, n: int) -> Seq<Seq<char>>
    decreases n,
{
    if n <= 1 {
        found
    } else if args[n - 2] == "-e"@ {
        pieces::add_unique(excluded_by(found, args, n - 1), text::trim_char(args[n - 1], '"'))
    } else {
        excluded_by(found, args, n - 1)
    }
}

/// What the check options among the lines exclude.
pub open spec fn exclusions_of(v: Seq<Seq<char>>) -> Seq<Seq<char>>
    decreases v.len(),
{
    if v.len() == 0 {
        seq![]
    } else {
        match patterns::tagged_option(v.last(), "BuildOption(check):"@) {
            Some((whole, args)) => {
                let list = patterns::arguments(args);
                excluded_by(exclusions_of(v.drop_last()), list, list.len() as int)
            },
            None => exclusions_of(v.drop_last()),
        }
    }
}

fn existing_buildoption_check_exclusions(lines: &[String]) -> (r: Vec<String>)
    ensures
        text::texts(r@) == exclusions_of(text::texts(lines@)),
{
    let ghost all = text::texts(lines@);
    let mut found: Vec<String> = Vec::new();
    assert(text::texts(found@) =~= seq![]);
    let mut i: usize = 0;
    while i < lines.len()
        invariant
            i <= lines@.len(),
            all == text::texts(lines@),
            text::texts(found@) == exclusions_of(all.take(i as int)),
        decreases lines@.len() - i,
    {
        assert(all.take(i + 1).drop_last() =~= all.take(i as int));
        match regex_captures(CHECK_OPTION, lines[i].as_str()) {
            Some((_, options)) => {
                let args = split_args(options.as_str());
                let ghost list = text::texts(args@);
                let ghost before = text::texts(found@);
                let mut k: usize = 1;
                while k < args.len()
                    invariant
                        1 <= k,
                        k <= args@.len() || k == 1,
                        list == text::texts(args@),
                        text::texts(found@) == excluded_by(before, list, k as int),
                    decreases args@.len() - k,
                {
                    if same(args[k - 1].as_str(), "-e") {
                        push_unique(&mut found, trimmed_char(args[k].as_str(), '"').as_str());
                    }
                    k += 1;
                }
            },
            None => {},
        }
        i += 1;
    }
    assert(all.take(all.len() as int) =~= all);
    found
}

/// An exclusion that is there covers another: they are the same, or the first ends with `.*` and
/// the other starts with what stands before that.
pub open spec fn covers(existing: Seq<char>, candidate: Seq<char>) -> bool {
    existing == candidate || match text::strip_suffix(existing, ".*"@) {
        Some(prefix) => text::starts_with(candidate, prefix),
        None => false,
    }
}

pub fn exclusion_is_covered(existing: &str, candidate: &str) -> (r: bool)
    ensures
        r == covers(existing@, candidate@),
{
    if same(existing, candidate) {
        return true;
    }
    match without_suffix(existing, ".*") {
        Some(prefix) => has_prefix(candidate, prefix.as_str()),
        None => false,
    }
}

pub open spec fn covered(existing: Seq<Seq<char>>, candidate: Seq<char>) -> bool {
    exists|i: int| 0 <= i < existing.len() && covers(#[trigger] existing[i], candidate)
}

/// The check options for those of `exclusions` that are not covered.
pub open spec fn check_options(existing: Seq<Seq<char>>, exclusions: Seq<Seq<char>>) -> Seq<
    Seq<char>,
>
    decreases exclusions.len(),
{
    if exclusions.len() == 0 {
        seq![]
    } else {
        let e = text::trim(exclusions.last());
        if e.len() == 0 || covered(existing, e) {
            check_options(existing, exclusions.drop_last())
        } else {
            check_options(existing, exclusions.drop_last()).push(
                "BuildOption(check):  -e \""@ + e + "\""@,
            )
        }
    }
}

/// Where check options go: behind the last one, else behind the first install option, else behind
/// the build system, else before the first macro, else at the end.
pub open spec fn check_place(v: Seq<Seq<char>>) -> int {
    if line_before(v, "BuildOption(check):"@, v.len() as int) >= 0 {
        line_before(v, "BuildOption(check):"@, v.len() as int) + 1
    } else if line_from(v, "BuildOption(install):"@, 0) < v.len() {
        line_from(v, "BuildOption(install):"@, 0) + 1
    } else if line_from(v, "BuildSystem:"@, 0) < v.len() {
        line_from(v, "BuildSystem:"@, 0) + 1
    } else {
        line_from(v, "%"@, 0)
    }
}

/// `spec_text` with check options for those of `exclusions` that it does not cover yet.
pub open spec fn with_checks(spec_text: Seq<char>, exclusions: Seq<Seq<char>>) -> Seq<char> {
    let v = pieces::lines(spec_text);
    let added = check_options(exclusions_of(v), exclusions);
    if added.len() == 0 {
        spec_text
    } else {
        text_of(with_lines(v, check_place(v), added))
    }
}

fn is_covered(existing: &[String], candidate: &str) -> (r: bool)
    ensures
        r == covered(text::texts(existing@), candidate@),
{
    let mut i: usize = 0;
    while i < existing.len()
        invariant
            i <= existing@.len(),
            forall|k: int| 0 <= k < i ==> !covers(#[trigger] existing@[k]@, candidate@),
        decreases existing@.len() - i,
    {
        if exclusion_is_covered(existing[i].as_str(), candidate) {
            assert(covers(text::texts(existing@)[i as int], candidate@));
            return true;
        }
        i += 1;
    }
    false
}

pub fn add_buildoption_checks(spec_text: &str, exclusions: &[String]) -> (r: String)
    ensures
        r@ == with_checks(spec_text@, text::texts(exclusions@)),
{
    let mut lines = lines_of(spec_text);
    let existing = existing_buildoption_check_exclusions(&lines);
    let ghost all = text::texts(exclusions@);
    let mut added: Vec<String> = Vec::new();
    assert(text::texts(added@) =~= seq![]);
    let mut i: usize = 0;
    while i < exclusions.len()
        invariant
            i <= exclusions@.len(),
            all == text::texts(exclusions@),
            text::texts(added@) == check_options(text::texts(existing@), all.take(i as int)),
        decreases exclusions@.len() - i,
    {
        let exclusion = trimmed(exclusions[i].as_str());
        if !is_empty(exclusion.as_str()) && !is_covered(&existing, exclusion.as_str()) {
            push_line(&mut added, cat3("BuildOption(check):  -e \"", exclusion.as_str(), "\""));
        }
        i += 1;
        assert(all.take(i as int).drop_last() =~= all.take(i - 1));
    }
    assert(all.take(all.len() as int) =~= all);
    assert(text::texts(added@).len() == added@.len());
    if added.len() == 0 {
        return spec_text.to_owned();
    }
    let behind: usize = behind_last_line(&lines, "BuildOption(check):");
    let install: usize = first_line(&lines, "BuildOption(install):");
    let system: usize = first_line(&lines, "BuildSystem:");
    let at: usize = if behind > 0 {
        behind
    } else if install < lines.len() {
        install + 1
    } else if system < lines.len() {
        system + 1
    } else {
        first_line(&lines, "%")
    };
    insert_lines(&mut lines, at, &added);
    text_of_lines(&lines)
}

/// The first line at or behind `i` that is `line`, the number of lines where there is none.
pub open spec fn exact_line_from(v: Seq<Seq<char>>, line: Seq<char>, i: int) -> int
    decreases v.len() - i,
{
    if 0 <= i < v.len() && v[i] != line {
        exact_line_from(v, line, i + 1)
    } else {
        i
    }
}

fn exact_line(lines: &[String], line: &str) -> (r: usize)
    ensures
        r == exact_line_from(text::texts(lines@), line@, 0),
        r <= lines@.len(),
{
    let mut i: usize = 0;
    while i < lines.len() && !same(lines[i].as_str(), line)
        invariant
            i <= lines@.len(),
            exact_line_from(text::texts(lines@), line@, 0) == exact_line_from(
                text::texts(lines@),
                line@,
                i as int,
            ),
        decreases lines@.len() - i,
    {
        i += 1;
    }
    i
}

/// A line that declares the subpackage of an extra.
pub open spec fn is_extras_line(line: Seq<char>) -> bool {
    text::starts_with(
        text::trim_start(line),
        "%pyproject_extras_subpkg -n python-%{srcname} "@,
    )
}

/// Where the lines for extras end that start at `i`.
pub open spec fn extras_lines_end(v: Seq<Seq<char>>, i: int) -> int
    decreases v.len() - i,
{
    if 0 <= i < v.len() && is_extras_line(v[i]) {
        extras_lines_end(v, i + 1)
    } else {
        i
    }
}

/// Where the block of extras ends that starts at `i`, with the blank lines around it.
pub open spec fn extras_end(v: Seq<Seq<char>>, i: int) -> int {
    blank_end(v, extras_lines_end(v, blank_end(v, i)))
}

fn extras_block_end(lines: &[String], start: usize) -> (r: usize)
    requires
        start <= lines@.len(),
    ensures
        r == extras_end(text::texts(lines@), start as int),
        start <= r <= lines@.len(),
{
    let from: usize = blank_end_at(lines, start);
    let mut i: usize = from;
    while i < lines.len() && has_prefix(
        trimmed_start(lines[i].as_str()).as_str(),
        "%pyproject_extras_subpkg -n python-%{srcname} ",
    )
        invariant
            from <= i <= lines@.len(),
            extras_lines_end(text::texts(lines@), from as int) == extras_lines_end(
                text::texts(lines@),
                i as int,
            ),
        decreases lines@.len() - i,
    {
        i += 1;
    }
    blank_end_at(lines, i)
}

/// The lines that declare the subpackages of the extras `features`.
pub open spec fn extras_lines(features: Seq<Seq<char>>) -> Seq<Seq<char>>
    decreases features.len(),
{
    if features.len() == 0 {
        seq![]
    } else if text::trim(features.last()).len() > 0 {
        extras_lines(features.drop_last()).push(
            "%pyproject_extras_subpkg -n python-%{srcname} "@ + text::trim(features.last()),
        )
    } else {
        extras_lines(features.drop_last())
    }
}

/// The lines of a spec with the extras `features` behind the description that starts at line
/// `at`, in place of the extras that are there.
pub open spec fn extras_replaced(v: Seq<Seq<char>>, at: int, features: Seq<Seq<char>>) -> Seq<
    Seq<char>,
> {
    let end = section_end(v, at + 1);
    let head = if end > at + 1 && v[end - 1].len() > 0 {
        v.take(end).push(seq![])
    } else {
        v.take(end)
    };
    (head + extras_lines(features)).push(seq![]) + v.skip(extras_end(v, end))
}

/// `spec_text` with subpackages for the extras `features`.
pub open spec fn with_extras(spec_text: Seq<char>, features: Seq<Seq<char>>) -> Seq<char> {
    let v = pieces::lines(spec_text);
    let at = exact_line_from(v, "%description"@, 0);
    if features.len() == 0 || at >= v.len() {
        spec_text
    } else {
        text_of(extras_replaced(v, at, features))
    }
}

/// Puts the lines of `lines` from `lo` up to `hi` at the end of `out`.
fn push_lines(out: &mut Vec<String>, lines: &[String], lo: usize, hi: usize)
    requires
        lo <= hi <= lines@.len(),
    ensures
        text::texts(final(out)@) == text::texts(old(out)@) + text::texts(lines@).subrange(
            lo as int,
            hi as int,
        ),
{
    let ghost start = text::texts(out@);
    let ghost all = text::texts(lines@);
    let mut i: usize = lo;
    assert(start =~= start + all.subrange(lo as int, lo as int));
    while i < hi
        invariant
            lo <= i <= hi <= lines@.len(),
            all == text::texts(lines@),
            text::texts(out@) == start + all.subrange(lo as int, i as int),
        decreases hi - i,
    {
        push_line(out, lines[i].clone());
        i += 1;
        assert(start + all.subrange(lo as int, i as int) =~= (start + all.subrange(
            lo as int,
            i - 1,
        )).push(all[i - 1]));
    }
}

fn push_extras(out: &mut Vec<String>, features: &[String])
    ensures
        text::texts(final(out)@) == text::texts(old(out)@) + extras_lines(text::texts(features@)),
{
    let ghost start = text::texts(out@);
    let ghost all = text::texts(features@);
    let mut i: usize = 0;
    assert(all.take(0) =~= seq![]);
    assert(start =~= start + extras_lines(all.take(0)));
    while i < features.len()
        invariant
            i <= features@.len(),
            all == text::texts(features@),
            text::texts(out@) == start + extras_lines(all.take(i as int)),
        decreases features@.len() - i,
    {
        let feature = trimmed(features[i].as_str());
        let ghost before = extras_lines(all.take(i as int));
        if !is_empty(feature.as_str()) {
            push_line(
                out,
                cat2("%pyproject_extras_subpkg -n python-%{srcname} ", feature.as_str()),
            );
            assert(text::texts(out@) =~= start + before.push(
                "%pyproject_extras_subpkg -n python-%{srcname} "@ + feature@,
            ));
        }
        i += 1;
        assert(all.take(i as int).drop_last() =~= all.take(i - 1));
    }
    assert(all.take(all.len() as int) =~= all);
}

pub fn add_extras_subpackages(spec_text: &str, features: &[String]) -> (r: String)
    ensures
        r@ == with_extras(spec_text@, text::texts(features@)),
{
    if features.len() == 0 {
        assert(text::texts(features@).len() == 0);
        return spec_text.to_owned();
    }
    assert(text::texts(features@).len() > 0);
    let lines = lines_of(spec_text);
    let ghost v = text::texts(lines@);
    let at: usize = exact_line(&lines, "%description");
    if at >= lines.len() {
        return spec_text.to_owned();
    }
    let end: usize = section_end_at(&lines, at + 1);
    let extras: usize = extras_block_end(&lines, end);
    let mut out: Vec<String> = Vec::new();
    push_lines(&mut out, &lines, 0, end);
    assert(text::texts(out@) =~= v.take(end as int));
    if end > at + 1 && !is_empty(lines[end - 1].as_str()) {
        push_line(&mut out, String::new());
    }
    push_extras(&mut out, features);
    push_line(&mut out, String::new());
    push_lines(&mut out, &lines, extras, lines.len());
    assert(text::texts(out@) =~= extras_replaced(v, at as int, text::texts(features@)));
    text_of_lines(&out)
}

/// A line that names what the Python package provides.
pub open spec fn is_python_provide(line: Seq<char>) -> bool {
    text::starts_with(line, "Provides:       python3-%{srcname}"@) || text::starts_with(
        line,
        "%python_provide python3-%{srcname}"@,
    )
}

/// The lines that stay when a package comes to depend on the architecture.
pub open spec fn arch_lines(v: Seq<Seq<char>>) -> Seq<Seq<char>>
    decreases v.len(),
{
    if v.len() == 0 {
        seq![]
    } else if patterns::is_noarch(v.last()) || is_python_provide(v.last()) {
        arch_lines(v.drop_last())
    } else {
        arch_lines(v.drop_last()).push(v.last())
    }
}

/// What a package that depends on the architecture provides.
pub open spec fn arch_provides() -> Seq<Seq<char>> {
    seq![
        "Provides:       python3-%{srcname} = %{version}-%{release}"@,
        "Provides:       python3-%{srcname}%{?_isa} = %{version}-%{release}"@,
        "%python_provide python3-%{srcname}"@,
    ]
}

/// A line that says how the package is built.
pub open spec fn is_build_line(line: Seq<char>) -> bool {
    text::starts_with(line, "BuildRequires:"@) || text::starts_with(line, "BuildOption"@)
        || text::starts_with(line, "BuildSystem:"@)
}

/// The first line at or behind `i` that says how the package is built, the number of lines where
/// there is none.
pub open spec fn build_line_from(v: Seq<Seq<char>>, i: int) -> int
    decreases v.len() - i,
{
    if 0 <= i < v.len() && !is_build_line(v[i]) {
        build_line_from(v, i + 1)
    } else {
        i
    }
}

/// Where the names go that a package provides: before the first line on how it is built, else
/// before the first macro, else at the end.
pub open spec fn provides_place(v: Seq<Seq<char>>) -> int {
    if build_line_from(v, 0) < v.len() {
        build_line_from(v, 0)
    } else {
        line_from(v, "%"@, 0)
    }
}

fn provides_place_of(lines: &[String]) -> (r: usize)
    ensures
        r == provides_place(text::texts(lines@)),
        r <= lines@.len(),
{
    let mut i: usize = 0;
    while i < lines.len() && !(has_prefix(lines[i].as_str(), "BuildRequires:") || has_prefix(
        lines[i].as_str(),
        "BuildOption",
    ) || has_prefix(lines[i].as_str(), "BuildSystem:"))
        invariant
            i <= lines@.len(),
            build_line_from(text::texts(lines@), 0) == build_line_from(
                text::texts(lines@),
                i as int,
            ),
        decreases lines@.len() - i,
    {
        i += 1;
    }
    if i < lines.len() {
        i
    } else {
        first_line(lines, "%")
    }
}

/// `spec_text` as that of a package that depends on the architecture.
pub open spec fn without_noarch(spec_text: Seq<char>) -> Seq<char> {
    let v = arch_lines(pieces::lines(spec_text));
    text_of(with_lines(v, provides_place(v), arch_provides()))
}

pub fn fix_buildarch_remove_noarch(spec_text: &str) -> (r: String)
    ensures
        r@ == without_noarch(spec_text@),
{
    let lines = lines_of(spec_text);
    let ghost all = text::texts(lines@);
    let mut kept: Vec<String> = Vec::new();
    assert(text::texts(kept@) =~= seq![]);
    let mut i: usize = 0;
    while i < lines.len()
        invariant
            i <= lines@.len(),
            all == text::texts(lines@),
            text::texts(kept@) == arch_lines(all.take(i as int)),
        decreases lines@.len() - i,
    {
        let line = lines[i].as_str();
        if !regex_is_match(BUILD_ARCH_NOARCH, line) && !has_prefix(
            line,
            "Provides:       python3-%{srcname}",
        ) && !has_prefix(line, "%python_provide python3-%{srcname}") {
            push_line(&mut kept, line.to_owned());
        }
        i += 1;
        assert(all.take(i as int).drop_last() =~= all.take(i - 1));
    }
    assert(all.take(all.len() as int) =~= all);
    let mut provides: Vec<String> = Vec::new();
    push_line(&mut provides, "Provides:       python3-%{srcname} = %{version}-%{release}".to_owned());
    push_line(
        &mut provides,
        "Provides:       python3-%{srcname}%{?_isa} = %{version}-%{release}".to_owned(),
    );
    push_line(&mut provides, "%python_provide python3-%{srcname}".to_owned());
    assert(text::texts(provides@) =~= arch_provides());
    let at: usize = provides_place_of(&kept);
    insert_lines(&mut kept, at, &provides);
    text_of_lines(&kept)
}

/// `n` spaces.
pub open spec fn spaces(n: int) -> Seq<char>
    decreases n,
{
    if n <= 0 {
        seq![]
    } else {
        spaces(n - 1).push(' ')
    }
}

/// A tag, filled up with spaces to sixteen characters, and its value.
pub open spec fn tag_line(tag: Seq<char>, value: Seq<char>) -> Seq<char> {
    let key = tag + ":"@;
    key + spaces(16 - key.len()) + text::trim(value)
}

fn tag_line_of(tag: &str, value: &str) -> (r: String)
    ensures
        r@ == tag_line(tag@, value@),
{
    let key = cat2(tag, ":");
    let n: usize = key.as_str().unicode_len();
    let mut pad = String::new();
    let mut i: usize = 0;
    while i + n < 16 && n < 16
        invariant
            n < 16 ==> i + n <= 16,
            n >= 16 ==> i == 0,
            pad@ == spaces(i as int),
        decreases 16 - (i + n),
    {
        pad.push(' ');
        i += 1;
    }
    cat3(key.as_str(), pad.as_str(), trimmed(value).as_str())
}

/// `spec_text` with the value of a tag: in place of the first line for the tag, else before the
/// first macro, else at the end.
pub open spec fn with_tag(spec_text: Seq<char>, tag: Seq<char>, value: Seq<char>) -> Seq<char> {
    let v = pieces::lines(spec_text);
    let at = line_from(v, tag + ":"@, 0);
    if at < v.len() {
        text_of(v.update(at, tag_line(tag, value)))
    } else {
        text_of(v.insert(line_from(v, "%"@, 0), tag_line(tag, value)))
    }
}

fn replace_or_insert_tag(spec_text: &str, tag: &str, value: &str) -> (r: String)
    ensures
        r@ == with_tag(spec_text@, tag@, value@),
{
    let prefix = cat2(tag, ":");
    let line = tag_line_of(tag, value);
    let mut lines = lines_of(spec_text);
    let ghost v = text::texts(lines@);
    let at: usize = first_line(&lines, prefix.as_str());
    if at < lines.len() {
        lines.set(at, line);
        assert(text::texts(lines@) =~= v.update(at as int, line@));
    } else {
        let at: usize = first_line(&lines, "%");
        lines.insert(at, line);
        assert(text::texts(lines@) =~= v.insert(at as int, line@));
    }
    text_of_lines(&lines)
}

pub fn update_summary(spec_text: &str, summary: &str) -> (r: String)
    ensures
        r@ == with_tag(spec_text@, "Summary"@, summary@),
{
    replace_or_insert_tag(spec_text, "Summary", summary)
}

pub fn update_version(spec_text: &str, version: &str) -> (r: String)
    ensures
        r@ == with_tag(spec_text@, "Version"@, version@),
{
    replace_or_insert_tag(spec_text, "Version", version)
}

pub fn ensure_buildarch_noarch(spec_text: &str) -> (r: String)
    ensures
        r@ == with_tag(spec_text@, "BuildArch"@, "noarch"@),
{
    replace_or_insert_tag(spec_text, "BuildArch", "noarch")
}

/// The first line at or behind `i` that names a remote asset, the number of lines where there is
/// none.
pub open spec fn asset_line_from(v: Seq<Seq<char>>, i: int) -> int
    decreases v.len() - i,
{
    if 0 <= i < v.len() && !text::starts_with(text::trim_start(v[i]), "#!RemoteAsset"@) {
        asset_line_from(v, i + 1)
    } else {
        i
    }
}

/// `spec_text` with the line that names its remote asset: in place of the first such line, else
/// before the first source, else before the first macro, else at the end.
pub open spec fn with_asset(spec_text: Seq<char>, asset: Seq<char>) -> Seq<char> {
    let v = pieces::lines(spec_text);
    let at = asset_line_from(v, 0);
    let source = line_from(v, "Source"@, 0);
    if at < v.len() {
        text_of(v.update(at, text::trim(asset)))
    } else if source < v.len() {
        text_of(v.insert(source, text::trim(asset)))
    } else {
        text_of(v.insert(line_from(v, "%"@, 0), text::trim(asset)))
    }
}

pub fn ensure_remote_asset(spec_text: &str, remote_asset_line: &str) -> (r: String)
    ensures
        r@ == with_asset(spec_text@, remote_asset_line@),
{
    let line = trimmed(remote_asset_line);
    let mut lines = lines_of(spec_text);
    let ghost v = text::texts(lines@);
    let mut i: usize = 0;
    while i < lines.len() && !has_prefix(
        trimmed_start(lines[i].as_str()).as_str(),
        "#!RemoteAsset",
    )
        invariant
            i <= lines@.len(),
            v == text::texts(lines@),
            asset_line_from(v, 0) == asset_line_from(v, i as int),
        decreases lines@.len() - i,
    {
        i += 1;
    }
    if i < lines.len() {
        lines.set(i, line);
        assert(text::texts(lines@) =~= v.update(i as int, line@));
    } else {
        let source: usize = first_line(&lines, "Source");
        let at: usize = if source < lines.len() {
            source
        } else {
            first_line(&lines, "%")
        };
        lines.insert(at, line);
        assert(text::texts(lines@) =~= v.insert(at as int, line@));
    }
    text_of_lines(&lines)
}

/// A line that names what a Python package provides, whatever its name.
pub open spec fn is_any_provide(line: Seq<char>) -> bool {
    let named = match text::strip_prefix(line, "Provides:"@) {
        Some(rest) => text::starts_with(text::trim_start(rest), "python3-"@),
        None => false,
    };
    named || text::starts_with(line, "%python_provide python3-"@)
}

fn any_provide(line: &str) -> (r: bool)
    ensures
        r == is_any_provide(line@),
{
    let named = match without_prefix(line, "Provides:") {
        Some(rest) => has_prefix(trimmed_start(rest.as_str()).as_str(), "python3-"),
        None => false,
    };
    named || has_prefix(line, "%python_provide python3-")
}

pub open spec fn versioned_provides() -> Seq<Seq<char>> {
    seq![
        "Provides:       python3-%{srcname} = %{version}-%{release}"@,
        "%python_provide python3-%{srcname}"@,
    ]
}

/// The first line at or behind `i` that names what a Python package provides, the number of lines
/// where there is none.
pub open spec fn provide_from(v: Seq<Seq<char>>, i: int) -> int
    decreases v.len() - i,
{
    if 0 <= i < v.len() && !is_any_provide(v[i]) {
        provide_from(v, i + 1)
    } else {
        i
    }
}

/// The lines that do not name what a Python package provides.
pub open spec fn other_lines(v: Seq<Seq<char>>) -> Seq<Seq<char>>
    decreases v.len(),
{
    if v.len() == 0 {
        seq![]
    } else if is_any_provide(v.last()) {
        other_lines(v.drop_last())
    } else {
        other_lines(v.drop_last()).push(v.last())
    }
}

/// `spec_text` with the versioned names that a Python package provides, in place of the lines that
/// name them, else before the lines on how it is built.
pub open spec fn with_versioned_provides(spec_text: Seq<char>) -> Seq<char> {
    let v = pieces::lines(spec_text);
    let at = provide_from(v, 0);
    if at < v.len() {
        text_of(v.take(at) + versioned_provides() + other_lines(v.skip(at)))
    } else {
        text_of(with_lines(v, provides_place(v), versioned_provides()))
    }
}

pub fn ensure_versioned_python_provides(spec_text: &str) -> (r: String)
    ensures
        r@ == with_versioned_provides(spec_text@),
{
    let mut lines = lines_of(spec_text);
    let ghost v = text::texts(lines@);
    let mut provides: Vec<String> = Vec::new();
    push_line(&mut provides, "Provides:       python3-%{srcname} = %{version}-%{release}".to_owned());
    push_line(&mut provides, "%python_provide python3-%{srcname}".to_owned());
    assert(text::texts(provides@) =~= versioned_provides());
    let mut at: usize = 0;
    while at < lines.len() && !any_provide(lines[at].as_str())
        invariant
            at <= lines@.len(),
            v == text::texts(lines@),
            provide_from(v, 0) == provide_from(v, at as int),
        decreases lines@.len() - at,
    {
        at += 1;
    }
    if at < lines.len() {
        let mut out: Vec<String> = Vec::new();
        push_lines(&mut out, &lines, 0, at);
        push_lines(&mut out, &provides, 0, provides.len());
        let ghost head = v.take(at as int) + versioned_provides();
        assert(text::texts(out@) =~= head);
        let ghost rest = v.skip(at as int);
        let mut i: usize = at;
        assert(rest.take(0) =~= seq![]);
        assert(text::texts(out@) =~= head + other_lines(rest.take(0)));
        while i < lines.len()
            invariant
                at <= i <= lines@.len(),
                v == text::texts(lines@),
                rest == v.skip(at as int),
                text::texts(out@) == head + other_lines(rest.take(i - at)),
            decreases lines@.len() - i,
        {
            let ghost before = other_lines(rest.take(i - at));
            assert(rest[i - at] == lines@[i as int]@);
            if !any_provide(lines[i].as_str()) {
                push_line(&mut out, lines[i].clone());
                assert(text::texts(out@) =~= head + before.push(rest[i - at]));
            }
            i += 1;
            assert(rest.take(i - at).drop_last() =~= rest.take(i - 1 - at));
        }
        assert(rest.take(rest.len() as int) =~= rest);
        return text_of_lines(&out);
    }
    let place: usize = provides_place_of(&lines);
    insert_lines(&mut lines, place, &provides);
    text_of_lines(&lines)
}

pub fn ensure_autochangelog_macro(spec_text: &str) -> (r: String)
    ensures
        r@ == pieces::replace(spec_text@, "%{?autochangelog}"@, "%autochangelog"@),
{
    proof {
        reveal_strlit("%{?autochangelog}");
    }
    replaced(spec_text, "%{?autochangelog}", "%autochangelog")
}

/// A line of the spec is `%check`, white space around it aside.
pub open spec fn has_check(v: Seq<Seq<char>>) -> bool {
    pieces::trim_each(v).contains("%check"@)
}

/// An empty check section, with a comment unless that is blank.
pub open spec fn check_section(comment: Seq<char>) -> Seq<Seq<char>> {
    if is_blank(comment) {
        seq!["%check"@, seq![]]
    } else {
        seq!["%check"@, "# "@ + text::trim(comment), seq![]]
    }
}

/// Where a check section goes: before the file list, else before the changelog, else at the end.
pub open spec fn check_section_place(v: Seq<Seq<char>>) -> int {
    if line_from(v, "%files"@, 0) < v.len() {
        line_from(v, "%files"@, 0)
    } else {
        line_from(v, "%changelog"@, 0)
    }
}

/// `spec_text` with an empty check section, where it has none.
pub open spec fn with_check_section(spec_text: Seq<char>, comment: Seq<char>) -> Seq<char> {
    let v = pieces::lines(spec_text);
    if has_check(v) {
        spec_text
    } else {
        text_of(with_lines(v, check_section_place(v), check_section(comment)))
    }
}

pub fn add_empty_check_section(spec_text: &str, comment: &str) -> (r: String)
    ensures
        r@ == with_check_section(spec_text@, comment@),
{
    let mut lines = lines_of(spec_text);
    if has_text(&pieces::trimmed_each(&lines), "%check") {
        return spec_text.to_owned();
    }
    let files: usize = first_line(&lines, "%files");
    let at: usize = if files < lines.len() {
        files
    } else {
        first_line(&lines, "%changelog")
    };
    let mut block: Vec<String> = Vec::new();
    push_line(&mut block, "%check".to_owned());
    if !blank(comment) {
        push_line(&mut block, cat2("# ", trimmed(comment).as_str()));
    }
    push_line(&mut block, String::new());
    assert(text::texts(block@) =~= check_section(comment@));
    insert_lines(&mut lines, at, &block);
    text_of_lines(&lines)
}

/// `spec_text` with another description.
pub open spec fn with_description(spec_text: Seq<char>, description: Seq<char>) -> Seq<char> {
    let v = pieces::lines(spec_text);
    let at = exact_line_from(v, "%description"@, 0);
    if at < v.len() {
        text_of(
            v.take(at + 1).push(text::trim(description)).push(seq![]) + v.skip(
                section_end(v, at + 1),
            ),
        )
    } else {
        spec_text
    }
}

pub fn update_description(spec_text: &str, description: &str) -> (r: String)
    ensures
        r@ == with_description(spec_text@, description@),
{
    let lines = lines_of(spec_text);
    let ghost v = text::texts(lines@);
    let at: usize = exact_line(&lines, "%description");
    if at >= lines.len() {
        return spec_text.to_owned();
    }
    let end: usize = section_end_at(&lines, at + 1);
    let mut out: Vec<String> = Vec::new();
    push_lines(&mut out, &lines, 0, at + 1);
    assert(text::texts(out@) =~= v.take(at + 1));
    push_line(&mut out, trimmed(description));
    push_line(&mut out, String::new());
    push_lines(&mut out, &lines, end, lines.len());
    assert(v.subrange(end as int, v.len() as int) =~= v.skip(end as int));
    text_of_lines(&out)
}

} // verus!
