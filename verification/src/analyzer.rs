//! Classifying a failed build by its log.
use vstd::prelude::*;

use crate::issue::{BuildIssue, IssueModel};
use crate::issue;
use crate::outside;
use crate::outside::to_lowercase;
use crate::patterns;
use crate::patterns::{
    regex_captures, regex_captures_iter, ABSOLUTE_PATH, BUILD_DEPENDENCY, CHECKED_IMPORT,
    MISSING_MODULE, UNMATCHED_GLOB, UNRESOLVABLE,
};
use crate::pieces;
use crate::pieces::{
    insert_sorted, lines_of, push_all_unique, push_unique, sorted_texts, split_at_first, split_on,
    trimmed_each, unique_texts,
};
use crate::report::push_line;
use crate::specfile;
use crate::specfile::blank;
use crate::text;
use crate::text::{
    cat2, chars_of, holds, has_prefix, index_of_at, is_empty, last_index_of_at, same, string_of,
    trimmed,
};

verus! {

/// The first line at or behind `i` that holds `part`, the number of lines where there is none.
pub open spec fn line_with(v: Seq<Seq<char>>, part: Seq<char>, i: int) -> int
    decreases v.len() - i,
{
    if 0 <= i < v.len() && !text::contains(v[i], part) {
        line_with(v, part, i + 1)
    } else {
        i
    }
}

fn first_line_with(lines: &[String], part: &str) -> (r: usize)
    ensures
        r == line_with(text::texts(lines@), part@, 0),
        r <= lines@.len(),
{
    let mut i: usize = 0;
    while i < lines.len() && !holds(lines[i].as_str(), part)
        invariant
            i <= lines@.len(),
            line_with(text::texts(lines@), part@, 0) == line_with(
                text::texts(lines@),
                part@,
                i as int,
            ),
        decreases lines@.len() - i,
    {
        i += 1;
    }
    i
}

/// The first blank line at or behind `i`, the number of lines where there is none.
pub open spec fn blank_from(v: Seq<Seq<char>>, i: int) -> int
    decreases v.len() - i,
{
    if 0 <= i < v.len() && !specfile::is_blank(v[i]) {
        blank_from(v, i + 1)
    } else {
        i
    }
}

/// The requirements that the lines of a block name, each once.
pub open spec fn block_requirements(v: Seq<Seq<char>>) -> Seq<Seq<char>>
    decreases v.len(),
{
    if v.len() == 0 {
        seq![]
    } else {
        let before = block_requirements(v.drop_last());
        match patterns::dependency_from(v.last(), 0) {
            Some(dep) => if text::contains(v.last(), "Failed build dependencies:"@) {
                before
            } else {
                pieces::add_unique(before, dep)
            },
            None => before,
        }
    }
}

pub open spec fn some_if_any(v: Seq<Seq<char>>) -> Option<Seq<Seq<char>>> {
    if v.len() > 0 {
        Some(v)
    } else {
        None
    }
}

/// The requirements that `rpmbuild` missed: those of the lines that follow its message, up to a
/// blank one.
pub open spec fn missing_requirements(log: Seq<char>) -> Option<Seq<Seq<char>>> {
    let v = pieces::lines(log);
    let start = line_with(v, "Failed build dependencies:"@, 0);
    if text::contains(log, "Failed build dependencies:"@) && start < v.len() {
        some_if_any(block_requirements(v.subrange(start + 1, blank_from(v, start + 1))))
    } else {
        None
    }
}

fn if_any(v: Vec<String>) -> (r: Option<Vec<String>>)
    ensures
        text::opt_texts(r) == some_if_any(text::texts(v@)),
{
    assert(text::texts(v@).len() == v@.len());
    if v.len() > 0 {
        Some(v)
    } else {
        None
    }
}

fn failed_build_deps(log: &str) -> (r: Option<Vec<String>>)
    ensures
        text::opt_texts(r) == missing_requirements(log@),
{
    if !holds(log, "Failed build dependencies:") {
        return None;
    }
    let lines = lines_of(log);
    let ghost v = text::texts(lines@);
    let start: usize = first_line_with(&lines, "Failed build dependencies:");
    if start >= lines.len() {
        return None;
    }
    let mut deps: Vec<String> = Vec::new();
    assert(text::texts(deps@) =~= seq![]);
    let mut i: usize = start + 1;
    assert(v.subrange(start + 1, start + 1) =~= seq![]);
    while i < lines.len() && !blank(lines[i].as_str())
        invariant
            start + 1 <= i <= lines@.len(),
            v == text::texts(lines@),
            blank_from(v, start + 1) == blank_from(v, i as int),
            text::texts(deps@) == block_requirements(v.subrange(start + 1, i as int)),
        decreases lines@.len() - i,
    {
        let line = lines[i].as_str();
        if !holds(line, "Failed build dependencies:") {
            if let Some((_, dep)) = regex_captures(BUILD_DEPENDENCY, line) {
                push_unique(&mut deps, dep.as_str());
            }
        }
        i += 1;
        assert(v.subrange(start + 1, i as int).drop_last() =~= v.subrange(start + 1, i - 1));
    }
    if_any(deps)
}

/// The requirements that no package provides, each once.
pub open spec fn unprovided(log: Seq<char>) -> Option<Seq<Seq<char>>> {
    some_if_any(pieces::unique(patterns::unprovided_from(log, 0)))
}

fn unresolvable_deps(log: &str) -> (r: Option<Vec<String>>)
    ensures
        text::opt_texts(r) == unprovided(log@),
{
    if_any(unique_texts(&regex_captures_iter(UNRESOLVABLE, log)))
}

/// The line with which `rpmbuild` starts the list of files that no package holds.
pub open spec fn is_unpackaged_start(line: Seq<char>) -> bool {
    text::contains(line, "Installed (but unpackaged) file(s) found"@) || text::contains(
        line,
        "Installed but unpackaged files found"@,
    )
}

/// The first line at or behind `i` that starts a list of files that no package holds.
pub open spec fn unpackaged_start(v: Seq<Seq<char>>, i: int) -> int
    decreases v.len() - i,
{
    if 0 <= i < v.len() && !is_unpackaged_start(text::trim(v[i])) {
        unpackaged_start(v, i + 1)
    } else {
        i
    }
}

/// `found` with the paths of the lines from `i` on, each once, up to a blank line behind a path.
pub open spec fn paths_from(v: Seq<Seq<char>>, i: int, found: Seq<Seq<char>>) -> Seq<Seq<char>>
    decreases v.len() - i,
{
    if i < 0 || i >= v.len() {
        found
    } else {
        match patterns::path_from(v[i], 0) {
            Some(path) => paths_from(v, i + 1, pieces::add_unique(found, path)),
            None => if specfile::is_blank(v[i]) && found.len() > 0 {
                found
            } else {
                paths_from(v, i + 1, found)
            },
        }
    }
}

/// The files that were installed and that no package holds.
pub open spec fn unpackaged(log: Seq<char>) -> Option<Seq<Seq<char>>> {
    let v = pieces::lines(log);
    if is_unpackaged_start(log) {
        some_if_any(paths_from(v, unpackaged_start(v, 0) + 1, seq![]))
    } else {
        None
    }
}

#[verifier::loop_isolation(false)]
fn unpackaged_files(log: &str) -> (r: Option<Vec<String>>)
    ensures
        text::opt_texts(r) == unpackaged(log@),
{
    if !holds(log, "Installed (but unpackaged) file(s) found") && !holds(
        log,
        "Installed but unpackaged files found",
    ) {
        return None;
    }
    let lines = lines_of(log);
    let ghost v = text::texts(lines@);
    let mut start: usize = 0;
    while start < lines.len() && !(holds(
        trimmed(lines[start].as_str()).as_str(),
        "Installed (but unpackaged) file(s) found",
    ) || holds(trimmed(lines[start].as_str()).as_str(), "Installed but unpackaged files found"))
        invariant
            start <= lines@.len(),
            v == text::texts(lines@),
            unpackaged_start(v, 0) == unpackaged_start(v, start as int),
        decreases lines@.len() - start,
    {
        start += 1;
    }
    let mut files: Vec<String> = Vec::new();
    assert(text::texts(files@) =~= seq![]);
    if start >= lines.len() {
        return None;
    }
    let mut i: usize = start + 1;
    while i < lines.len()
        invariant
            start + 1 <= i <= lines@.len(),
            v == text::texts(lines@),
            paths_from(v, start + 1, seq![]) == paths_from(v, i as int, text::texts(files@)),
        decreases lines@.len() - i,
    {
        match regex_captures(ABSOLUTE_PATH, lines[i].as_str()) {
            Some((_, path)) => {
                push_unique(&mut files, path.as_str());
            },
            None => {
                assert(text::texts(files@).len() == files@.len());
                if blank(lines[i].as_str()) && files.len() > 0 {
                    return if_any(files);
                }
            },
        }
        i += 1;
    }
    if_any(files)
}

/// The issue of a module that the install step did not find.
pub open spec fn module_mismatch(log: Seq<char>) -> Option<IssueModel> {
    match patterns::unmatched_glob_from(log, 0) {
        Some(module) => Some(
            IssueModel::InstallModuleMismatch { wrong_module: module, suggested_module: module },
        ),
        None => None,
    }
}

fn install_module_mismatch(log: &str) -> (r: Option<BuildIssue>)
    ensures
        issue::opt_issue(r) == module_mismatch(log@),
{
    match regex_captures(UNMATCHED_GLOB, log) {
        Some((_, module)) => Some(
            BuildIssue::InstallModuleMismatch {
                wrong_module: module.clone(),
                suggested_module: module,
            },
        ),
        None => None,
    }
}

/// The import check had nothing to import.
pub open spec fn nothing_to_check(log: Seq<char>) -> bool {
    text::contains(log, "import_all_modules.py"@) && text::contains(
        log,
        "ValueError: No modules to check were left"@,
    )
}

/// The texts of `v` that are not empty.
pub open spec fn nonempty(v: Seq<Seq<char>>) -> Seq<Seq<char>>
    decreases v.len(),
{
    if v.len() == 0 {
        seq![]
    } else if v.last().len() > 0 {
        nonempty(v.drop_last()).push(v.last())
    } else {
        nonempty(v.drop_last())
    }
}

pub fn nonempty_texts(v: &[String]) -> (r: Vec<String>)
    ensures
        text::texts(r@) == nonempty(text::texts(v@)),
{
    let ghost all = text::texts(v@);
    let mut out: Vec<String> = Vec::new();
    assert(text::texts(out@) =~= seq![]);
    let mut i: usize = 0;
    while i < v.len()
        invariant
            i <= v@.len(),
            all == text::texts(v@),
            text::texts(out@) == nonempty(all.take(i as int)),
        decreases v@.len() - i,
    {
        if !is_empty(v[i].as_str()) {
            push_line(&mut out, v[i].clone());
        }
        i += 1;
        assert(all.take(i as int).drop_last() =~= all.take(i - 1));
    }
    assert(all.take(all.len() as int) =~= all);
    out
}

/// The modules that the import check says it failed to import.
pub open spec fn failed_imports(log: Seq<char>) -> Option<Seq<Seq<char>>> {
    let v = pieces::lines(log);
    let at = line_with(v, "Failed to import:"@, 0);
    if at < v.len() {
        match pieces::split_once(v[at], "Failed to import:"@) {
            Some((_, rest)) => some_if_any(
                nonempty(pieces::trim_each(pieces::split(rest, ','))),
            ),
            None => None,
        }
    } else {
        None
    }
}

fn failed_import_modules(log: &str) -> (r: Option<Vec<String>>)
    ensures
        text::opt_texts(r) == failed_imports(log@),
{
    let lines = lines_of(log);
    let at: usize = first_line_with(&lines, "Failed to import:");
    if at >= lines.len() {
        return None;
    }
    match split_at_first(lines[at].as_str(), "Failed to import:") {
        Some((_, rest)) => if_any(nonempty_texts(&trimmed_each(&split_on(rest.as_str(), ',')))),
        None => None,
    }
}

/// A module without its last part.
pub open spec fn parent_module(module: Seq<char>) -> Option<Seq<char>> {
    let dot = text::last_index_of(module, '.', module.len() as int);
    if dot >= 0 {
        Some(module.take(dot))
    } else {
        None
    }
}

fn module_parent(module: &str) -> (r: Option<String>)
    ensures
        text::opt_text(r) == parent_module(module@),
{
    let v = chars_of(module);
    let behind: usize = last_index_of_at(&v, '.');
    if behind > 0 {
        Some(string_of(&v, 0, behind - 1))
    } else {
        None
    }
}

/// The last part of a module.
pub open spec fn last_part(module: Seq<char>) -> Seq<char> {
    module.skip(text::last_index_of(module, '.', module.len() as int) + 1)
}

fn last_segment(module: &str) -> (r: String)
    ensures
        r@ == last_part(module@),
{
    let v = chars_of(module);
    let behind: usize = last_index_of_at(&v, '.');
    string_of(&v, behind, v.len())
}

/// A module that its name marks as optional.
pub open spec fn is_optional(module: Seq<char>) -> bool {
    ||| text::contains(module, ".integrations."@)
    ||| text::contains(module, ".integration."@)
    ||| text::contains(module, ".plugins."@)
    ||| text::contains(module, ".plugin."@)
    ||| text::contains(module, ".extras."@)
    ||| text::contains(module, ".optional."@)
}

fn is_optional_module(module: &str) -> (r: bool)
    ensures
        r == is_optional(module@),
{
    holds(module, ".integrations.") || holds(module, ".integration.") || holds(module, ".plugins.")
        || holds(module, ".plugin.") || holds(module, ".extras.") || holds(module, ".optional.")
}

/// A module that may be left out of the import check: a test, or one marked as optional, that has
/// a parent.
pub open spec fn safe_exclusion(module: Seq<char>) -> Option<Seq<char>> {
    if text::contains(module, ".tests."@) || text::starts_with(last_part(module), "test_"@)
        || is_optional(module) || text::contains(module, ".multidb."@) {
        match parent_module(module) {
            Some(parent) => Some(parent + ".*"@),
            None => None,
        }
    } else {
        None
    }
}

pub fn safe_import_exclusion(module: &str) -> (r: Option<String>)
    ensures
        text::opt_text(r) == safe_exclusion(module@),
{
    if holds(module, ".tests.") || has_prefix(last_segment(module).as_str(), "test_")
        || is_optional_module(module) || holds(module, ".multidb.") {
        match module_parent(module) {
            Some(parent) => Some(cat2(parent.as_str(), ".*")),
            None => None,
        }
    } else {
        None
    }
}

/// The modules of `v` that may be left out of the import check.
pub open spec fn safe_modules(v: Seq<Seq<char>>) -> Seq<Seq<char>>
    decreases v.len(),
{
    if v.len() == 0 {
        seq![]
    } else if safe_exclusion(v.last()) is Some {
        safe_modules(v.drop_last()).push(v.last())
    } else {
        safe_modules(v.drop_last())
    }
}

fn safe_module_list(v: &[String]) -> (r: Vec<String>)
    ensures
        text::texts(r@) == safe_modules(text::texts(v@)),
{
    let ghost all = text::texts(v@);
    let mut out: Vec<String> = Vec::new();
    assert(text::texts(out@) =~= seq![]);
    let mut i: usize = 0;
    while i < v.len()
        invariant
            i <= v@.len(),
            all == text::texts(v@),
            text::texts(out@) == safe_modules(all.take(i as int)),
        decreases v@.len() - i,
    {
        if safe_import_exclusion(v[i].as_str()).is_some() {
            push_line(&mut out, v[i].clone());
        }
        i += 1;
        assert(all.take(i as int).drop_last() =~= all.take(i - 1));
    }
    assert(all.take(all.len() as int) =~= all);
    out
}

/// What a module is grouped by: its parent, the module itself where it has none.
pub open spec fn group_of(module: Seq<char>) -> Seq<char> {
    match parent_module(module) {
        Some(parent) => parent,
        None => module,
    }
}

pub open spec fn groups_of(v: Seq<Seq<char>>) -> Seq<Seq<char>> {
    Seq::new(v.len(), |i: int| group_of(v[i]))
}

/// The first part of a module.
pub open spec fn root_of(module: Seq<char>) -> Seq<char> {
    module.take(text::index_of(module, '.', 0))
}

pub open spec fn roots_of(v: Seq<Seq<char>>) -> Seq<Seq<char>> {
    Seq::new(v.len(), |i: int| root_of(v[i]))
}

/// The groups of `v` whose first part is `root`, in order and each once.
pub open spec fn groups_under(v: Seq<Seq<char>>, root: Seq<char>) -> Seq<Seq<char>>
    decreases v.len(),
{
    if v.len() == 0 {
        seq![]
    } else if root_of(v.last()) == root {
        pieces::sorted_insert(groups_under(v.drop_last(), root), v.last())
    } else {
        groups_under(v.drop_last(), root)
    }
}

pub open spec fn suffix_each(v: Seq<Seq<char>>, suffix: Seq<char>) -> Seq<Seq<char>> {
    Seq::new(v.len(), |i: int| v[i] + suffix)
}

/// What excludes the groups under one root: three or more of them together, fewer one by one.
pub open spec fn root_exclusions(groups: Seq<Seq<char>>, root: Seq<char>) -> Seq<Seq<char>> {
    let under = groups_under(groups, root);
    if under.len() >= 3 {
        seq![root + ".*"@]
    } else {
        suffix_each(under, ".*"@)
    }
}

pub open spec fn exclusions_under(groups: Seq<Seq<char>>, roots: Seq<Seq<char>>) -> Seq<Seq<char>>
    decreases roots.len(),
{
    if roots.len() == 0 {
        seq![]
    } else {
        pieces::add_all_unique(
            exclusions_under(groups, roots.drop_last()),
            root_exclusions(groups, roots.last()),
        )
    }
}

/// What excludes `modules`: their parents, or where a root has many of them the root.
pub open spec fn grouped_exclusions(modules: Seq<Seq<char>>) -> Seq<Seq<char>> {
    let groups = groups_of(modules);
    exclusions_under(groups, pieces::sorted_set(roots_of(groups)))
}

fn root_exclusion_list(groups: &[String], root: &str) -> (r: Vec<String>)
    ensures
        text::texts(r@) == root_exclusions(text::texts(groups@), root@),
{
    let ghost all = text::texts(groups@);
    let mut under: Vec<String> = Vec::new();
    assert(text::texts(under@) =~= seq![]);
    let mut i: usize = 0;
    while i < groups.len()
        invariant
            i <= groups@.len(),
            all == text::texts(groups@),
            text::texts(under@) == groups_under(all.take(i as int), root@),
        decreases groups@.len() - i,
    {
        if same(root_text(groups[i].as_str()).as_str(), root) {
            insert_sorted(&mut under, groups[i].as_str());
        }
        i += 1;
        assert(all.take(i as int).drop_last() =~= all.take(i - 1));
    }
    assert(all.take(all.len() as int) =~= all);
    assert(text::texts(under@).len() == under@.len());
    let mut out: Vec<String> = Vec::new();
    if under.len() >= 3 {
        out.push(cat2(root, ".*"));
        assert(text::texts(out@) =~= seq![root@ + ".*"@]);
        return out;
    }
    let mut k: usize = 0;
    while k < under.len()
        invariant
            k <= under@.len(),
            out@.len() == k,
            forall|j: int| 0 <= j < k ==> (#[trigger] out@[j])@ == under@[j]@ + ".*"@,
        decreases under@.len() - k,
    {
        out.push(cat2(under[k].as_str(), ".*"));
        k += 1;
    }
    assert(text::texts(out@) =~= suffix_each(text::texts(under@), ".*"@));
    out
}

fn root_text(module: &str) -> (r: String)
    ensures
        r@ == root_of(module@),
{
    let v = chars_of(module);
    let dot: usize = index_of_at(&v, '.', 0);
    string_of(&v, 0, dot)
}

fn grouped_exclusions_for(modules: &[String]) -> (r: Vec<String>)
    ensures
        text::texts(r@) == grouped_exclusions(text::texts(modules@)),
{
    let mut groups: Vec<String> = Vec::new();
    let mut roots: Vec<String> = Vec::new();
    let mut i: usize = 0;
    while i < modules.len()
        invariant
            i <= modules@.len(),
            groups@.len() == i,
            roots@.len() == i,
            forall|j: int| 0 <= j < i ==> (#[trigger] groups@[j])@ == group_of(modules@[j]@),
            forall|j: int| 0 <= j < i ==> (#[trigger] roots@[j])@ == root_of(groups@[j]@),
        decreases modules@.len() - i,
    {
        let group = match module_parent(modules[i].as_str()) {
            Some(parent) => parent,
            None => modules[i].clone(),
        };
        roots.push(root_text(group.as_str()));
        groups.push(group);
        i += 1;
    }
    let ghost all = text::texts(groups@);
    assert(all =~= groups_of(text::texts(modules@)));
    assert(text::texts(roots@) =~= roots_of(all));
    let ordered = sorted_texts(&roots);
    let ghost names = text::texts(ordered@);
    let mut out: Vec<String> = Vec::new();
    assert(text::texts(out@) =~= seq![]);
    let mut k: usize = 0;
    while k < ordered.len()
        invariant
            k <= ordered@.len(),
            names == text::texts(ordered@),
            all == text::texts(groups@),
            text::texts(out@) == exclusions_under(all, names.take(k as int)),
        decreases ordered@.len() - k,
    {
        push_all_unique(&mut out, &root_exclusion_list(&groups, ordered[k].as_str()));
        k += 1;
        assert(names.take(k as int).drop_last() =~= names.take(k - 1));
    }
    assert(names.take(names.len() as int) =~= names);
    out
}

/// What excludes the modules of an explicit list: each of them, once.
pub open spec fn listed_exclusions(modules: Seq<Seq<char>>) -> Seq<Seq<char>> {
    pieces::unique(nonempty(pieces::trim_each(modules)))
}

fn explicit_exclusions(modules: &[String]) -> (r: Vec<String>)
    ensures
        text::texts(r@) == listed_exclusions(text::texts(modules@)),
{
    unique_texts(&nonempty_texts(&trimmed_each(modules)))
}

/// A log in which an import failed.
pub open spec fn has_import_failure(log: Seq<char>) -> bool {
    ||| text::contains(log, "ModuleNotFoundError"@)
    ||| text::contains(log, "ImportError"@)
    ||| text::contains(log, "is not installed"@)
    ||| text::contains(log, "Please install it with"@)
    ||| text::contains(log, "pip install"@)
}

/// The issue of an import check that failed: the modules that the check lists, else those that it
/// tried and that may be left out.
pub open spec fn import_exclusions(log: Seq<char>) -> Option<IssueModel> {
    let listed = failed_imports(log);
    let modules = match listed {
        Some(v) => v,
        None => safe_modules(patterns::checked_imports_from(log, 0)),
    };
    let exclusions = if listed is Some {
        listed_exclusions(modules)
    } else {
        grouped_exclusions(modules)
    };
    if text::contains(log, "import_all_modules.py"@) && has_import_failure(log) && modules.len() > 0
        && exclusions.len() > 0 {
        Some(
            IssueModel::ImportCheckExclusions {
                modules,
                missing_modules: pieces::unique(patterns::missing_modules_from(log, 0)),
                exclusions,
            },
        )
    } else {
        None
    }
}

fn import_check_exclusion_issue(log: &str) -> (r: Option<BuildIssue>)
    ensures
        issue::opt_issue(r) == import_exclusions(log@),
{
    if !holds(log, "import_all_modules.py") {
        return None;
    }
    if !(holds(log, "ModuleNotFoundError") || holds(log, "ImportError") || holds(log, "is not installed")
        || holds(log, "Please install it with") || holds(log, "pip install")) {
        return None;
    }
    let listed = failed_import_modules(log);
    let explicit = listed.is_some();
    let modules = match listed {
        Some(v) => v,
        None => safe_module_list(&regex_captures_iter(CHECKED_IMPORT, log)),
    };
    assert(text::texts(modules@).len() == modules@.len());
    if modules.len() == 0 {
        return None;
    }
    let missing_modules = unique_texts(&regex_captures_iter(MISSING_MODULE, log));
    let exclusions = if explicit {
        explicit_exclusions(&modules)
    } else {
        grouped_exclusions_for(&modules)
    };
    assert(text::texts(exclusions@).len() == exclusions@.len());
    if exclusions.len() == 0 {
        return None;
    }
    Some(BuildIssue::ImportCheckExclusions { modules, missing_modules, exclusions })
}

pub open spec fn is_c_failure(log: Seq<char>) -> bool {
    text::contains(log, "fatal error:"@) || text::contains(log, "gcc failed"@) || text::contains(
        log,
        "pkg-config"@,
    )
}

pub open spec fn is_patch_failure(log: Seq<char>) -> bool {
    text::contains(log, "hunk FAILED"@) || (text::contains(log, "patch"@) && text::contains(
        log,
        "FAILED"@,
    ))
}

pub open spec fn is_failed_test(log: Seq<char>) -> bool {
    text::contains(log, "pytest"@) && (text::contains(log, "FAILED"@) || text::contains(
        log,
        "failed"@,
    ))
}

/// A line, given in lower case, that a person should read.
pub open spec fn is_important(lower: Seq<char>) -> bool {
    ||| text::contains(lower, "error"@)
    ||| text::contains(lower, "failed"@)
    ||| text::contains(lower, "nothing provides"@)
    ||| text::contains(lower, "unresolvable"@)
    ||| text::contains(lower, "not an obs scm working copy"@)
}

pub fn is_important_line(lower: &str) -> (r: bool)
    ensures
        r == is_important(lower@),
{
    holds(lower, "error") || holds(lower, "failed") || holds(lower, "nothing provides") || holds(
        lower,
        "unresolvable",
    ) || holds(lower, "not an obs scm working copy")
}

/// The lines that a person should read, without the white space around them.
pub open spec fn important_of(v: Seq<Seq<char>>) -> Seq<Seq<char>>
    decreases v.len(),
{
    if v.len() == 0 {
        seq![]
    } else if is_important(outside::lowercase(v.last())) {
        important_of(v.drop_last()).push(text::trim(v.last()))
    } else {
        important_of(v.drop_last())
    }
}

/// The first `n` of a list, all of it where it has no more.
pub open spec fn at_most(v: Seq<Seq<char>>, n: int) -> Seq<Seq<char>> {
    if v.len() <= n {
        v
    } else {
        v.take(n)
    }
}

/// At most twenty lines that a person should read.
pub open spec fn important(log: Seq<char>) -> Seq<Seq<char>> {
    at_most(important_of(pieces::lines(log)), 20)
}

pub fn important_lines(log: &str) -> (r: Vec<String>)
    ensures
        text::texts(r@) == important(log@),
{
    let lines = lines_of(log);
    let ghost all = text::texts(lines@);
    let mut out: Vec<String> = Vec::new();
    assert(text::texts(out@) =~= seq![]);
    let mut i: usize = 0;
    while i < lines.len()
        invariant
            i <= lines@.len(),
            all == text::texts(lines@),
            text::texts(out@) == important_of(all.take(i as int)),
        decreases lines@.len() - i,
    {
        if is_important_line(to_lowercase(lines[i].as_str()).as_str()) {
            push_line(&mut out, trimmed(lines[i].as_str()));
        }
        i += 1;
        assert(all.take(i as int).drop_last() =~= all.take(i - 1));
    }
    assert(all.take(all.len() as int) =~= all);
    shorten(&mut out, 20);
    out
}

/// Leaves the first `n` of `v`.
pub fn shorten(v: &mut Vec<String>, n: usize)
    ensures
        text::texts(final(v)@) == at_most(text::texts(old(v)@), n as int),
{
    assert(text::texts(v@).len() == v@.len());
    if v.len() > n {
        v.truncate(n);
        assert(text::texts(v@) =~= text::texts(old(v)@).take(n as int));
    }
}

/// What a build log says is wrong: the first of the known failures that it shows.
pub open spec fn issue_of(log: Seq<char>) -> IssueModel {
    let module = patterns::missing_modules_from(log, 0);
    if module_mismatch(log) is Some {
        module_mismatch(log)->0
    } else if nothing_to_check(log) {
        IssueModel::EmptyImportCheck
    } else if import_exclusions(log) is Some {
        import_exclusions(log)->0
    } else if missing_requirements(log) is Some {
        IssueModel::MissingBuildDependencies { deps: missing_requirements(log)->0 }
    } else if unprovided(log) is Some {
        IssueModel::DependencyUnresolvable { deps: unprovided(log)->0 }
    } else if unpackaged(log) is Some {
        IssueModel::InstalledButUnpackagedFiles { files: unpackaged(log)->0 }
    } else if text::contains(log, "Arch dependent binaries in noarch package"@) {
        IssueModel::ArchDependentInNoarch
    } else if text::contains(log, "No License-File (PEP 639)"@) {
        IssueModel::MissingPep639LicenseMetadata
    } else if is_c_failure(log) {
        IssueModel::CExtensionCompileError { important_lines: important(log) }
    } else if is_patch_failure(log) {
        IssueModel::PatchApplyError { important_lines: important(log) }
    } else if is_failed_test(log) {
        IssueModel::TestFailure { important_lines: important(log) }
    } else if module.len() > 0 {
        IssueModel::MissingPythonModule { module: module[0], import_context: None }
    } else {
        IssueModel::Unknown { important_lines: important(log) }
    }
}

pub fn analyze_log(log: &str) -> (r: BuildIssue)
    ensures
        r@ == issue_of(log@),
{
    if let Some(issue) = install_module_mismatch(log) {
        return issue;
    }
    if holds(log, "import_all_modules.py") && holds(log, "ValueError: No modules to check were left") {
        return BuildIssue::EmptyImportCheck;
    }
    if let Some(issue) = import_check_exclusion_issue(log) {
        return issue;
    }
    if let Some(deps) = failed_build_deps(log) {
        return BuildIssue::MissingBuildDependencies { deps };
    }
    if let Some(deps) = unresolvable_deps(log) {
        return BuildIssue::DependencyUnresolvable { deps };
    }
    if let Some(files) = unpackaged_files(log) {
        return BuildIssue::InstalledButUnpackagedFiles { files };
    }
    if holds(log, "Arch dependent binaries in noarch package") {
        return BuildIssue::ArchDependentInNoarch;
    }
    if holds(log, "No License-File (PEP 639)") {
        return BuildIssue::MissingPep639LicenseMetadata;
    }
    if holds(log, "fatal error:") || holds(log, "gcc failed") || holds(log, "pkg-config") {
        return BuildIssue::CExtensionCompileError { important_lines: important_lines(log) };
    }
    if holds(log, "hunk FAILED") || (holds(log, "patch") && holds(log, "FAILED")) {
        return BuildIssue::PatchApplyError { important_lines: important_lines(log) };
    }
    if holds(log, "pytest") && (holds(log, "FAILED") || holds(log, "failed")) {
        return BuildIssue::TestFailure { important_lines: important_lines(log) };
    }
    if let Some((_, module)) = regex_captures(MISSING_MODULE, log) {
        return BuildIssue::MissingPythonModule { module, import_context: None };
    }
    BuildIssue::Unknown { important_lines: important_lines(log) }
}

} // verus!
