//! Upstream Python projects: their names, the generated packaging, and the module that a source
//! tree installs.
use vstd::prelude::*;

use crate::analyzer;
use crate::analyzer::nonempty_texts;
use crate::command::{CommandModel, CommandSpec};
use crate::outside;
use crate::outside::{tar_gz_entries, to_lowercase, to_uppercase, utf8_text};
use crate::pieces;
use crate::pieces::{
    insert_sorted, joined, lines_of, path_of, push_all_unique, replaced, split_on, trimmed_each,
    unique_texts,
};
use crate::report::push_line;
use crate::text;
use crate::text::{
    cat2, cat3, chars_of, has_prefix, has_suffix, holds, index_of_at, last_index_of_at, same,
    string_of, trimmed, trimmed_start_char, without_prefix, without_suffix,
};

verus! {

/// The name of the RPM package for a Python project.
pub open spec fn package_name(name: Seq<char>) -> Seq<char> {
    if text::starts_with(name, "python-"@) {
        name
    } else {
        "python-"@ + name
    }
}

/// The name of the Python project of an RPM package.
pub open spec fn dist_name(name: Seq<char>) -> Seq<char> {
    match text::strip_prefix(name, "python-"@) {
        Some(rest) => rest,
        None => name,
    }
}

pub fn python_package_name(name: &str) -> (r: String)
    ensures
        r@ == package_name(name@),
{
    if has_prefix(name, "python-") {
        name.to_owned()
    } else {
        cat2("python-", name)
    }
}

pub fn python_dist_name(name: &str) -> (r: String)
    ensures
        r@ == dist_name(name@),
{
    match without_prefix(name, "python-") {
        Some(rest) => rest,
        None => name.to_owned(),
    }
}

/// Naming a package twice names it once, and a package and its project have the same project name.
pub proof fn law_package_names(name: Seq<char>)
    ensures
        package_name(package_name(name)) == package_name(name),
        dist_name(package_name(name)) == dist_name(name),
{
    let p = "python-"@;
    if !text::starts_with(name, p) {
        assert((p + name).subrange(0, p.len() as int) =~= p);
        assert((p + name).skip(p.len() as int) =~= name);
    }
}

/// The outcome of generating a spec.
#[derive(Debug, Clone)]
pub struct TakopackResult {
    pub output_dir: String,
    pub spec_path: String,
    pub log_path: String,
}

/// The arguments with which `takopack` generates the spec of a project.
pub open spec fn takopack_args(
    name: Seq<char>,
    version: Option<Seq<char>>,
    output_dir: Seq<char>,
) -> Seq<Seq<char>> {
    let args = seq!["py"@, "package"@, "-o"@, output_dir, name];
    match version {
        Some(v) => args.push(v),
        None => args,
    }
}

pub fn takopack_arguments(package_name: &str, version: &Option<String>, output_dir: &str) -> (r: Vec<
    String,
>)
    ensures
        text::texts(r@) == takopack_args(package_name@, text::opt_text(*version), output_dir@),
{
    let mut args: Vec<String> = Vec::new();
    push_line(&mut args, "py".to_owned());
    push_line(&mut args, "package".to_owned());
    push_line(&mut args, "-o".to_owned());
    push_line(&mut args, output_dir.to_owned());
    push_line(&mut args, package_name.to_owned());
    assert(text::texts(args@) =~= seq!["py"@, "package"@, "-o"@, output_dir@, package_name@]);
    if let Some(v) = version {
        push_line(&mut args, v.clone());
    }
    args
}

pub fn takopack_log_path(output_dir: &str) -> (r: String)
    ensures
        r@ == pieces::path_join(pieces::path_join(output_dir@, "logs"@), "takopack.log"@),
{
    path_of(path_of(output_dir, "logs").as_str(), "takopack.log")
}

/// The command that generates the spec of a project.
pub fn takopack_command(
    package_name: &str,
    version: &Option<String>,
    output_dir: &str,
    takopack_bin: &str,
) -> (r: CommandSpec)
    ensures
        r@ == (CommandModel {
            program: takopack_bin@,
            args: takopack_args(package_name@, text::opt_text(*version), output_dir@),
            cwd: Some(output_dir@),
            timeout: 600,
            log_path: pieces::path_join(
                pieces::path_join(output_dir@, "logs"@),
                "takopack.log"@,
            ),
        }),
{
    CommandSpec {
        program: takopack_bin.to_owned(),
        args: takopack_arguments(package_name, version, output_dir),
        cwd: Some(output_dir.to_owned()),
        timeout: 600,
        log_path: takopack_log_path(output_dir),
    }
}

/// The directory in which the spec of a project is expected.
pub fn expected_spec_dir(output_dir: &str, package_name: &str) -> (r: String)
    ensures
        r@ == pieces::path_join(output_dir@, "python-"@ + package_name@),
{
    path_of(output_dir, cat2("python-", package_name).as_str())
}

/// What a run of `takopack` has come to: an error where it failed or where no spec is found, the
/// spec in the expected directory before one found elsewhere.
pub fn generate_python_spec(
    output_dir: &str,
    returncode: i32,
    stderr: &str,
    expected: Option<String>,
    elsewhere: Option<String>,
) -> (r: Result<TakopackResult, String>)
    ensures
        match r {
            Ok(result) => {
                &&& returncode == 0
                &&& result.output_dir@ == output_dir@
                &&& result.log_path@ == pieces::path_join(
                    pieces::path_join(output_dir@, "logs"@),
                    "takopack.log"@,
                )
                &&& match expected {
                    Some(path) => result.spec_path@ == path@,
                    None => elsewhere is Some && result.spec_path@ == elsewhere->0@,
                }
            },
            Err(message) => if returncode != 0 {
                message@ == "takopack failed: "@ + stderr@
            } else {
                &&& expected is None
                &&& elsewhere is None
                &&& message@ == "takopack succeeded but no .spec was found under "@ + output_dir@
            },
        },
{
    if returncode != 0 {
        return Err(cat2("takopack failed: ", stderr));
    }
    let found = match expected {
        Some(path) => Some(path),
        None => elsewhere,
    };
    match found {
        Some(spec_path) => Ok(
            TakopackResult {
                output_dir: output_dir.to_owned(),
                spec_path,
                log_path: takopack_log_path(output_dir),
            },
        ),
        None => Err(cat2("takopack succeeded but no .spec was found under ", output_dir)),
    }
}

/// What stands in a directory.
#[derive(Debug, Clone, PartialEq, Eq)]
pub struct DirItem {
    pub name: String,
    pub is_dir: bool,
    pub is_file: bool,
}

/// What was read of a source tree: the contents of its `top_level.txt` files, the bytes of its
/// `.tar.gz` archives in order, and what stands in its topmost directory. What could not be read
/// is there as the error.
#[derive(Debug)]
pub struct SourceTree {
    pub top_level_texts: Result<Vec<String>, String>,
    pub archives: Result<Vec<Result<Vec<u8>, String>>, String>,
    pub first_level: Result<Vec<DirItem>, String>,
}

/// The name of an archive that is looked into for modules.
pub fn is_tar_gz(name: &str) -> (r: bool)
    ensures
        r == (text::ends_with(name@, ".tar.gz"@) || text::ends_with(name@, ".tgz"@)),
{
    has_suffix(name, ".tar.gz") || has_suffix(name, ".tgz")
}

/// The name of a directory whose `top_level.txt` names modules.
pub fn is_egg_info(name: &str) -> (r: bool)
    ensures
        r == text::ends_with(name@, ".egg-info"@),
{
    has_suffix(name, ".egg-info")
}

/// A module name with underscores for hyphens.
pub open spec fn plain_name(module: Seq<char>) -> Seq<char> {
    pieces::replace(text::trim(module), "-"@, "_"@)
}

fn plain_name_of(module: &str) -> (r: String)
    ensures
        r@ == plain_name(module@),
{
    proof {
        reveal_strlit("-");
    }
    replaced(trimmed(module).as_str(), "-", "_")
}

pub open spec fn lower_name(module: Seq<char>) -> Seq<char> {
    outside::lowercase(plain_name(module))
}

/// The lines of a `top_level.txt`: the modules it names, each once.
pub open spec fn module_lines(s: Seq<char>) -> Seq<Seq<char>> {
    pieces::unique(analyzer::nonempty(pieces::trim_each(pieces::lines(s))))
}

pub fn top_level_module_lines(s: &str) -> (r: Vec<String>)
    ensures
        text::texts(r@) == module_lines(s@),
{
    unique_texts(&nonempty_texts(&trimmed_each(&lines_of(s))))
}

/// The modules that several `top_level.txt` name, each once.
pub open spec fn all_module_lines(v: Seq<Seq<char>>) -> Seq<Seq<char>>
    decreases v.len(),
{
    if v.len() == 0 {
        seq![]
    } else {
        pieces::add_all_unique(all_module_lines(v.drop_last()), module_lines(v.last()))
    }
}

fn all_module_line_list(v: &[String]) -> (r: Vec<String>)
    ensures
        text::texts(r@) == all_module_lines(text::texts(v@)),
{
    let ghost all = text::texts(v@);
    let mut out: Vec<String> = Vec::new();
    assert(text::texts(out@) =~= seq![]);
    let mut i: usize = 0;
    while i < v.len()
        invariant
            i <= v@.len(),
            all == text::texts(v@),
            text::texts(out@) == all_module_lines(all.take(i as int)),
        decreases v@.len() - i,
    {
        push_all_unique(&mut out, &top_level_module_lines(v[i].as_str()));
        i += 1;
        assert(all.take(i as int).drop_last() =~= all.take(i - 1));
    }
    assert(all.take(all.len() as int) =~= all);
    out
}

/// The first field of `s` as `c` separates them.
pub open spec fn first_field(s: Seq<char>, c: char) -> Seq<char> {
    s.take(text::index_of(s, c, 0))
}

fn first_field_of(s: &str, c: char) -> (r: String)
    ensures
        r@ == first_field(s@, c),
{
    let v = chars_of(s);
    let k: usize = index_of_at(&v, c, 0);
    string_of(&v, 0, k)
}

/// A module is the one looked for, given both names as they are and in lower case: it is the same,
/// or the part before the first underscore.
pub open spec fn names_match(
    plain: Seq<char>,
    plain_lower: Seq<char>,
    top: Seq<char>,
    top_lower: Seq<char>,
) -> bool {
    plain == top || first_field(plain, '_') == top || plain_lower == top_lower || first_field(
        plain_lower,
        '_',
    ) == top_lower
}

pub fn names_agree(plain: &str, plain_lower: &str, top: &str, top_lower: &str) -> (r: bool)
    ensures
        r == names_match(plain@, plain_lower@, top@, top_lower@),
{
    same(plain, top) || same(first_field_of(plain, '_').as_str(), top) || same(
        plain_lower,
        top_lower,
    ) || same(first_field_of(plain_lower, '_').as_str(), top_lower)
}

/// A top-level module is the one that was looked for under another name.
pub open spec fn matches_wrong(top: Seq<char>, wrong: Seq<char>) -> bool {
    names_match(plain_name(wrong), lower_name(wrong), top, outside::lowercase(top))
}

fn top_level_matches_wrong_module(top_level: &str, wrong_module: &str) -> (r: bool)
    ensures
        r == matches_wrong(top_level@, wrong_module@),
{
    let plain = plain_name_of(wrong_module);
    names_agree(
        plain.as_str(),
        to_lowercase(plain.as_str()).as_str(),
        top_level,
        to_lowercase(top_level).as_str(),
    )
}

/// The name, in lower case, of a module that goes along with another.
pub open spec fn is_auxiliary(lower: Seq<char>) -> bool {
    lower == "example"@ || lower == "examples"@ || lower == "test"@ || lower == "tests"@
}

pub fn is_auxiliary_name(lower: &str) -> (r: bool)
    ensures
        r == is_auxiliary(lower@),
{
    same(lower, "example") || same(lower, "examples") || same(lower, "test") || same(lower, "tests")
}

/// The first of `v` from `i` on that is the module looked for.
pub open spec fn matching_from(v: Seq<Seq<char>>, wrong: Seq<char>, i: int) -> Option<Seq<char>>
    decreases v.len() - i,
{
    if i < 0 || i >= v.len() {
        None
    } else if matches_wrong(v[i], wrong) {
        Some(v[i])
    } else {
        matching_from(v, wrong, i + 1)
    }
}

fn first_matching(v: &[String], wrong: &str) -> (r: Option<String>)
    ensures
        text::opt_text(r) == matching_from(text::texts(v@), wrong@, 0),
{
    let mut i: usize = 0;
    while i < v.len()
        invariant
            i <= v@.len(),
            matching_from(text::texts(v@), wrong@, 0) == matching_from(
                text::texts(v@),
                wrong@,
                i as int,
            ),
        decreases v@.len() - i,
    {
        if top_level_matches_wrong_module(v[i].as_str(), wrong) {
            return Some(v[i].clone());
        }
        i += 1;
    }
    None
}

/// The first of `v` from `i` on that is named otherwise than `wrong`, and that is no auxiliary
/// module where `primary` asks for that.
pub open spec fn other_from(v: Seq<Seq<char>>, wrong: Seq<char>, primary: bool, i: int) -> Option<
    Seq<char>,
>
    decreases v.len() - i,
{
    if i < 0 || i >= v.len() {
        None
    } else if lower_name(v[i]) != lower_name(wrong) && !(primary && is_auxiliary(
        outside::lowercase(text::trim(v[i])),
    )) {
        Some(v[i])
    } else {
        other_from(v, wrong, primary, i + 1)
    }
}

fn first_other(v: &[String], wrong: &str, primary: bool) -> (r: Option<String>)
    ensures
        text::opt_text(r) == other_from(text::texts(v@), wrong@, primary, 0),
{
    let wrong_lower = to_lowercase(plain_name_of(wrong).as_str());
    let mut i: usize = 0;
    while i < v.len()
        invariant
            i <= v@.len(),
            wrong_lower@ == lower_name(wrong@),
            other_from(text::texts(v@), wrong@, primary, 0) == other_from(
                text::texts(v@),
                wrong@,
                primary,
                i as int,
            ),
        decreases v@.len() - i,
    {
        let module = v[i].as_str();
        let lower = to_lowercase(plain_name_of(module).as_str());
        if !same(lower.as_str(), wrong_lower.as_str()) && !(primary && is_auxiliary_name(
            to_lowercase(trimmed(module).as_str()).as_str(),
        )) {
            return Some(v[i].clone());
        }
        i += 1;
    }
    None
}

pub open spec fn first_text(v: Seq<Seq<char>>) -> Option<Seq<char>> {
    if v.len() > 0 {
        Some(v[0])
    } else {
        None
    }
}

/// Of the modules that a `top_level.txt` names the one to install: the one looked for, else the
/// first with another name that is no auxiliary module, else the first with another name, else the
/// first.
pub open spec fn top_level_choice(v: Seq<Seq<char>>, wrong: Seq<char>) -> Option<Seq<char>> {
    text::or_else(
        matching_from(v, wrong, 0),
        text::or_else(
            other_from(v, wrong, true, 0),
            text::or_else(other_from(v, wrong, false, 0), first_text(v)),
        ),
    )
}

pub fn select_top_level_candidate(top_levels: &[String], wrong_module: &str) -> (r: Option<String>)
    ensures
        text::opt_text(r) == top_level_choice(text::texts(top_levels@), wrong_module@),
{
    if let Some(module) = first_matching(top_levels, wrong_module) {
        return Some(module);
    }
    if let Some(module) = first_other(top_levels, wrong_module, true) {
        return Some(module);
    }
    if let Some(module) = first_other(top_levels, wrong_module, false) {
        return Some(module);
    }
    if top_levels.len() > 0 {
        Some(top_levels[0].clone())
    } else {
        None
    }
}

/// A text with its first character in upper case.
pub open spec fn capitalized(s: Seq<char>) -> Seq<char> {
    if s.len() == 0 {
        seq![]
    } else {
        outside::uppercase(s[0]) + s.skip(1)
    }
}

fn capitalize_first(s: &str) -> (r: String)
    ensures
        r@ == capitalized(s@),
{
    let v = chars_of(s);
    if v.len() == 0 {
        String::new()
    } else {
        cat2(to_uppercase(v[0]).as_str(), string_of(&v, 1, v.len()).as_str())
    }
}

pub open spec fn capitalized_each(v: Seq<Seq<char>>) -> Seq<Seq<char>> {
    Seq::new(v.len(), |i: int| capitalized(v[i]))
}

/// A name in camel case.
pub open spec fn camel_case(s: Seq<char>) -> Seq<char> {
    pieces::join(capitalized_each(pieces::split(s, '_')), ""@)
}

fn to_camel_case(s: &str) -> (r: String)
    ensures
        r@ == camel_case(s@),
{
    let parts = split_on(s, '_');
    let mut out: Vec<String> = Vec::new();
    let mut i: usize = 0;
    while i < parts.len()
        invariant
            i <= parts@.len(),
            out@.len() == i,
            forall|k: int| 0 <= k < i ==> (#[trigger] out@[k])@ == capitalized(parts@[k]@),
        decreases parts@.len() - i,
    {
        out.push(capitalize_first(parts[i].as_str()));
        i += 1;
    }
    assert(text::texts(out@) =~= capitalized_each(text::texts(parts@)));
    joined(&out, "")
}

/// The names under which the module may be installed.
pub open spec fn module_names(wrong: Seq<char>) -> Seq<Seq<char>> {
    let plain = plain_name(wrong);
    let dotted = pieces::replace(plain, "_"@, "."@);
    seq![plain, dotted, capitalized(plain), capitalized(dotted), camel_case(plain)]
}

pub fn install_module_candidates(wrong_module: &str) -> (r: Vec<String>)
    ensures
        text::texts(r@) == module_names(wrong_module@),
{
    proof {
        reveal_strlit("_");
    }
    let plain = plain_name_of(wrong_module);
    let dotted = replaced(plain.as_str(), "_", ".");
    let mut out: Vec<String> = Vec::new();
    push_line(&mut out, plain.clone());
    push_line(&mut out, dotted.clone());
    push_line(&mut out, capitalize_first(plain.as_str()));
    push_line(&mut out, capitalize_first(dotted.as_str()));
    push_line(&mut out, to_camel_case(plain.as_str()));
    assert(text::texts(out@) =~= module_names(wrong_module@));
    out
}

/// A path of an archive is that of the module with the path `module`.
pub open spec fn is_module_path(line: Seq<char>, module: Seq<char>) -> bool {
    ||| text::ends_with(line, "/"@ + module + "/__init__.py"@)
    ||| text::ends_with(line, "/"@ + module + ".py"@)
    ||| line == module + "/__init__.py"@
    ||| line == module + ".py"@
}

fn is_path_of_module(line: &str, module: &str) -> (r: bool)
    ensures
        r == is_module_path(line@, module@),
{
    has_suffix(line, cat3("/", module, "/__init__.py").as_str()) || has_suffix(
        line,
        cat3("/", module, ".py").as_str(),
    ) || same(line, cat2(module, "/__init__.py").as_str()) || same(
        line,
        cat2(module, ".py").as_str(),
    )
}

pub open spec fn path_of_name(module: Seq<char>) -> Seq<char> {
    pieces::replace(module, "."@, "/"@)
}

/// A path of the archive is that of the module, or is so in lower case.
pub open spec fn lists_module(entries: Seq<Seq<char>>, module: Seq<char>) -> bool {
    exists|i: int|
        0 <= i < entries.len() && (is_module_path(#[trigger] entries[i], path_of_name(module))
            || is_module_path(
            outside::lowercase(entries[i]),
            outside::lowercase(path_of_name(module)),
        ))
}

pub fn listing_contains_module(entries: &[String], module: &str) -> (r: bool)
    ensures
        r == lists_module(text::texts(entries@), module@),
{
    proof {
        reveal_strlit(".");
    }
    let path = replaced(module, ".", "/");
    let lower = to_lowercase(path.as_str());
    let ghost all = text::texts(entries@);
    let mut i: usize = 0;
    while i < entries.len()
        invariant
            i <= entries@.len(),
            all == text::texts(entries@),
            path@ == path_of_name(module@),
            lower@ == outside::lowercase(path_of_name(module@)),
            forall|k: int|
                0 <= k < i ==> !(is_module_path(#[trigger] all[k], path_of_name(module@))
                    || is_module_path(
                    outside::lowercase(all[k]),
                    outside::lowercase(path_of_name(module@)),
                )),
        decreases entries@.len() - i,
    {
        let line = entries[i].as_str();
        assert(all[i as int] == line@);
        if is_path_of_module(line, path.as_str()) || is_path_of_module(
            to_lowercase(line).as_str(),
            lower.as_str(),
        ) {
            return true;
        }
        i += 1;
    }
    false
}

/// The name, in lower case, of a directory that holds no sources.
pub open spec fn is_work_dir(lower: Seq<char>) -> bool {
    lower == "build"@ || lower == "dist"@ || lower == "examples"@ || lower == "example"@ || lower
        == "logs"@
}

pub open spec fn is_metadata(name: Seq<char>) -> bool {
    text::ends_with(name, ".egg-info"@) || text::ends_with(name, ".dist-info"@)
}

/// A name, also given in lower case, that is hidden or speaks of tests or documentation.
pub open spec fn is_aside(name: Seq<char>, lower: Seq<char>) -> bool {
    text::starts_with(name, "."@) || text::contains(lower, "test"@) || text::contains(lower, "doc"@)
}

/// A directory, its name also given in lower case, that is not that of a module.
pub open spec fn is_skipped(name: Seq<char>, lower: Seq<char>) -> bool {
    is_aside(name, lower) || is_work_dir(lower) || is_metadata(name)
}

fn work_dir(lower: &str) -> (r: bool)
    ensures
        r == is_work_dir(lower@),
{
    same(lower, "build") || same(lower, "dist") || same(lower, "examples") || same(
        lower,
        "example",
    ) || same(lower, "logs")
}

fn metadata(name: &str) -> (r: bool)
    ensures
        r == is_metadata(name@),
{
    has_suffix(name, ".egg-info") || has_suffix(name, ".dist-info")
}

fn aside(name: &str, lower: &str) -> (r: bool)
    ensures
        r == is_aside(name@, lower@),
{
    has_prefix(name, ".") || holds(lower, "test") || holds(lower, "doc")
}

pub fn skipped(name: &str, lower: &str) -> (r: bool)
    ensures
        r == is_skipped(name@, lower@),
{
    aside(name, lower) || work_dir(lower) || metadata(name)
}

/// The model of a [`DirItem`].
pub open spec fn item_models(v: Seq<DirItem>) -> Seq<(Seq<char>, bool, bool)> {
    Seq::new(v.len(), |i: int| (v[i].name@, v[i].is_dir, v[i].is_file))
}

/// The modules that may stand in a directory: its subdirectories and Python files.
pub open spec fn dir_modules(v: Seq<(Seq<char>, bool, bool)>) -> Seq<Seq<char>>
    decreases v.len(),
{
    if v.len() == 0 {
        seq![]
    } else {
        let (name, is_dir, is_file) = v.last();
        let before = dir_modules(v.drop_last());
        if is_skipped(name, outside::lowercase(name)) {
            before
        } else if is_dir {
            pieces::sorted_insert(before, name)
        } else {
            match text::strip_suffix(name, ".py"@) {
                Some(stem) => if is_file {
                    pieces::sorted_insert(before, stem)
                } else {
                    before
                },
                None => before,
            }
        }
    }
}

pub fn first_level_candidates(items: &[DirItem]) -> (r: Vec<String>)
    ensures
        text::texts(r@) == dir_modules(item_models(items@)),
{
    let ghost all = item_models(items@);
    let mut out: Vec<String> = Vec::new();
    assert(text::texts(out@) =~= seq![]);
    let mut i: usize = 0;
    while i < items.len()
        invariant
            i <= items@.len(),
            all == item_models(items@),
            text::texts(out@) == dir_modules(all.take(i as int)),
        decreases items@.len() - i,
    {
        assert(all.take(i + 1).drop_last() =~= all.take(i as int));
        assert(all.take(i + 1).last() == all[i as int]);
        let name = items[i].name.as_str();
        if !skipped(name, to_lowercase(name).as_str()) {
            if items[i].is_dir {
                insert_sorted(&mut out, name);
            } else if items[i].is_file {
                if let Some(stem) = without_suffix(name, ".py") {
                    insert_sorted(&mut out, stem.as_str());
                }
            }
        }
        i += 1;
    }
    assert(all.take(all.len() as int) =~= all);
    out
}

/// The name that the topmost part of a path of an archive gives to a module.
pub open spec fn first_level_name(entry: Seq<char>) -> Option<Seq<char>> {
    let p = text::trim_start_char(entry, '/');
    let slash = text::index_of(p, '/', 0);
    let dot = text::last_index_of(p, '.', p.len() as int);
    if slash < p.len() {
        if is_skipped(p.take(slash), outside::lowercase(p.take(slash))) {
            None
        } else {
            Some(p.take(slash))
        }
    } else if dot >= 0 && !is_aside(p.take(dot), outside::lowercase(p.take(dot))) {
        Some(p.take(dot))
    } else {
        None
    }
}

fn first_level_name_of(entry: &str) -> (r: Option<String>)
    ensures
        text::opt_text(r) == first_level_name(entry@),
{
    let p = trimmed_start_char(entry, '/');
    let v = chars_of(p.as_str());
    let slash: usize = index_of_at(&v, '/', 0);
    if slash < v.len() {
        let first = string_of(&v, 0, slash);
        if skipped(first.as_str(), to_lowercase(first.as_str()).as_str()) {
            None
        } else {
            Some(first)
        }
    } else {
        let behind: usize = last_index_of_at(&v, '.');
        if behind > 0 {
            let stem = string_of(&v, 0, behind - 1);
            if aside(stem.as_str(), to_lowercase(stem.as_str()).as_str()) {
                None
            } else {
                Some(stem)
            }
        } else {
            None
        }
    }
}

/// The names that the topmost parts of the paths of an archive give to modules.
pub open spec fn first_level_names(v: Seq<Seq<char>>) -> Seq<Seq<char>>
    decreases v.len(),
{
    if v.len() == 0 {
        seq![]
    } else {
        match first_level_name(v.last()) {
            Some(name) => pieces::sorted_insert(first_level_names(v.drop_last()), name),
            None => first_level_names(v.drop_last()),
        }
    }
}

pub fn archive_first_level_candidates(entries: &[String]) -> (r: Vec<String>)
    ensures
        text::texts(r@) == first_level_names(text::texts(entries@)),
{
    let ghost all = text::texts(entries@);
    let mut out: Vec<String> = Vec::new();
    assert(text::texts(out@) =~= seq![]);
    let mut i: usize = 0;
    while i < entries.len()
        invariant
            i <= entries@.len(),
            all == text::texts(entries@),
            text::texts(out@) == first_level_names(all.take(i as int)),
        decreases entries@.len() - i,
    {
        if let Some(name) = first_level_name_of(entries[i].as_str()) {
            insert_sorted(&mut out, name.as_str());
        }
        i += 1;
        assert(all.take(i as int).drop_last() =~= all.take(i - 1));
    }
    assert(all.take(all.len() as int) =~= all);
    out
}

/// The name, in lower case, of a directory between the top of an archive and its modules.
pub open spec fn is_between(lower: Seq<char>) -> bool {
    lower == "src"@ || lower == "lib"@ || lower == "source"@ || lower == "sources"@
}

/// The first of the parts from `i` up to `n` that is neither hidden nor between the top and the
/// modules.
pub open spec fn module_part(parts: Seq<Seq<char>>, i: int, n: int) -> Option<Seq<char>>
    decreases n - i,
{
    if i < 0 || i >= n {
        None
    } else if is_between(outside::lowercase(parts[i])) || text::starts_with(parts[i], "."@) {
        module_part(parts, i + 1, n)
    } else {
        Some(parts[i])
    }
}

/// The module of the package that a path of an archive belongs to, where the path is that of an
/// `__init__.py`.
pub open spec fn package_module(entry: Seq<char>) -> Option<Seq<char>> {
    let p = text::trim_start_char(entry, '/');
    let parts = pieces::split(p, '/');
    if text::ends_with(p, "/__init__.py"@) && parts.len() >= 3 {
        match module_part(parts, 1, parts.len() - 1) {
            Some(name) => {
                let lower = outside::lowercase(name);
                if text::contains(lower, "test"@) || is_work_dir(lower) || is_metadata(name) {
                    None
                } else {
                    Some(name)
                }
            },
            None => None,
        }
    } else {
        None
    }
}

#[verifier::loop_isolation(false)]
fn module_part_of(parts: &[String], n: usize) -> (r: Option<String>)
    requires
        n <= parts@.len(),
    ensures
        text::opt_text(r) == module_part(text::texts(parts@), 1, n as int),
{
    let ghost all = text::texts(parts@);
    let mut i: usize = 1;
    while i < n
        invariant
            1 <= i,
            all == text::texts(parts@),
            module_part(all, 1, n as int) == module_part(all, i as int, n as int),
        decreases n - i,
    {
        let part = parts[i].as_str();
        assert(all[i as int] == part@);
        let lower = to_lowercase(part);
        if !(same(lower.as_str(), "src") || same(lower.as_str(), "lib") || same(
            lower.as_str(),
            "source",
        ) || same(lower.as_str(), "sources")) && !has_prefix(part, ".") {
            return Some(parts[i].clone());
        }
        i += 1;
    }
    None
}

fn package_module_of(entry: &str) -> (r: Option<String>)
    ensures
        text::opt_text(r) == package_module(entry@),
{
    let p = trimmed_start_char(entry, '/');
    if !has_suffix(p.as_str(), "/__init__.py") {
        return None;
    }
    let parts = split_on(p.as_str(), '/');
    assert(text::texts(parts@).len() == parts@.len());
    if parts.len() < 3 {
        return None;
    }
    match module_part_of(&parts, parts.len() - 1) {
        Some(name) => {
            let lower = to_lowercase(name.as_str());
            if holds(lower.as_str(), "test") || work_dir(lower.as_str()) || metadata(name.as_str()) {
                None
            } else {
                Some(name)
            }
        },
        None => None,
    }
}

/// The modules of the packages in an archive, in order and each once.
pub open spec fn package_modules(v: Seq<Seq<char>>) -> Seq<Seq<char>>
    decreases v.len(),
{
    if v.len() == 0 {
        seq![]
    } else {
        match package_module(v.last()) {
            Some(name) => pieces::sorted_insert(package_modules(v.drop_last()), name),
            None => package_modules(v.drop_last()),
        }
    }
}

pub fn extract_python_modules_from_archive(entries: &[String]) -> (r: Vec<String>)
    ensures
        text::texts(r@) == package_modules(text::texts(entries@)),
{
    let ghost all = text::texts(entries@);
    let mut out: Vec<String> = Vec::new();
    assert(text::texts(out@) =~= seq![]);
    let mut i: usize = 0;
    while i < entries.len()
        invariant
            i <= entries@.len(),
            all == text::texts(entries@),
            text::texts(out@) == package_modules(all.take(i as int)),
        decreases entries@.len() - i,
    {
        if let Some(name) = package_module_of(entries[i].as_str()) {
            insert_sorted(&mut out, name.as_str());
        }
        i += 1;
        assert(all.take(i as int).drop_last() =~= all.take(i - 1));
    }
    assert(all.take(all.len() as int) =~= all);
    out
}

/// The first of `v` from `i` on whose lower case is not `lower`.
pub open spec fn unlike_from(v: Seq<Seq<char>>, lower: Seq<char>, i: int) -> Option<Seq<char>>
    decreases v.len() - i,
{
    if i < 0 || i >= v.len() {
        None
    } else if outside::lowercase(v[i]) != lower {
        Some(v[i])
    } else {
        unlike_from(v, lower, i + 1)
    }
}

fn first_unlike(v: &[String], lower: &str) -> (r: Option<String>)
    ensures
        text::opt_text(r) == unlike_from(text::texts(v@), lower@, 0),
{
    let mut i: usize = 0;
    while i < v.len()
        invariant
            i <= v@.len(),
            unlike_from(text::texts(v@), lower@, 0) == unlike_from(
                text::texts(v@),
                lower@,
                i as int,
            ),
        decreases v@.len() - i,
    {
        if !same(to_lowercase(v[i].as_str()).as_str(), lower) {
            return Some(v[i].clone());
        }
        i += 1;
    }
    None
}

/// The first of `names` from `i` on that the archive lists.
pub open spec fn listed_from(entries: Seq<Seq<char>>, names: Seq<Seq<char>>, i: int) -> Option<
    Seq<char>,
>
    decreases names.len() - i,
{
    if i < 0 || i >= names.len() {
        None
    } else if lists_module(entries, names[i]) {
        Some(names[i])
    } else {
        listed_from(entries, names, i + 1)
    }
}

/// The module that an archive installs, by the modules that its `top_level.txt` names and by its
/// paths.
pub open spec fn archive_choice(
    top_levels: Seq<Seq<char>>,
    entries: Seq<Seq<char>>,
    wrong: Seq<char>,
) -> Option<Seq<char>> {
    let modules = package_modules(entries);
    text::or_else(
        top_level_choice(top_levels, wrong),
        text::or_else(
            matching_from(modules, wrong, 0),
            text::or_else(
                unlike_from(modules, lower_name(wrong), 0),
                text::or_else(
                    first_text(modules),
                    text::or_else(
                        matching_from(first_level_names(entries), wrong, 0),
                        listed_from(entries, module_names(wrong), 0),
                    ),
                ),
            ),
        ),
    )
}

#[verifier::loop_isolation(false)]
pub fn module_of_archive(top_levels: &[String], entries: &[String], wrong_module: &str) -> (r: Option<
    String,
>)
    ensures
        text::opt_text(r) == archive_choice(
            text::texts(top_levels@),
            text::texts(entries@),
            wrong_module@,
        ),
{
    if let Some(module) = select_top_level_candidate(top_levels, wrong_module) {
        return Some(module);
    }
    let modules = extract_python_modules_from_archive(entries);
    if let Some(module) = first_matching(&modules, wrong_module) {
        return Some(module);
    }
    let lower = to_lowercase(plain_name_of(wrong_module).as_str());
    if let Some(module) = first_unlike(&modules, lower.as_str()) {
        return Some(module);
    }
    if modules.len() > 0 {
        return Some(modules[0].clone());
    }
    if let Some(module) = first_matching(&archive_first_level_candidates(entries), wrong_module) {
        return Some(module);
    }
    let names = install_module_candidates(wrong_module);
    let ghost all = text::texts(names@);
    let mut i: usize = 0;
    while i < names.len()
        invariant
            i <= names@.len(),
            listed_from(text::texts(entries@), all, 0) == listed_from(
                text::texts(entries@),
                all,
                i as int,
            ),
        decreases names@.len() - i,
    {
        if listing_contains_module(entries, names[i].as_str()) {
            return Some(names[i].clone());
        }
        i += 1;
    }
    None
}

/// The module that the topmost directory holds.
pub open spec fn dir_choice(modules: Seq<Seq<char>>, wrong: Seq<char>) -> Option<Seq<char>> {
    text::or_else(
        matching_from(modules, wrong, 0),
        text::or_else(
            unlike_from(modules, lower_name(wrong), 0),
            if modules.len() == 1 {
                Some(modules[0])
            } else {
                None
            },
        ),
    )
}

pub fn module_of_dir(modules: &[String], wrong_module: &str) -> (r: Option<String>)
    ensures
        text::opt_text(r) == dir_choice(text::texts(modules@), wrong_module@),
{
    if let Some(module) = first_matching(modules, wrong_module) {
        return Some(module);
    }
    let lower = to_lowercase(plain_name_of(wrong_module).as_str());
    if let Some(module) = first_unlike(modules, lower.as_str()) {
        return Some(module);
    }
    if modules.len() == 1 {
        Some(modules[0].clone())
    } else {
        None
    }
}

/// The paths of an archive with slashes for backslashes.
pub open spec fn entry_paths(v: Seq<(Seq<char>, Seq<u8>)>) -> Seq<Seq<char>> {
    Seq::new(v.len(), |i: int| pieces::replace(v[i].0, "\\"@, "/"@))
}

/// The first of the paths from `i` on of a `top_level.txt`, the number of paths where there is
/// none.
pub open spec fn top_level_entry(paths: Seq<Seq<char>>, i: int) -> int
    decreases paths.len() - i,
{
    if 0 <= i < paths.len() && !text::ends_with(paths[i], "/top_level.txt"@) {
        top_level_entry(paths, i + 1)
    } else {
        i
    }
}

/// The modules that the `top_level.txt` of an archive names. There is no answer where it is not
/// UTF-8.
pub open spec fn archive_top_levels(v: Seq<(Seq<char>, Seq<u8>)>) -> Option<Seq<Seq<char>>> {
    let at = top_level_entry(entry_paths(v), 0);
    if at < v.len() {
        if vstd::utf8::valid_utf8(v[at].1) {
            Some(module_lines(vstd::utf8::decode_utf8(v[at].1)))
        } else {
            None
        }
    } else {
        Some(seq![])
    }
}

/// The result of a search that can fail.
pub type Search = Result<Option<Seq<char>>, Seq<char>>;

/// The module that an archive installs. The search fails where the archive cannot be read.
pub open spec fn search_archive(bytes: Seq<u8>, wrong: Seq<char>) -> Search {
    match outside::tar_gz(bytes) {
        Ok(v) => entries_choice(v, wrong),
        Err(message) => Err(message),
    }
}

/// A result of the library agrees with a search.
pub open spec fn found(r: Result<Option<String>, String>, search: Search) -> bool {
    match r {
        Ok(o) => search == Ok::<Option<Seq<char>>, Seq<char>>(text::opt_text(o)),
        Err(message) => search == Err::<Option<Seq<char>>, Seq<char>>(message@),
    }
}

/// The module that the entries of an archive name.
pub open spec fn entries_choice(v: Seq<(Seq<char>, Seq<u8>)>, wrong: Seq<char>) -> Search {
    match archive_top_levels(v) {
        Some(top_levels) => Ok(archive_choice(top_levels, entry_paths(v), wrong)),
        None => Err("stream did not contain valid UTF-8"@),
    }
}

/// The module that the entries of an archive, given as paths and contents, install.
pub fn module_of_entries(entries: &[(String, Vec<u8>)], wrong_module: &str) -> (r: Result<
    Option<String>,
    String,
>)
    ensures
        found(r, entries_choice(outside::entry_models(entries@), wrong_module@)),
{
    let ghost models = outside::entry_models(entries@);
    proof {
        reveal_strlit("\\");
    }
    let mut paths: Vec<String> = Vec::new();
    let mut i: usize = 0;
    while i < entries.len()
        invariant
            i <= entries@.len(),
            paths@.len() == i,
            "\\"@.len() > 0,
            forall|k: int|
                0 <= k < i ==> (#[trigger] paths@[k])@ == pieces::replace(
                    entries@[k].0@,
                    "\\"@,
                    "/"@,
                ),
        decreases entries@.len() - i,
    {
        paths.push(replaced(entries[i].0.as_str(), "\\", "/"));
        i += 1;
    }
    assert(text::texts(paths@) =~= entry_paths(models));
    let mut at: usize = 0;
    while at < paths.len() && !has_suffix(paths[at].as_str(), "/top_level.txt")
        invariant
            at <= paths@.len(),
            top_level_entry(text::texts(paths@), 0) == top_level_entry(
                text::texts(paths@),
                at as int,
            ),
        decreases paths@.len() - at,
    {
        at += 1;
    }
    let top_levels = if at < paths.len() {
        assert(models[at as int].1 == entries@[at as int].1@);
        match utf8_text(&entries[at].1) {
            Some(content) => top_level_module_lines(content.as_str()),
            None => return Err("stream did not contain valid UTF-8".to_owned()),
        }
    } else {
        let none: Vec<String> = Vec::new();
        assert(text::texts(none@) =~= seq![]);
        none
    };
    Ok(module_of_archive(&top_levels, &paths, wrong_module))
}

pub fn infer_from_archive(bytes: &[u8], wrong_module: &str) -> (r: Result<Option<String>, String>)
    ensures
        found(r, search_archive(bytes@, wrong_module@)),
{
    match tar_gz_entries(bytes) {
        Ok(entries) => module_of_entries(&entries, wrong_module),
        Err(message) => Err(message),
    }
}

pub open spec fn archive_models(v: Seq<Result<Vec<u8>, String>>) -> Seq<Result<Seq<u8>, Seq<char>>> {
    Seq::new(
        v.len(),
        |i: int|
            match v[i] {
                Ok(bytes) => Ok::<Seq<u8>, Seq<char>>(bytes@),
                Err(message) => Err::<Seq<u8>, Seq<char>>(message@),
            },
    )
}

/// The module that the first of the archives from `i` on installs that installs one.
pub open spec fn search_archives(
    v: Seq<Result<Seq<u8>, Seq<char>>>,
    wrong: Seq<char>,
    i: int,
) -> Search
    decreases v.len() - i,
{
    if i < 0 || i >= v.len() {
        Ok(None)
    } else {
        match v[i] {
            Ok(bytes) => if search_archive(bytes, wrong)
                == Ok::<Option<Seq<char>>, Seq<char>>(None) {
                search_archives(v, wrong, i + 1)
            } else {
                search_archive(bytes, wrong)
            },
            Err(message) => Err(message),
        }
    }
}

/// The module that a source tree installs: the one that its `top_level.txt` files choose, else the
/// one of the first archive that installs one, else the one of its topmost directory.
pub open spec fn search_tree(tree: SourceTree, wrong: Seq<char>) -> Search {
    match tree.top_level_texts {
        Err(message) => Err(message@),
        Ok(top_level_texts) => {
            let chosen = top_level_choice(
                all_module_lines(text::texts(top_level_texts@)),
                wrong,
            );
            if chosen is Some {
                Ok(chosen)
            } else {
                match tree.archives {
                    Err(message) => Err(message@),
                    Ok(archives) => {
                        let packed = search_archives(archive_models(archives@), wrong, 0);
                        if packed != Ok::<Option<Seq<char>>, Seq<char>>(None) {
                            packed
                        } else {
                            match tree.first_level {
                                Err(message) => Err(message@),
                                Ok(items) => Ok(
                                    dir_choice(dir_modules(item_models(items@)), wrong),
                                ),
                            }
                        }
                    },
                }
            }
        },
    }
}

#[verifier::loop_isolation(false)]
fn infer_from_archives(archives: &[Result<Vec<u8>, String>], wrong_module: &str) -> (r: Result<
    Option<String>,
    String,
>)
    ensures
        found(r, search_archives(archive_models(archives@), wrong_module@, 0)),
{
    let ghost all = archive_models(archives@);
    let mut i: usize = 0;
    while i < archives.len()
        invariant
            i <= archives@.len(),
            all == archive_models(archives@),
            search_archives(all, wrong_module@, 0) == search_archives(
                all,
                wrong_module@,
                i as int,
            ),
        decreases archives@.len() - i,
    {
        match &archives[i] {
            Ok(bytes) => {
                assert(all[i as int] == Ok::<Seq<u8>, Seq<char>>(bytes@));
                match infer_from_archive(bytes, wrong_module) {
                    Ok(Some(module)) => return Ok(Some(module)),
                    Ok(None) => {},
                    Err(message) => return Err(message),
                }
            },
            Err(message) => return Err(message.clone()),
        }
        i += 1;
    }
    Ok(None)
}

pub fn infer_install_module(tree: &SourceTree, wrong_module: &str) -> (r: Result<
    Option<String>,
    String,
>)
    ensures
        found(r, search_tree(*tree, wrong_module@)),
{
    let top_levels = match &tree.top_level_texts {
        Ok(v) => all_module_line_list(v),
        Err(message) => return Err(message.clone()),
    };
    if let Some(module) = select_top_level_candidate(&top_levels, wrong_module) {
        return Ok(Some(module));
    }
    match &tree.archives {
        Ok(archives) => match infer_from_archives(archives, wrong_module) {
            Ok(Some(module)) => return Ok(Some(module)),
            Ok(None) => {},
            Err(message) => return Err(message),
        },
        Err(message) => return Err(message.clone()),
    }
    match &tree.first_level {
        Ok(items) => Ok(module_of_dir(&first_level_candidates(items), wrong_module)),
        Err(message) => Err(message.clone()),
    }
}

} // verus!
