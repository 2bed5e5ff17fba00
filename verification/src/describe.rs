//! What a language model is told about a package, and what is taken from its description.
use vstd::prelude::*;

use crate::issue::copy_opt;
use crate::line_laws;
use crate::outside;
use crate::outside::to_lowercase;
use crate::pieces;
use crate::pieces::{capped, has_text, insert_sorted, joined, lines_of, replaced, split_at_first};
use crate::report::push_line;
use crate::text;
use crate::text::{
    chars_of, has_prefix, has_suffix, holds, is_empty, last_index_of_at, same, string_of, trimmed,
    trimmed_char, trimmed_end, trimmed_end_char, trimmed_start, without_prefix, without_suffix,
};

verus! {

/// All that a language model is told about a package.
#[derive(Debug, Clone)]
pub struct DescriptionInput {
    pub metadata: PackageMetadata,
    pub core_modules: Vec<String>,
    pub sources: SourceFiles,
    pub readme_excerpt: String,
}

#[derive(Debug, Clone)]
pub struct PackageMetadata {
    pub name: Option<String>,
    pub version: Option<String>,
    pub summary: Option<String>,
    pub description: Option<String>,
    pub home_page: Option<String>,
    pub author: Option<String>,
    pub requires_dist: Vec<String>,
}

#[derive(Debug, Clone)]
pub struct SourceFiles {
    pub pyproject_toml: Option<String>,
    pub setup_cfg: Option<String>,
    pub setup_py: Option<String>,
}

/// The model of [`PackageMetadata`].
#[verifier::ext_equal]
pub struct MetaModel {
    pub name: Option<Seq<char>>,
    pub version: Option<Seq<char>>,
    pub summary: Option<Seq<char>>,
    pub description: Option<Seq<char>>,
    pub home_page: Option<Seq<char>>,
    pub author: Option<Seq<char>>,
    pub requires_dist: Seq<Seq<char>>,
}

impl View for PackageMetadata {
    type V = MetaModel;

    open spec fn view(&self) -> MetaModel {
        MetaModel {
            name: text::opt_text(self.name),
            version: text::opt_text(self.version),
            summary: text::opt_text(self.summary),
            description: text::opt_text(self.description),
            home_page: text::opt_text(self.home_page),
            author: text::opt_text(self.author),
            requires_dist: text::texts(self.requires_dist@),
        }
    }
}

pub open spec fn no_metadata() -> MetaModel {
    MetaModel {
        name: None,
        version: None,
        summary: None,
        description: None,
        home_page: None,
        author: None,
        requires_dist: seq![],
    }
}

impl Default for PackageMetadata {
    fn default() -> (r: Self)
        ensures
            r@ == no_metadata(),
    {
        let r = PackageMetadata {
            name: None,
            version: None,
            summary: None,
            description: None,
            home_page: None,
            author: None,
            requires_dist: Vec::new(),
        };
        assert(r@.requires_dist =~= seq![]);
        r
    }
}

impl Default for SourceFiles {
    fn default() -> (r: Self)
        ensures
            r.pyproject_toml is None,
            r.setup_cfg is None,
            r.setup_py is None,
    {
        SourceFiles { pyproject_toml: None, setup_cfg: None, setup_py: None }
    }
}

/// `m` with what a header says. Of several authors the first counts, of all else the last.
pub open spec fn with_header(m: MetaModel, key: Seq<char>, value: Seq<char>) -> MetaModel {
    let v = text::trim(value);
    let k = outside::lowercase(text::trim(key));
    if v.len() == 0 {
        m
    } else if k == "name"@ {
        MetaModel { name: Some(v), ..m }
    } else if k == "version"@ {
        MetaModel { version: Some(v), ..m }
    } else if k == "summary"@ {
        MetaModel { summary: Some(v), ..m }
    } else if k == "description"@ {
        MetaModel { description: Some(v), ..m }
    } else if k == "home-page"@ || k == "url"@ {
        MetaModel { home_page: Some(v), ..m }
    } else if k == "author"@ || k == "author-email"@ {
        if m.author is None {
            MetaModel { author: Some(v), ..m }
        } else {
            m
        }
    } else if k == "requires-dist"@ {
        MetaModel { requires_dist: m.requires_dist.push(v), ..m }
    } else {
        m
    }
}

/// `m` with what the headers in `lines` say.
pub open spec fn with_headers(m: MetaModel, lines: Seq<Seq<char>>) -> MetaModel
    decreases lines.len(),
{
    if lines.len() == 0 {
        m
    } else {
        let before = with_headers(m, lines.drop_last());
        match pieces::split_once(lines.last(), ":"@) {
            Some((key, value)) => with_header(before, key, value),
            None => before,
        }
    }
}

fn set_header(m: &mut PackageMetadata, key: &str, value: &str)
    ensures
        final(m)@ == with_header(old(m)@, key@, value@),
{
    let v = trimmed(value);
    if is_empty(v.as_str()) {
        return;
    }
    let key_trimmed = trimmed(key);
    let k = to_lowercase(key_trimmed.as_str());
    if same(k.as_str(), "name") {
        m.name = Some(v);
    } else if same(k.as_str(), "version") {
        m.version = Some(v);
    } else if same(k.as_str(), "summary") {
        m.summary = Some(v);
    } else if same(k.as_str(), "description") {
        m.description = Some(v);
    } else if same(k.as_str(), "home-page") || same(k.as_str(), "url") {
        m.home_page = Some(v);
    } else if same(k.as_str(), "author") || same(k.as_str(), "author-email") {
        if m.author.is_none() {
            m.author = Some(v);
        }
    } else if same(k.as_str(), "requires-dist") {
        push_line(&mut m.requires_dist, v);
    }
}

/// Reads the headers of a `PKG-INFO` or `METADATA` file.
pub fn parse_email_metadata(text: &str, m: &mut PackageMetadata)
    ensures
        final(m)@ == with_headers(old(m)@, pieces::lines(text@)),
{
    let lines = lines_of(text);
    let ghost all = text::texts(lines@);
    let ghost start = m@;
    proof {
        reveal_strlit(":");
    }
    let mut i: usize = 0;
    while i < lines.len()
        invariant
            i <= lines@.len(),
            all == text::texts(lines@),
            ":"@.len() > 0,
            m@ == with_headers(start, all.take(i as int)),
        decreases lines@.len() - i,
    {
        assert(all[i as int] == lines@[i as int]@);
        if let Some((key, value)) = split_at_first(lines[i].as_str(), ":") {
            set_header(m, key.as_str(), value.as_str());
        }
        i += 1;
        assert(all.take(i as int).drop_last() =~= all.take(i - 1));
        assert(all.take(i as int).last() == all[i - 1]);
    }
    assert(all.take(all.len() as int) =~= all);
}

/// Whether the lines end in the section `header`.
pub open spec fn in_section(lines: Seq<Seq<char>>, header: Seq<char>) -> bool
    decreases lines.len(),
{
    if lines.len() == 0 {
        false
    } else {
        let line = text::trim(lines.last());
        if line == header {
            true
        } else if text::starts_with(line, "["@) {
            false
        } else {
            in_section(lines.drop_last(), header)
        }
    }
}

/// A value without the quotes around it.
pub open spec fn unquoted(value: Seq<char>) -> Seq<char> {
    text::trim_char(text::trim_char(text::trim(value), '"'), '\'')
}

/// `m` with an entry of a project file, unless it knows better.
pub open spec fn with_entry(m: MetaModel, key: Seq<char>, value: Seq<char>, long: bool) -> MetaModel {
    if value.len() == 0 {
        m
    } else if key == "name"@ {
        if m.name is None {
            MetaModel { name: Some(value), ..m }
        } else {
            m
        }
    } else if key == "version"@ {
        if m.version is None {
            MetaModel { version: Some(value), ..m }
        } else {
            m
        }
    } else if key == "description"@ {
        if m.summary is None {
            MetaModel { summary: Some(value), ..m }
        } else {
            m
        }
    } else if long && key == "long_description"@ {
        if m.description is None {
            MetaModel { description: Some(value), ..m }
        } else {
            m
        }
    } else {
        m
    }
}

/// How a value is read: in TOML the white space inside the quotes goes too.
pub open spec fn entry_value(value: Seq<char>, toml: bool) -> Seq<char> {
    if toml {
        text::trim(unquoted(value))
    } else {
        unquoted(value)
    }
}

/// `m` with the entries of the section `header` in `lines`.
pub open spec fn with_section(
    m: MetaModel,
    lines: Seq<Seq<char>>,
    header: Seq<char>,
    toml: bool,
) -> MetaModel
    decreases lines.len(),
{
    if lines.len() == 0 {
        m
    } else {
        let before = with_section(m, lines.drop_last(), header, toml);
        let line = text::trim(lines.last());
        if line == header || text::starts_with(line, "["@) || !in_section(
            lines.drop_last(),
            header,
        ) {
            before
        } else {
            match pieces::split_once(line, "="@) {
                Some((key, value)) => with_entry(
                    before,
                    text::trim(key),
                    entry_value(value, toml),
                    !toml,
                ),
                None => before,
            }
        }
    }
}

pub fn clean_toml_value(raw: &str) -> (r: String)
    ensures
        r@ == text::trim(text::trim_char(text::trim_char(raw@, '"'), '\'')),
{
    let inner = trimmed_char(trimmed_char(raw, '"').as_str(), '\'');
    trimmed(inner.as_str())
}

fn set_entry(m: &mut PackageMetadata, key: &str, value: String, long: bool)
    ensures
        final(m)@ == with_entry(old(m)@, key@, value@, long),
{
    if is_empty(value.as_str()) {
        return;
    }
    if same(key, "name") {
        if m.name.is_none() {
            m.name = Some(value);
        }
    } else if same(key, "version") {
        if m.version.is_none() {
            m.version = Some(value);
        }
    } else if same(key, "description") {
        if m.summary.is_none() {
            m.summary = Some(value);
        }
    } else if long && same(key, "long_description") {
        if m.description.is_none() {
            m.description = Some(value);
        }
    }
}

fn parse_section(text: &str, m: &mut PackageMetadata, header: &str, toml: bool)
    ensures
        final(m)@ == with_section(old(m)@, pieces::lines(text@), header@, toml),
{
    let lines = lines_of(text);
    let ghost all = text::texts(lines@);
    let ghost start = m@;
    proof {
        reveal_strlit("=");
    }
    let mut inside = false;
    let mut i: usize = 0;
    while i < lines.len()
        invariant
            i <= lines@.len(),
            all == text::texts(lines@),
            "="@.len() > 0,
            inside == in_section(all.take(i as int), header@),
            m@ == with_section(start, all.take(i as int), header@, toml),
        decreases lines@.len() - i,
    {
        let line = trimmed(lines[i].as_str());
        assert(all[i as int] == lines@[i as int]@);
        assert(all.take(i + 1).drop_last() =~= all.take(i as int));
        assert(all.take(i + 1).last() == all[i as int]);
        if same(line.as_str(), header) {
            inside = true;
        } else if has_prefix(line.as_str(), "[") {
            inside = false;
        } else if inside {
            if let Some((key, value)) = split_at_first(line.as_str(), "=") {
                let entry = if toml {
                    clean_toml_value(trimmed(value.as_str()).as_str())
                } else {
                    trimmed_char(
                        trimmed_char(trimmed(value.as_str()).as_str(), '"').as_str(),
                        '\'',
                    )
                };
                set_entry(m, trimmed(key.as_str()).as_str(), entry, !toml);
            }
        }
        i += 1;
    }
    assert(all.take(all.len() as int) =~= all);
}

/// Reads the `[project]` table of a `pyproject.toml` file.
pub fn parse_pyproject_toml(text: &str, m: &mut PackageMetadata)
    ensures
        final(m)@ == with_section(old(m)@, pieces::lines(text@), "[project]"@, true),
{
    parse_section(text, m, "[project]", true)
}

/// Reads the `[metadata]` section of a `setup.cfg` file.
pub fn parse_setup_cfg(text: &str, m: &mut PackageMetadata)
    ensures
        final(m)@ == with_section(old(m)@, pieces::lines(text@), "[metadata]"@, false),
{
    parse_section(text, m, "[metadata]", false)
}

/// A line that shows a badge and nothing else.
pub open spec fn is_badge(line: Seq<char>) -> bool {
    let s = text::trim(line);
    &&& line.len() > 0
    &&& text::starts_with(s, "[!["@) || (text::starts_with(s, "!["@) && text::ends_with(s, ")"@))
        || (text::contains(s, "github.com/"@) && text::contains(s, "/actions/workflows/"@)
        && text::contains(s, "/badge."@)) || ((text::contains(s, "travis-ci."@) || text::contains(
        s,
        "circleci."@,
    ) || text::contains(s, "codecov."@) || text::contains(s, "coveralls."@)) && text::contains(
        s,
        ".svg"@,
    ))
}

pub fn is_badge_line(line: &str) -> (r: bool)
    ensures
        r == is_badge(line@),
{
    if is_empty(line) {
        return false;
    }
    let owned = trimmed(line);
    let s = owned.as_str();
    if has_prefix(s, "[![") || (has_prefix(s, "![") && has_suffix(s, ")")) {
        return true;
    }
    if holds(s, "github.com/") && holds(s, "/actions/workflows/") && holds(s, "/badge.") {
        return true;
    }
    (holds(s, "travis-ci.") || holds(s, "circleci.") || holds(s, "codecov.") || holds(
        s,
        "coveralls.",
    )) && holds(s, ".svg")
}

/// How much of a README is kept.
pub const README_EXCERPT_MAX: usize = 2500;

/// The lines that show no badge, each with its end.
pub open spec fn without_badges(lines: Seq<Seq<char>>) -> Seq<char>
    decreases lines.len(),
{
    if lines.len() == 0 {
        seq![]
    } else {
        let before = without_badges(lines.drop_last());
        if is_badge(text::trim(lines.last())) {
            before
        } else {
            before + lines.last() + "\n"@
        }
    }
}

/// The start of a README, without its badges.
pub open spec fn excerpt(s: Seq<char>) -> Seq<char> {
    pieces::cap(without_badges(pieces::lines(s)), README_EXCERPT_MAX as int)
}

proof fn lemma_without_badges_grows(lines: Seq<Seq<char>>, i: int)
    requires
        0 <= i <= lines.len(),
    ensures
        without_badges(lines.take(i)).len() <= without_badges(lines).len(),
        without_badges(lines).take(without_badges(lines.take(i)).len() as int) == without_badges(
            lines.take(i),
        ),
    decreases lines.len() - i,
{
    let a = without_badges(lines.take(i));
    if i == lines.len() {
        assert(lines.take(i) =~= lines);
        assert(a.take(a.len() as int) =~= a);
    } else {
        lemma_without_badges_grows(lines, i + 1);
        assert(lines.take(i + 1).drop_last() =~= lines.take(i));
        let b = without_badges(lines.take(i + 1));
        let all = without_badges(lines);
        assert(a.len() <= b.len());
        assert(b.take(a.len() as int) =~= a);
        assert(all.take(a.len() as int) =~= all.take(b.len() as int).take(a.len() as int));
    }
}

#[verifier::loop_isolation(false)]
pub fn excerpt_readme(text: &str) -> (r: String)
    ensures
        r@ == excerpt(text@),
{
    let lines = lines_of(text);
    let ghost all = text::texts(lines@);
    let mut result = String::new();
    let mut i: usize = 0;
    assert(result@ =~= without_badges(all.take(0)));
    while i < lines.len()
        invariant
            i <= lines@.len(),
            all == text::texts(lines@),
            result@ == without_badges(all.take(i as int)),
        decreases lines@.len() - i,
    {
        let kept = chars_of(result.as_str());
        if kept.len() >= README_EXCERPT_MAX {
            proof {
                lemma_without_badges_grows(all, i as int);
                let whole = without_badges(all);
                assert(pieces::cap(whole, README_EXCERPT_MAX as int) =~= pieces::cap(
                    whole.take(result@.len() as int),
                    README_EXCERPT_MAX as int,
                ));
            }
            return capped(result.as_str(), README_EXCERPT_MAX);
        }
        assert(all[i as int] == lines@[i as int]@);
        if !is_badge_line(trimmed(lines[i].as_str()).as_str()) {
            result.append(lines[i].as_str());
            result.append("\n");
        }
        i += 1;
        assert(all.take(i as int).drop_last() =~= all.take(i - 1));
        assert(all.take(i as int).last() == all[i - 1]);
    }
    assert(all.take(all.len() as int) =~= all);
    capped(result.as_str(), README_EXCERPT_MAX)
}

/// A directory of a source tree: the names on the way to it, and whether it is a Python package.
#[derive(Debug, Clone)]
pub struct SourceDir {
    pub path: Vec<String>,
    pub is_package: bool,
}

/// The model of a [`SourceDir`].
#[verifier::ext_equal]
pub struct DirModel {
    pub path: Seq<Seq<char>>,
    pub is_package: bool,
}

impl View for SourceDir {
    type V = DirModel;

    open spec fn view(&self) -> DirModel {
        DirModel { path: text::texts(self.path@), is_package: self.is_package }
    }
}

pub open spec fn dir_models(v: Seq<SourceDir>) -> Seq<DirModel> {
    Seq::new(v.len(), |i: int| v[i]@)
}

/// The directories that are not looked into.
pub open spec fn skip_dirs() -> Seq<Seq<char>> {
    seq![
        ".git"@,
        "target"@,
        "build"@,
        "dist"@,
        ".tox"@,
        ".venv"@,
        "__pycache__"@,
        "logs"@,
        ".packfix"@,
    ]
}

fn is_skipped_dir(name: &str) -> (r: bool)
    ensures
        r == skip_dirs().contains(name@),
{
    let mut v: Vec<String> = Vec::new();
    push_line(&mut v, ".git".to_owned());
    push_line(&mut v, "target".to_owned());
    push_line(&mut v, "build".to_owned());
    push_line(&mut v, "dist".to_owned());
    push_line(&mut v, ".tox".to_owned());
    push_line(&mut v, ".venv".to_owned());
    push_line(&mut v, "__pycache__".to_owned());
    push_line(&mut v, "logs".to_owned());
    push_line(&mut v, ".packfix".to_owned());
    assert(text::texts(v@) =~= skip_dirs());
    has_text(&v, name)
}

pub open spec fn is_hidden(name: Seq<char>) -> bool {
    text::starts_with(name, "."@) || text::starts_with(name, "_"@)
}

/// A directory that is looked into: at most two names deep, with none on the way that is hidden or
/// not looked into.
pub open spec fn is_searched(path: Seq<Seq<char>>) -> bool {
    &&& path.len() <= 2
    &&& forall|i: int|
        0 <= i < path.len() ==> !is_hidden(#[trigger] path[i]) && !skip_dirs().contains(path[i])
}

/// A directory that is looked at: one that is not hidden, in a directory that is looked into.
pub open spec fn is_seen(path: Seq<Seq<char>>) -> bool {
    path.len() > 0 && is_searched(path.drop_last()) && !is_hidden(path.last())
}

/// A module that is worth telling of.
pub open spec fn is_core(module: Seq<char>) -> bool {
    module.len() > 0 && !text::starts_with(module, "test"@) && !text::contains(module, ".test"@)
        && module != "docs"@ && module != "examples"@
}

/// The module of a directory that is looked at, where it is one worth telling of.
pub open spec fn core_module(dir: DirModel) -> Option<Seq<char>> {
    let module = pieces::join(dir.path, "."@);
    if dir.is_package && is_seen(dir.path) && is_core(module) {
        Some(module)
    } else {
        None
    }
}

pub open spec fn core_modules(dirs: Seq<DirModel>) -> Seq<Seq<char>>
    decreases dirs.len(),
{
    if dirs.len() == 0 {
        seq![]
    } else {
        let before = core_modules(dirs.drop_last());
        match core_module(dirs.last()) {
            Some(module) => pieces::sorted_insert(before, module),
            None => before,
        }
    }
}

/// Whether the first `n` names of a path are those of a directory that is looked into.
fn is_searched_up_to(path: &[String], n: usize) -> (r: bool)
    requires
        n <= path@.len(),
    ensures
        r == is_searched(text::texts(path@).take(n as int)),
{
    let ghost p = text::texts(path@).take(n as int);
    if n > 2 {
        return false;
    }
    let mut i: usize = 0;
    while i < n
        invariant
            i <= n <= path@.len(),
            p == text::texts(path@).take(n as int),
            forall|k: int|
                0 <= k < i ==> !is_hidden(#[trigger] p[k]) && !skip_dirs().contains(p[k]),
        decreases n - i,
    {
        let name = path[i].as_str();
        assert(p[i as int] == name@);
        if has_prefix(name, ".") || has_prefix(name, "_") || is_skipped_dir(name) {
            return false;
        }
        i += 1;
    }
    true
}

/// Whether the directory at a path below the sources is looked into.
pub fn is_searched_path(path: &[String]) -> (r: bool)
    ensures
        r == is_searched(text::texts(path@)),
{
    assert(text::texts(path@).take(path@.len() as int) =~= text::texts(path@));
    is_searched_up_to(path, path.len())
}

fn is_seen_path(path: &[String]) -> (r: bool)
    ensures
        r == is_seen(text::texts(path@)),
{
    if path.len() == 0 {
        return false;
    }
    let n: usize = path.len() - 1;
    let name = path[n].as_str();
    assert(text::texts(path@).drop_last() =~= text::texts(path@).take(n as int));
    assert(text::texts(path@).last() == name@);
    !has_prefix(name, ".") && !has_prefix(name, "_") && is_searched_up_to(path, n)
}

/// The modules of a source tree that are worth telling of, in order.
pub fn collect_core_modules(dirs: &[SourceDir]) -> (r: Vec<String>)
    ensures
        text::texts(r@) == core_modules(dir_models(dirs@)),
{
    let ghost all = dir_models(dirs@);
    let mut modules: Vec<String> = Vec::new();
    let mut i: usize = 0;
    assert(text::texts(modules@) =~= core_modules(all.take(0)));
    while i < dirs.len()
        invariant
            i <= dirs@.len(),
            all == dir_models(dirs@),
            text::texts(modules@) == core_modules(all.take(i as int)),
        decreases dirs@.len() - i,
    {
        let dir = &dirs[i];
        assert(all[i as int] == dir@);
        assert(all.take(i + 1).drop_last() =~= all.take(i as int));
        assert(all.take(i + 1).last() == dir@);
        if dir.is_package && is_seen_path(&dir.path) {
            let module = joined(&dir.path, ".");
            if !is_empty(module.as_str()) && !has_prefix(module.as_str(), "test") && !holds(
                module.as_str(),
                ".test",
            ) && !same(module.as_str(), "docs") && !same(module.as_str(), "examples") {
                insert_sorted(&mut modules, module.as_str());
            }
        }
        i += 1;
    }
    assert(all.take(all.len() as int) =~= all);
    modules
}

/// The files at the top of a source tree that could be read as text.
#[derive(Debug, Clone)]
pub struct TopLevelFiles {
    pub pkg_info: Option<String>,
    pub metadata: Option<String>,
    pub pyproject_toml: Option<String>,
    pub setup_cfg: Option<String>,
    pub setup_py: Option<String>,
    pub readme_md: Option<String>,
    pub readme_rst: Option<String>,
    pub readme_txt: Option<String>,
    pub readme: Option<String>,
}

/// What the files say of a package: its own metadata first, then its project files.
pub open spec fn metadata_of(files: TopLevelFiles) -> MetaModel {
    let own = match text::or_else(text::opt_text(files.pkg_info), text::opt_text(files.metadata)) {
        Some(s) => with_headers(no_metadata(), pieces::lines(s)),
        None => no_metadata(),
    };
    let project = match text::opt_text(files.pyproject_toml) {
        Some(s) => with_section(own, pieces::lines(s), "[project]"@, true),
        None => own,
    };
    match text::opt_text(files.setup_cfg) {
        Some(s) => with_section(project, pieces::lines(s), "[metadata]"@, false),
        None => project,
    }
}

/// The README that is there, the better known names first.
pub open spec fn readme_of(files: TopLevelFiles) -> Seq<char> {
    match text::or_else(
        text::or_else(text::opt_text(files.readme_md), text::opt_text(files.readme_rst)),
        text::or_else(text::opt_text(files.readme_txt), text::opt_text(files.readme)),
    ) {
        Some(s) => excerpt(s),
        None => seq![],
    }
}

/// How much of a project file is kept.
pub const SOURCE_MAX: usize = 3000;

pub open spec fn source_of(file: Option<String>) -> Option<Seq<char>> {
    match text::opt_text(file) {
        Some(s) => Some(pieces::cap(s, SOURCE_MAX as int)),
        None => None,
    }
}

fn capped_source(file: &Option<String>) -> (r: Option<String>)
    ensures
        text::opt_text(r) == source_of(*file),
{
    match file {
        Some(s) => Some(capped(s.as_str(), SOURCE_MAX)),
        None => None,
    }
}

fn first_file(a: &Option<String>, b: &Option<String>) -> (r: Option<String>)
    ensures
        text::opt_text(r) == text::or_else(text::opt_text(*a), text::opt_text(*b)),
{
    match a {
        Some(s) => Some(s.clone()),
        None => copy_opt(b),
    }
}

/// Collects what a language model is told about a package.
pub fn collect_description_input(files: &TopLevelFiles, dirs: &[SourceDir]) -> (r: DescriptionInput)
    ensures
        r.metadata@ == metadata_of(*files),
        text::texts(r.core_modules@) == core_modules(dir_models(dirs@)),
        text::opt_text(r.sources.pyproject_toml) == source_of(files.pyproject_toml),
        text::opt_text(r.sources.setup_cfg) == source_of(files.setup_cfg),
        text::opt_text(r.sources.setup_py) == source_of(files.setup_py),
        r.readme_excerpt@ == readme_of(*files),
{
    let mut metadata = PackageMetadata::default();
    if let Some(text) = first_file(&files.pkg_info, &files.metadata) {
        parse_email_metadata(text.as_str(), &mut metadata);
    }
    if let Some(text) = &files.pyproject_toml {
        parse_pyproject_toml(text.as_str(), &mut metadata);
    }
    if let Some(text) = &files.setup_cfg {
        parse_setup_cfg(text.as_str(), &mut metadata);
    }
    let readme = first_file(
        &first_file(&files.readme_md, &files.readme_rst),
        &first_file(&files.readme_txt, &files.readme),
    );
    let readme_excerpt = match readme {
        Some(text) => excerpt_readme(text.as_str()),
        None => String::new(),
    };
    DescriptionInput {
        metadata,
        core_modules: collect_core_modules(dirs),
        sources: SourceFiles {
            pyproject_toml: capped_source(&files.pyproject_toml),
            setup_cfg: capped_source(&files.setup_cfg),
            setup_py: capped_source(&files.setup_py),
        },
        readme_excerpt,
    }
}

/// What is told, as far as it goes: the start of its JSON form.
pub fn build_json_context(json: &str, max_chars: usize) -> (r: String)
    ensures
        r@ == pieces::cap(json@, max_chars as int),
{
    capped(json, max_chars)
}

/// The prompt with what is told in its place.
pub fn build_user_prompt(template: &str, context_json: &str) -> (r: String)
    ensures
        r@ == pieces::replace(template@, "{context}"@, context_json@),
{
    proof {
        reveal_strlit("{context}");
    }
    replaced(template, "{context}", context_json)
}

/// The prompt for a description, unless there is nothing to tell.
pub fn description_prompt(json: &str, max_chars: usize, template: &str) -> (r: Option<String>)
    ensures
        ({
            let context = pieces::cap(json@, max_chars as int);
            text::opt_text(r) == if text::trim(context).len() == 0 || context == "{}"@ {
                None
            } else {
                Some(pieces::replace(template@, "{context}"@, context))
            }
        }),
{
    let context = build_json_context(json, max_chars);
    if is_empty(trimmed(context.as_str()).as_str()) || same(context.as_str(), "{}") {
        return None;
    }
    Some(build_user_prompt(template, context.as_str()))
}

/// The address of the model without the paths of its interface.
pub open spec fn base_host(host: Seq<char>) -> Seq<char> {
    let s = text::trim_end_char(host, '/');
    match text::strip_suffix(s, "/api/chat"@) {
        Some(base) => base,
        None => match text::strip_suffix(s, "/api/generate"@) {
            Some(base) => base,
            None => host,
        },
    }
}

pub fn normalize_ollama_host(host: &str) -> (r: String)
    ensures
        r@ == base_host(host@),
{
    let s = trimmed_end_char(host, '/');
    if let Some(base) = without_suffix(s.as_str(), "/api/chat") {
        return base;
    }
    if let Some(base) = without_suffix(s.as_str(), "/api/generate") {
        return base;
    }
    host.to_owned()
}

/// An address without its scheme.
pub open spec fn without_scheme(host: Seq<char>) -> Seq<char> {
    match text::strip_prefix(host, "http://"@) {
        Some(rest) => rest,
        None => match text::strip_prefix(host, "https://"@) {
            Some(rest) => rest,
            None => host,
        },
    }
}

/// The name by which the model is looked for.
pub fn plain_host(host: &str) -> (r: String)
    ensures
        r@ == without_scheme(host@),
{
    if let Some(rest) = without_prefix(host, "http://") {
        return rest;
    }
    if let Some(rest) = without_prefix(host, "https://") {
        return rest;
    }
    host.to_owned()
}

/// How long a line of a description may be.
pub const MAX_LINE: usize = 100;

/// How many lines a description may have.
pub const MAX_LINES: usize = 5;

/// Where a line that is too long is broken: at the last space that leaves enough before it, else
/// where it has to be.
pub open spec fn break_at(s: Seq<char>) -> int {
    let k = text::last_index_of(s.take(MAX_LINE as int), ' ', MAX_LINE as int);
    if k > 40 {
        k
    } else {
        MAX_LINE as int
    }
}

/// A line broken into lines that are not too long.
pub open spec fn wrapped(s: Seq<char>) -> Seq<Seq<char>>
    decreases s.len(),
{
    if s.len() == 0 {
        seq![]
    } else if s.len() <= MAX_LINE {
        seq![s]
    } else {
        let at = break_at(s);
        let rest = text::trim_start(s.skip(at));
        if rest.len() < s.len() {
            seq![text::trim_end(s.take(at))] + wrapped(rest)
        } else {
            seq![]
        }
    }
}

/// A line of an answer that is no part of a description.
pub open spec fn is_noise(line: Seq<char>) -> bool {
    line.len() == 0 || text::starts_with(line, "#"@) || text::starts_with(line, ">"@)
        || text::starts_with(line, "```"@) || text::contains(line, "%description"@)
}

/// All lines that an answer gives for a description.
pub open spec fn description_lines(lines: Seq<Seq<char>>) -> Seq<Seq<char>>
    decreases lines.len(),
{
    if lines.len() == 0 {
        seq![]
    } else {
        let before = description_lines(lines.drop_last());
        let line = text::trim(lines.last());
        if is_noise(line) {
            before
        } else {
            before + wrapped(line)
        }
    }
}

/// The lines of the description that is taken from an answer.
pub open spec fn kept_lines(raw: Seq<char>) -> Seq<Seq<char>> {
    let v = description_lines(pieces::lines(raw));
    if v.len() <= MAX_LINES {
        v
    } else {
        v.take(MAX_LINES as int)
    }
}

proof fn lemma_break_at(s: Seq<char>)
    requires
        s.len() > MAX_LINE,
    ensures
        40 < break_at(s) <= MAX_LINE,
        text::trim_start(s.skip(break_at(s))).len() < s.len(),
{
    text::lemma_last_index_of(s.take(MAX_LINE as int), ' ', MAX_LINE as int);
    line_laws::lemma_trim_start(s.skip(break_at(s)));
}

fn wrap_line(line: &str) -> (r: Vec<String>)
    ensures
        text::texts(r@) == wrapped(line@),
{
    let mut out: Vec<String> = Vec::new();
    let mut remaining = line.to_owned();
    assert(text::texts(out@) + wrapped(line@) =~= wrapped(line@));
    loop
        invariant
            text::texts(out@) + wrapped(remaining@) == wrapped(line@),
        decreases remaining@.len(),
    {
        let v = chars_of(remaining.as_str());
        if v.len() == 0 {
            assert(text::texts(out@) + wrapped(remaining@) =~= text::texts(out@));
            return out;
        }
        let ghost before = text::texts(out@);
        if v.len() <= MAX_LINE {
            push_line(&mut out, remaining);
            assert(text::texts(out@) =~= before + wrapped(remaining@));
            return out;
        }
        proof {
            lemma_break_at(v@);
        }
        let head = string_of(&v, 0, MAX_LINE);
        assert(head@ =~= v@.take(MAX_LINE as int));
        let head_chars = chars_of(head.as_str());
        let place: usize = last_index_of_at(&head_chars, ' ');
        let at: usize = if place > 41 {
            place - 1
        } else {
            MAX_LINE
        };
        assert(at == break_at(v@));
        let front = string_of(&v, 0, at);
        let back = string_of(&v, at, v.len());
        assert(front@ =~= v@.take(at as int));
        assert(back@ =~= v@.skip(at as int));
        push_line(&mut out, trimmed_end(front.as_str()));
        let rest = trimmed_start(back.as_str());
        assert(text::texts(out@) + wrapped(rest@) =~= before + wrapped(remaining@));
        remaining = rest;
    }
}

fn noise(line: &str) -> (r: bool)
    ensures
        r == is_noise(line@),
{
    is_empty(line) || has_prefix(line, "#") || has_prefix(line, ">") || has_prefix(line, "```")
        || holds(line, "%description")
}

/// The description that is taken from an answer: a few short lines, with nothing marked up.
pub fn format_spec_description(raw: &str) -> (r: String)
    ensures
        r@ == pieces::join(kept_lines(raw@), "\n"@),
{
    let lines = lines_of(raw);
    let ghost all = text::texts(lines@);
    let mut out: Vec<String> = Vec::new();
    let mut i: usize = 0;
    assert(text::texts(out@) =~= description_lines(all.take(0)));
    while i < lines.len()
        invariant
            i <= lines@.len(),
            all == text::texts(lines@),
            text::texts(out@) == description_lines(all.take(i as int)),
        decreases lines@.len() - i,
    {
        let line = trimmed(lines[i].as_str());
        assert(all[i as int] == lines@[i as int]@);
        assert(all.take(i + 1).drop_last() =~= all.take(i as int));
        assert(all.take(i + 1).last() == all[i as int]);
        if !noise(line.as_str()) {
            let parts = wrap_line(line.as_str());
            let ghost before = text::texts(out@);
            let ghost more = text::texts(parts@);
            let mut k: usize = 0;
            assert(before =~= before + more.take(0));
            while k < parts.len()
                invariant
                    k <= parts@.len(),
                    more == text::texts(parts@),
                    text::texts(out@) == before + more.take(k as int),
                decreases parts@.len() - k,
            {
                push_line(&mut out, parts[k].clone());
                k += 1;
                assert(text::texts(out@) =~= before + more.take(k as int));
            }
            assert(more.take(more.len() as int) =~= more);
        }
        i += 1;
    }
    assert(all.take(all.len() as int) =~= all);
    let ghost whole = text::texts(out@);
    if out.len() > MAX_LINES {
        out.truncate(MAX_LINES);
        assert(text::texts(out@) =~= whole.take(MAX_LINES as int));
    }
    joined(&out, "\n")
}

/// A line as it stands in a description: not empty, not too long, and with no line feed in it and
/// no white space at its end.
pub open spec fn is_description_line(s: Seq<char>) -> bool {
    0 < s.len() <= MAX_LINE && !s.contains('\n') && !text::is_white(s.last())
}

proof fn lemma_wrapped(s: Seq<char>, k: int)
    requires
        line_laws::is_trimmed(s),
        !s.contains('\n'),
        0 <= k < wrapped(s).len(),
    ensures
        is_description_line(wrapped(s)[k]),
    decreases s.len(),
{
    if s.len() > MAX_LINE {
        lemma_break_at(s);
        let at = break_at(s);
        let front = s.take(at);
        let back = s.skip(at);
        let head = text::trim_end(front);
        let rest = text::trim_start(back);
        line_laws::lemma_trim_end(front);
        line_laws::lemma_trim_start(back);
        if k == 0 {
            if head.len() == 0 {
                assert(text::is_white(front[0]));
                assert(front[0] == s[0]);
            }
            assert forall|j: int| 0 <= j < head.len() implies head[j] != '\n' by {
                assert(head[j] == s[j]);
                assert(s.contains(s[j]));
            }
        } else {
            let gap = s.len() - rest.len();
            assert forall|j: int| 0 <= j < rest.len() implies rest[j] != '\n' by {
                assert(rest[j] == s[gap + j]);
                assert(s.contains(s[gap + j]));
            }
            if rest.len() > 0 {
                assert(rest.last() == s.last());
            }
            lemma_wrapped(rest, k - 1);
        }
    }
}

proof fn lemma_description_lines(lines: Seq<Seq<char>>, k: int)
    requires
        line_laws::one_line_each(lines),
        0 <= k < description_lines(lines).len(),
    ensures
        is_description_line(description_lines(lines)[k]),
    decreases lines.len(),
{
    let front = lines.drop_last();
    let before = description_lines(front);
    let line = text::trim(lines.last());
    assert forall|i: int| 0 <= i < front.len() implies !(#[trigger] front[i]).contains('\n') by {
        assert(front[i] == lines[i]);
    }
    if k < before.len() {
        lemma_description_lines(front, k);
    } else {
        line_laws::lemma_trim(lines.last());
        let started = text::trim_start(lines.last());
        line_laws::lemma_trim_start(lines.last());
        line_laws::lemma_trim_end(started);
        let gap = lines.last().len() - started.len();
        assert(!lines[lines.len() - 1].contains('\n'));
        assert forall|j: int| 0 <= j < line.len() implies line[j] != '\n' by {
            assert(line[j] == started[j]);
            assert(started[j] == lines.last()[gap + j]);
            assert(lines.last().contains(lines.last()[gap + j]));
        }
        lemma_wrapped(line, k - before.len());
    }
}

/// A description has at most five lines, none of them longer than 100 characters and none empty.
pub proof fn law_description_is_short(raw: Seq<char>)
    ensures
        kept_lines(raw).len() <= 5,
        forall|k: int|
            0 <= k < kept_lines(raw).len() ==> 0 < (#[trigger] kept_lines(raw)[k]).len() <= 100,
        pieces::lines(pieces::join(kept_lines(raw), "\n"@)) == kept_lines(raw),
{
    let v = kept_lines(raw);
    line_laws::lemma_lines_hold_no_line_feed(raw, 0);
    assert forall|k: int| 0 <= k < v.len() implies is_description_line(#[trigger] v[k]) by {
        assert(v[k] == description_lines(pieces::lines(raw))[k]);
        lemma_description_lines(pieces::lines(raw), k);
    }
    lemma_lines_read_back(v);
}

proof fn lemma_lines_read_back(v: Seq<Seq<char>>)
    requires
        forall|k: int| 0 <= k < v.len() ==> is_description_line(#[trigger] v[k]),
    ensures
        pieces::lines(pieces::join(v, "\n"@)) == v,
    decreases v.len(),
{
    if v.len() == 0 {
        assert(pieces::lines(pieces::join(v, "\n"@)) =~= v);
    } else if v.len() == 1 {
        assert(pieces::join(v, "\n"@) == v[0]);
        line_laws::lemma_lines_single(v[0]);
        assert(seq![v[0]] =~= v);
    } else {
        let rest = v.drop_first();
        assert forall|k: int| 0 <= k < rest.len() implies is_description_line(
            #[trigger] rest[k],
        ) by {
            assert(rest[k] == v[k + 1]);
        }
        lemma_lines_read_back(rest);
        line_laws::lemma_join_cons(v, "\n"@);
        line_laws::lemma_lines_cons(v[0], pieces::join(rest, "\n"@));
        assert(pieces::strip_cr(v[0]) == v[0]);
        assert(seq![v[0]] + rest =~= v);
    }
}

/// A README excerpt is short.
pub proof fn law_excerpt_is_short(s: Seq<char>)
    ensures
        excerpt(s).len() <= 2500,
{
}

} // verus!
