//! Laws of the module that the sources of a package install.
use vstd::prelude::*;

use crate::outside;
use crate::pieces;
use crate::set_laws;
use crate::target_laws;
use crate::text;
use crate::upstream;
use crate::upstream::SourceTree;

verus! {

/// `s` with `b` in place of each `a`.
pub open spec fn with_char(s: Seq<char>, a: char, b: char) -> Seq<char> {
    Seq::new(
        s.len(),
        |i: int|
            if s[i] == a {
                b
            } else {
                s[i]
            },
    )
}

proof fn lemma_replace_char_from(s: Seq<char>, a: char, b: char, i: int)
    requires
        0 <= i <= s.len(),
    ensures
        pieces::replace_from(s, seq![a], seq![b], i) == with_char(s, a, b).skip(i),
    decreases s.len() - i,
{
    text::lemma_find(s, seq![a], i);
    let t = with_char(s, a, b);
    match text::find_from(s, seq![a], i) {
        Some(k) => {
            assert(s.subrange(k, k + 1)[0] == s[k]);
            assert forall|j: int| i <= j < k implies #[trigger] s[j] != a by {
                if s[j] == a {
                    assert(s.subrange(j, j + 1) =~= seq![a]);
                    assert(text::occurs_at(s, seq![a], j));
                }
            }
            lemma_replace_char_from(s, a, b, k + 1);
            assert(s.subrange(i, k) + seq![b] + t.skip(k + 1) =~= t.skip(i));
        },
        None => {
            assert forall|j: int| i <= j < s.len() implies #[trigger] s[j] != a by {
                if s[j] == a {
                    assert(s.subrange(j, j + 1) =~= seq![a]);
                    assert(text::occurs_at(s, seq![a], j));
                }
            }
            assert(s.skip(i) =~= t.skip(i));
        },
    }
}

/// Replacing one character by another changes each of them, and nothing else.
pub proof fn law_characters_are_replaced(s: Seq<char>, a: char, b: char)
    ensures
        pieces::replace(s, seq![a], seq![b]) == with_char(s, a, b),
{
    lemma_replace_char_from(s, a, b, 0);
    assert(with_char(s, a, b).skip(0) =~= with_char(s, a, b));
}

/// The name that is looked for: that of the project, with underscores for hyphens.
pub open spec fn looked_for(wrong: Seq<char>) -> Seq<char> {
    with_char(text::trim(wrong), '-', '_')
}

proof fn lemma_looked_for(wrong: Seq<char>)
    ensures
        upstream::plain_name(wrong) == looked_for(wrong),
{
    reveal_strlit("-");
    reveal_strlit("_");
    assert("-"@ =~= seq!['-']);
    assert("_"@ =~= seq!['_']);
    law_characters_are_replaced(text::trim(wrong), '-', '_');
}

/// A module fits the name that is looked for: it is the name, or what stands before its first
/// underscore.
pub open spec fn fits_name(top: Seq<char>, name: Seq<char>) -> bool {
    ||| top == name
    ||| !top.contains('_') && text::starts_with(name, top + "_"@)
}

/// A module fits, be it in upper or lower case.
pub open spec fn fits(top: Seq<char>, wrong: Seq<char>) -> bool {
    ||| fits_name(top, looked_for(wrong))
    ||| fits_name(outside::lowercase(top), outside::lowercase(looked_for(wrong)))
}

proof fn lemma_first_field(name: Seq<char>, top: Seq<char>)
    ensures
        fits_name(top, name) <==> (name == top || upstream::first_field(name, '_') == top),
{
    reveal_strlit("_");
    let k = text::index_of(name, '_', 0);
    text::lemma_index_of(name, '_', 0);
    let f = upstream::first_field(name, '_');
    if f == top && name != top {
        assert(k < name.len()) by {
            if k == name.len() {
                assert(name.take(k) =~= name);
            }
        }
        assert(!top.contains('_')) by {
            if top.contains('_') {
                let j = top.index_of('_');
                assert(name[j] == '_');
            }
        }
        assert(name.subrange(0, k + 1) =~= top + "_"@);
    }
    if !top.contains('_') && text::starts_with(name, top + "_"@) {
        let n = top.len() as int;
        let head = name.subrange(0, n + 1);
        assert(head == top + "_"@);
        assert forall|j: int| 0 <= j < n implies #[trigger] name[j] != '_' by {
            assert(head[j] == top[j]);
            assert(top.contains(top[j]));
        }
        assert(head[n] == '_');
        target_laws::lemma_index_is(name, '_', 0, n);
        assert(name.take(n) =~= top) by {
            assert forall|j: int| 0 <= j < n implies name[j] == top[j] by {
                assert(head[j] == top[j]);
            }
        }
    }
}

proof fn lemma_fits(top: Seq<char>, wrong: Seq<char>)
    ensures
        upstream::matches_wrong(top, wrong) <==> fits(top, wrong),
{
    lemma_looked_for(wrong);
    lemma_first_field(looked_for(wrong), top);
    lemma_first_field(outside::lowercase(looked_for(wrong)), outside::lowercase(top));
}

proof fn lemma_matching_from(v: Seq<Seq<char>>, wrong: Seq<char>, i: int)
    requires
        0 <= i <= v.len(),
    ensures
        match upstream::matching_from(v, wrong, i) {
            Some(m) => exists|k: int|
                i <= k < v.len() && #[trigger] v[k] == m && fits(m, wrong) && forall|j: int|
                    i <= j < k ==> !fits(#[trigger] v[j], wrong),
            None => forall|k: int| i <= k < v.len() ==> !fits(#[trigger] v[k], wrong),
        },
    decreases v.len() - i,
{
    if i < v.len() {
        lemma_fits(v[i], wrong);
        if upstream::matches_wrong(v[i], wrong) {
            assert(v[i] == v[i]);
        } else {
            lemma_matching_from(v, wrong, i + 1);
            if let Some(m) = upstream::matching_from(v, wrong, i + 1) {
                let k = choose|k: int|
                    i + 1 <= k < v.len() && #[trigger] v[k] == m && fits(m, wrong) && forall|
                        j: int,
                    |
                        i + 1 <= j < k ==> !fits(#[trigger] v[j], wrong);
                assert forall|j: int| i <= j < k implies !fits(#[trigger] v[j], wrong) by {
                    if j > i {
                        assert(!fits(v[j], wrong));
                    }
                }
                assert(v[k] == m);
            }
        }
    }
}

/// A module that fits is installed where the sources name one: the first of those that they name.
pub proof fn law_fitting_module_is_installed(v: Seq<Seq<char>>, wrong: Seq<char>, k: int)
    requires
        0 <= k < v.len(),
        fits(v[k], wrong),
        forall|j: int| 0 <= j < k ==> !fits(#[trigger] v[j], wrong),
    ensures
        upstream::top_level_choice(v, wrong) == Some(v[k]),
{
    lemma_matching_from(v, wrong, 0);
    assert(upstream::matching_from(v, wrong, 0) is Some);
    let m = upstream::matching_from(v, wrong, 0)->0;
    let i = choose|i: int|
        0 <= i < v.len() && #[trigger] v[i] == m && fits(m, wrong) && forall|j: int|
            0 <= j < i ==> !fits(#[trigger] v[j], wrong);
    if i < k {
        assert(!fits(v[i], wrong));
    }
    if k < i {
        assert(!fits(v[k], wrong));
    }
}

/// A module that goes along with another.
pub open spec fn is_helper(module: Seq<char>) -> bool {
    let lower = outside::lowercase(text::trim(module));
    lower == "example"@ || lower == "examples"@ || lower == "test"@ || lower == "tests"@
}

/// A module has the name that was looked for, be it in upper or lower case.
pub open spec fn is_same_name(module: Seq<char>, wrong: Seq<char>) -> bool {
    outside::lowercase(looked_for(module)) == outside::lowercase(looked_for(wrong))
}

proof fn lemma_other_from(v: Seq<Seq<char>>, wrong: Seq<char>, primary: bool, i: int)
    requires
        0 <= i <= v.len(),
    ensures
        match upstream::other_from(v, wrong, primary, i) {
            Some(m) => v.contains(m) && !is_same_name(m, wrong) && !(primary && is_helper(m)),
            None => forall|k: int|
                i <= k < v.len() ==> is_same_name(#[trigger] v[k], wrong) || (primary && is_helper(
                    v[k],
                )),
        },
    decreases v.len() - i,
{
    if i < v.len() {
        lemma_looked_for(v[i]);
        lemma_looked_for(wrong);
        assert(v.contains(v[i]));
        lemma_other_from(v, wrong, primary, i + 1);
    }
}

/// Where none of the modules that the sources name fits, one of them is installed all the same:
/// rather one with another name than one with that name, and of those rather one that is neither an
/// example nor a test.
pub proof fn law_some_module_is_installed(v: Seq<Seq<char>>, wrong: Seq<char>)
    requires
        v.len() > 0,
    ensures
        ({
            let chosen = upstream::top_level_choice(v, wrong);
            &&& chosen is Some
            &&& v.contains(chosen->0)
            &&& fits(chosen->0, wrong) || forall|k: int|
                0 <= k < v.len() ==> !fits(#[trigger] v[k], wrong)
            &&& fits(chosen->0, wrong) || !is_same_name(chosen->0, wrong) || forall|k: int|
                0 <= k < v.len() ==> is_same_name(#[trigger] v[k], wrong)
            &&& fits(chosen->0, wrong) || !is_helper(chosen->0) || forall|k: int|
                0 <= k < v.len() ==> is_same_name(#[trigger] v[k], wrong) || is_helper(v[k])
        }),
{
    lemma_matching_from(v, wrong, 0);
    lemma_other_from(v, wrong, true, 0);
    lemma_other_from(v, wrong, false, 0);
    assert(v.contains(v[0]));
}

/// Without modules there is nothing to choose.
pub proof fn law_no_module_no_choice(wrong: Seq<char>)
    ensures
        upstream::top_level_choice(seq![], wrong) is None,
{
}

/// What a `top_level.txt` of an archive names goes before what the paths of the archive tell.
pub proof fn law_named_modules_go_first(
    top_levels: Seq<Seq<char>>,
    entries: Seq<Seq<char>>,
    wrong: Seq<char>,
)
    requires
        top_levels.len() > 0,
    ensures
        upstream::archive_choice(top_levels, entries, wrong) == upstream::top_level_choice(
            top_levels,
            wrong,
        ),
{
    law_some_module_is_installed(top_levels, wrong);
}

/// A directory name that tells of no module.
pub open spec fn is_no_module(name: Seq<char>) -> bool {
    let lower = outside::lowercase(name);
    ||| text::contains(lower, "test"@)
    ||| lower == "build"@
    ||| lower == "dist"@
    ||| lower == "examples"@
    ||| lower == "example"@
    ||| lower == "logs"@
    ||| text::ends_with(name, ".egg-info"@)
    ||| text::ends_with(name, ".dist-info"@)
}

/// A directory between the top of an archive and its modules.
pub open spec fn is_way(name: Seq<char>) -> bool {
    let lower = outside::lowercase(name);
    ||| lower == "src"@
    ||| lower == "lib"@
    ||| lower == "source"@
    ||| lower == "sources"@
    ||| text::starts_with(name, "."@)
}

/// The name of a directory in an archive.
pub open spec fn is_dir_name(name: Seq<char>) -> bool {
    name.len() > 0 && !name.contains('/')
}

proof fn lemma_module_part(parts: Seq<Seq<char>>, n: int, m: int, i: int)
    requires
        0 <= i <= m < n,
        forall|k: int| i <= k < m ==> is_way(#[trigger] parts[k]),
        !is_way(parts[m]),
    ensures
        upstream::module_part(parts, i, n) == Some(parts[m]),
    decreases m - i,
{
    if i < m {
        assert(is_way(parts[i]));
        lemma_module_part(parts, n, m, i + 1);
    }
}

/// The package that an archive holds below its topmost directory, and below directories that only
/// lead to it, is a module, unless its name tells that it is none.
pub proof fn law_package_in_archive_is_a_module(
    top: Seq<char>,
    ways: Seq<Seq<char>>,
    module: Seq<char>,
    below: Seq<Seq<char>>,
)
    requires
        is_dir_name(top),
        forall|k: int| 0 <= k < ways.len() ==> is_dir_name(#[trigger] ways[k]) && is_way(ways[k]),
        is_dir_name(module),
        !is_way(module),
        forall|k: int| 0 <= k < below.len() ==> is_dir_name(#[trigger] below[k]),
    ensures
        ({
            let parts = seq![top] + ways + seq![module] + below + seq!["__init__.py"@];
            upstream::package_module(pieces::join(parts, "/"@)) == if is_no_module(module) {
                None
            } else {
                Some(module)
            }
        }),
{
    reveal_strlit("__init__.py");
    reveal_strlit("/__init__.py");
    reveal_strlit("/");
    let last = "__init__.py"@;
    let parts = seq![top] + ways + seq![module] + below + seq![last];
    let entry = pieces::join(parts, "/"@);
    assert("/"@ =~= seq!['/']);
    assert forall|k: int| 0 <= k < parts.len() implies !(#[trigger] parts[k]).contains('/') by {
        if k == 0 {
            assert(parts[k] == top);
        } else if k <= ways.len() {
            assert(parts[k] == ways[k - 1]);
        } else if k == ways.len() + 1 {
            assert(parts[k] == module);
        } else if k < parts.len() - 1 {
            assert(parts[k] == below[k - ways.len() - 2]);
        } else {
            assert(parts[k] == last);
        }
    }
    target_laws::lemma_split_join(parts, '/');
    lemma_join_start(parts, "/"@);
    assert(entry[0] == top[0]);
    assert(top.contains(top[0]));
    assert(text::same_end(entry, '/', 0) == 0);
    assert(entry.skip(0) =~= entry);
    let head = pieces::join(parts.drop_last(), "/"@);
    assert(entry == head + "/"@ + last);
    assert(entry.subrange(head.len() as int, entry.len() as int) =~= "/__init__.py"@);
    assert(entry.len() - "/__init__.py"@.len() == head.len());
    let m = ways.len() as int + 1;
    assert forall|k: int| 1 <= k < m implies is_way(#[trigger] parts[k]) by {
        assert(parts[k] == ways[k - 1]);
    }
    assert(parts[m] == module);
    lemma_module_part(parts, parts.len() - 1, m, 1);
}

proof fn lemma_join_start(v: Seq<Seq<char>>, sep: Seq<char>)
    requires
        v.len() > 0,
        v[0].len() > 0,
    ensures
        pieces::join(v, sep).len() >= v[0].len(),
        pieces::join(v, sep)[0] == v[0][0],
    decreases v.len(),
{
    if v.len() > 1 {
        lemma_join_start(v.drop_last(), sep);
        assert(pieces::join(v, sep)[0] == pieces::join(v.drop_last(), sep)[0]);
    }
}

/// What a path that names no `__init__.py` tells of no package.
pub proof fn law_other_paths_tell_of_no_package(entry: Seq<char>)
    requires
        !text::ends_with(entry, "/__init__.py"@),
    ensures
        upstream::package_module(entry) is None,
{
    reveal_strlit("/__init__.py");
    let p = text::trim_start_char(entry, '/');
    let k = text::same_end(entry, '/', 0);
    lemma_same_end(entry, 0);
    if text::ends_with(p, "/__init__.py"@) {
        assert(entry.subrange(entry.len() - 12, entry.len() as int) =~= p.subrange(
            p.len() - 12,
            p.len() as int,
        ));
    }
}

proof fn lemma_same_end(s: Seq<char>, i: int)
    requires
        0 <= i <= s.len(),
    ensures
        i <= text::same_end(s, '/', i) <= s.len(),
    decreases s.len() - i,
{
    if i < s.len() && s[i] == '/' {
        lemma_same_end(s, i + 1);
    }
}

/// The packages of an archive are those that its paths tell of, in order and each once.
pub proof fn law_packages_of_archive(entries: Seq<Seq<char>>, name: Seq<char>)
    ensures
        pieces::ascending(upstream::package_modules(entries)),
        upstream::package_modules(entries).contains(name) <==> exists|i: int|
            0 <= i < entries.len() && upstream::package_module(#[trigger] entries[i]) == Some(name),
    decreases entries.len(),
{
    if entries.len() > 0 {
        let rest = entries.drop_last();
        let n = entries.len() - 1;
        law_packages_of_archive(rest, name);
        let before = upstream::package_modules(rest);
        if let Some(m) = upstream::package_module(entries[n]) {
            set_laws::law_sorted_insert(before, m);
        }
        if before.contains(name) {
            let i = choose|i: int|
                0 <= i < rest.len() && upstream::package_module(#[trigger] rest[i]) == Some(name);
            assert(entries[i] == rest[i]);
        }
        if exists|i: int|
            0 <= i < entries.len() && upstream::package_module(#[trigger] entries[i]) == Some(
                name,
            ) {
            let i = choose|i: int|
                0 <= i < entries.len() && upstream::package_module(#[trigger] entries[i]) == Some(
                    name,
                );
            if i < n {
                assert(rest[i] == entries[i]);
            }
        }
    }
}

/// The name of something in the topmost directory that tells of no module.
pub open spec fn is_passed_over(name: Seq<char>) -> bool {
    let lower = outside::lowercase(name);
    ||| is_no_module(name)
    ||| text::starts_with(name, "."@)
    ||| text::contains(lower, "doc"@)
}

/// A directory, or a Python file, that tells of the module `m`.
pub open spec fn tells_of(item: (Seq<char>, bool, bool), m: Seq<char>) -> bool {
    let (name, is_dir, is_file) = item;
    &&& !is_passed_over(name)
    &&& if is_dir {
        name == m
    } else {
        is_file && name == m + ".py"@
    }
}

/// The modules of a directory are its subdirectories and Python files but those that are passed
/// over, in order and each once.
pub proof fn law_modules_of_directory(items: Seq<(Seq<char>, bool, bool)>, m: Seq<char>)
    ensures
        pieces::ascending(upstream::dir_modules(items)),
        upstream::dir_modules(items).contains(m) <==> exists|i: int|
            0 <= i < items.len() && tells_of(#[trigger] items[i], m),
    decreases items.len(),
{
    if items.len() > 0 {
        let rest = items.drop_last();
        let n = items.len() - 1;
        law_modules_of_directory(rest, m);
        let before = upstream::dir_modules(rest);
        let (name, is_dir, is_file) = items[n];
        set_laws::law_sorted_insert(before, name);
        if let Some(stem) = text::strip_suffix(name, ".py"@) {
            set_laws::law_sorted_insert(before, stem);
        }
        lemma_python_file(name, m);
        if before.contains(m) {
            let i = choose|i: int| 0 <= i < rest.len() && tells_of(#[trigger] rest[i], m);
            assert(items[i] == rest[i]);
        }
        if exists|i: int| 0 <= i < items.len() && tells_of(#[trigger] items[i], m) {
            let i = choose|i: int| 0 <= i < items.len() && tells_of(#[trigger] items[i], m);
            if i < n {
                assert(rest[i] == items[i]);
            }
        }
    }
}

proof fn lemma_python_file(name: Seq<char>, m: Seq<char>)
    ensures
        text::strip_suffix(name, ".py"@) == Some(m) <==> name == m + ".py"@,
{
    reveal_strlit(".py");
    if name == m + ".py"@ {
        assert(name.subrange(m.len() as int, name.len() as int) =~= ".py"@);
        assert(name.take(m.len() as int) =~= m);
    }
    if text::strip_suffix(name, ".py"@) == Some(m) {
        assert(name =~= m + ".py"@);
    }
}

/// What a source tree names in its `top_level.txt` files is installed, whatever else it holds.
pub proof fn law_tree_goes_by_its_names(tree: SourceTree, wrong: Seq<char>)
    requires
        tree.top_level_texts is Ok,
        upstream::all_module_lines(text::texts(tree.top_level_texts->Ok_0@)).len() > 0,
    ensures
        upstream::search_tree(tree, wrong) == Ok::<Option<Seq<char>>, Seq<char>>(
            upstream::top_level_choice(
                upstream::all_module_lines(text::texts(tree.top_level_texts->Ok_0@)),
                wrong,
            ),
        ),
{
    law_some_module_is_installed(
        upstream::all_module_lines(text::texts(tree.top_level_texts->Ok_0@)),
        wrong,
    );
}

/// A tree that names nothing goes by its archives, and only where these tell nothing by its
/// topmost directory.
pub proof fn law_tree_goes_by_archives_then_directory(tree: SourceTree, wrong: Seq<char>)
    requires
        tree.top_level_texts is Ok,
        upstream::all_module_lines(text::texts(tree.top_level_texts->Ok_0@)).len() == 0,
        tree.archives is Ok,
        tree.first_level is Ok,
    ensures
        ({
            let archives = upstream::archive_models(tree.archives->Ok_0@);
            let packed = upstream::search_archives(archives, wrong, 0);
            let names = upstream::dir_modules(upstream::item_models(tree.first_level->Ok_0@));
            &&& packed is Err || packed->Ok_0 is Some ==> upstream::search_tree(tree, wrong)
                == packed
            &&& packed is Ok && packed->Ok_0 is None ==> upstream::search_tree(tree, wrong)
                == Ok::<Option<Seq<char>>, Seq<char>>(upstream::dir_choice(names, wrong))
        }),
{
    assert(upstream::all_module_lines(text::texts(tree.top_level_texts->Ok_0@)) =~= seq![]);
}

/// The module of a directory is the one that fits, and else one that is named otherwise.
pub proof fn law_module_of_directory_fits(names: Seq<Seq<char>>, wrong: Seq<char>)
    ensures
        ({
            let chosen = upstream::dir_choice(names, wrong);
            &&& chosen is Some ==> names.contains(chosen->0)
            &&& chosen is Some ==> fits(chosen->0, wrong) || forall|k: int|
                0 <= k < names.len() ==> !fits(#[trigger] names[k], wrong)
            &&& chosen is None ==> names.len() != 1 && forall|k: int|
                0 <= k < names.len() ==> !fits(#[trigger] names[k], wrong) && outside::lowercase(
                    names[k],
                ) == outside::lowercase(looked_for(wrong))
        }),
{
    lemma_matching_from(names, wrong, 0);
    lemma_looked_for(wrong);
    lemma_unlike_from(names, upstream::lower_name(wrong), 0);
    if names.len() == 1 {
        assert(names.contains(names[0]));
    }
}

proof fn lemma_unlike_from(v: Seq<Seq<char>>, lower: Seq<char>, i: int)
    requires
        0 <= i <= v.len(),
    ensures
        match upstream::unlike_from(v, lower, i) {
            Some(m) => v.contains(m) && outside::lowercase(m) != lower,
            None => forall|k: int|
                i <= k < v.len() ==> outside::lowercase(#[trigger] v[k]) == lower,
        },
    decreases v.len() - i,
{
    if i < v.len() {
        assert(v.contains(v[i]));
        lemma_unlike_from(v, lower, i + 1);
    }
}

} // verus!
