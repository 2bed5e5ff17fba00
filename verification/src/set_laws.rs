//! What holds of ordered sets of texts.
use vstd::prelude::*;

use crate::describe;
use crate::describe::DirModel;
use crate::pieces;
use crate::specfile;
use crate::text;

verus! {

/// Of two different texts exactly one comes first.
pub proof fn lemma_text_order_total(a: Seq<char>, b: Seq<char>)
    ensures
        a == b ==> !pieces::text_lt(a, b),
        a != b ==> pieces::text_lt(a, b) != pieces::text_lt(b, a),
    decreases a.len(),
{
    if a.len() > 0 && b.len() > 0 && a[0] == b[0] {
        lemma_text_order_total(a.drop_first(), b.drop_first());
        if a != b && a.drop_first() == b.drop_first() {
            assert(a =~= seq![a[0]] + a.drop_first());
            assert(b =~= seq![b[0]] + b.drop_first());
        }
    } else if a.len() == 0 && b.len() == 0 {
        assert(a =~= b);
    }
}

pub proof fn lemma_text_lt_transitive(a: Seq<char>, b: Seq<char>, c: Seq<char>)
    requires
        pieces::text_lt(a, b),
        pieces::text_lt(b, c),
    ensures
        pieces::text_lt(a, c),
    decreases a.len(),
{
    if a.len() > 0 && a[0] == b[0] && b[0] == c[0] {
        lemma_text_lt_transitive(a.drop_first(), b.drop_first(), c.drop_first());
    }
}

/// A set with a text more holds the texts of the set and that one.
pub proof fn lemma_sorted_insert_texts(set: Seq<Seq<char>>, s: Seq<char>)
    ensures
        forall|x: Seq<char>| #[trigger]
            pieces::sorted_insert(set, s).contains(x) <==> x == s || set.contains(x),
    decreases set.len(),
{
    let all = pieces::sorted_insert(set, s);
    if set.len() == 0 {
        assert(all[0] == s);
    } else if set.last() == s {
        assert(set[set.len() - 1] == s);
    } else {
        let rest = set.drop_last();
        assert forall|x: Seq<char>| #[trigger] set.contains(x) <==> x == set.last()
            || rest.contains(x) by {
            assert(set[set.len() - 1] == set.last());
            if set.contains(x) && x != set.last() {
                assert(rest[set.index_of(x)] == x);
            }
            if rest.contains(x) {
                assert(set[rest.index_of(x)] == x);
            }
        }
        if pieces::text_lt(set.last(), s) {
            lemma_push_texts(set, s);
        } else {
            lemma_sorted_insert_texts(rest, s);
            lemma_push_texts(pieces::sorted_insert(rest, s), set.last());
        }
    }
}

pub proof fn lemma_push_texts(v: Seq<Seq<char>>, s: Seq<char>)
    ensures
        forall|x: Seq<char>| #[trigger] v.push(s).contains(x) <==> x == s || v.contains(x),
{
    let all = v.push(s);
    assert(all[all.len() - 1] == s);
    assert forall|x: Seq<char>| #[trigger] all.contains(x) <==> x == s || v.contains(x) by {
        if all.contains(x) && x != s {
            assert(v[all.index_of(x)] == x);
        }
        if v.contains(x) {
            assert(all[v.index_of(x)] == x);
        }
    }
}

/// Putting a text in its place in an ordered set keeps the order, adds nothing but that text, and
/// makes the set longer only where the text is new.
pub proof fn law_sorted_insert(set: Seq<Seq<char>>, s: Seq<char>)
    requires
        pieces::ascending(set),
    ensures
        pieces::ascending(pieces::sorted_insert(set, s)),
        forall|x: Seq<char>| #[trigger]
            pieces::sorted_insert(set, s).contains(x) <==> x == s || set.contains(x),
        pieces::sorted_insert(set, s).len() == set.len() + if set.contains(s) {
            0int
        } else {
            1int
        },
    decreases set.len(),
{
    let all = pieces::sorted_insert(set, s);
    lemma_sorted_insert_texts(set, s);
    if set.len() == 0 {
    } else if set.last() == s {
        assert(set[set.len() - 1] == s);
    } else if pieces::text_lt(set.last(), s) {
        let last = set[set.len() - 1];
        assert forall|i: int| 0 <= i < set.len() implies pieces::text_lt(#[trigger] set[i], s) by {
            if i < set.len() - 1 {
                lemma_text_lt_transitive(set[i], last, s);
            }
        }
        if set.contains(s) {
            assert(pieces::text_lt(set[set.index_of(s)], s));
            lemma_text_order_total(s, s);
        }
        assert forall|i: int, j: int| 0 <= i < j < all.len() implies pieces::text_lt(
            #[trigger] all[i],
            #[trigger] all[j],
        ) by {
            assert(all[i] == set[i]);
            if j < set.len() {
                assert(all[j] == set[j]);
            }
        }
    } else {
        let rest = set.drop_last();
        let last = set[set.len() - 1];
        let before = pieces::sorted_insert(rest, s);
        assert forall|i: int, j: int| 0 <= i < j < rest.len() implies pieces::text_lt(
            #[trigger] rest[i],
            #[trigger] rest[j],
        ) by {
            assert(rest[i] == set[i] && rest[j] == set[j]);
        }
        law_sorted_insert(rest, s);
        lemma_text_order_total(last, s);
        assert forall|i: int| 0 <= i < before.len() implies pieces::text_lt(
            #[trigger] before[i],
            last,
        ) by {
            assert(before.contains(before[i]));
            if before[i] != s {
                let k = rest.index_of(before[i]);
                assert(set[k] == before[i]);
            }
        }
        assert forall|i: int, j: int| 0 <= i < j < all.len() implies pieces::text_lt(
            #[trigger] all[i],
            #[trigger] all[j],
        ) by {
            assert(all[i] == before[i]);
            if j < before.len() {
                assert(all[j] == before[j]);
            }
        }
        if set.contains(s) {
            assert(rest[set.index_of(s)] == s);
        } else if rest.contains(s) {
            assert(set[rest.index_of(s)] == s);
        }
    }
}

/// No text stands twice in an ordered set.
pub proof fn law_ascending_has_no_duplicates(v: Seq<Seq<char>>)
    requires
        pieces::ascending(v),
    ensures
        v.no_duplicates(),
{
    assert forall|i: int, j: int| 0 <= i < v.len() && 0 <= j < v.len() && i != j implies v[i]
        != v[j] by {
        lemma_text_order_total(v[i], v[j]);
        if i < j {
            assert(pieces::text_lt(v[i], v[j]));
        } else {
            assert(pieces::text_lt(v[j], v[i]));
        }
    }
}

/// Ordering the texts of a list gives each of them once, in order, and nothing else.
pub proof fn law_sorted_set(items: Seq<Seq<char>>)
    ensures
        pieces::ascending(pieces::sorted_set(items)),
        forall|x: Seq<char>| #[trigger]
            pieces::sorted_set(items).contains(x) <==> items.contains(x),
    decreases items.len(),
{
    if items.len() > 0 {
        law_sorted_set(items.drop_last());
        law_sorted_insert(pieces::sorted_set(items.drop_last()), items.last());
        lemma_push_texts(items.drop_last(), items.last());
        assert(items.drop_last().push(items.last()) =~= items);
    }
}

/// The entries of a file list are those of the absolute paths, each once and in order.
pub proof fn law_file_entries(files: Seq<Seq<char>>)
    ensures
        pieces::ascending(specfile::file_entries(files)),
        forall|e: Seq<char>| #[trigger]
            specfile::file_entries(files).contains(e) <==> exists|i: int|
                0 <= i < files.len() && text::starts_with(text::trim(#[trigger] files[i]), "/"@)
                    && specfile::path_macro(text::trim(files[i])) == e,
    decreases files.len(),
{
    if files.len() > 0 {
        let rest = files.drop_last();
        let file = text::trim(files.last());
        law_file_entries(rest);
        law_sorted_insert(specfile::file_entries(rest), specfile::path_macro(file));
        assert forall|e: Seq<char>| #[trigger]
            specfile::file_entries(files).contains(e) <==> exists|i: int|
                0 <= i < files.len() && text::starts_with(text::trim(#[trigger] files[i]), "/"@)
                    && specfile::path_macro(text::trim(files[i])) == e by {
            if specfile::file_entries(rest).contains(e) {
                let i = choose|i: int|
                    0 <= i < rest.len() && text::starts_with(text::trim(#[trigger] rest[i]), "/"@)
                        && specfile::path_macro(text::trim(rest[i])) == e;
                assert(files[i] == rest[i]);
            } else if exists|i: int|
                0 <= i < files.len() && text::starts_with(text::trim(#[trigger] files[i]), "/"@)
                    && specfile::path_macro(text::trim(files[i])) == e {
                let i = choose|i: int|
                    0 <= i < files.len() && text::starts_with(text::trim(#[trigger] files[i]), "/"@)
                        && specfile::path_macro(text::trim(files[i])) == e;
                if i < rest.len() {
                    assert(files[i] == rest[i]);
                }
            }
            assert(files[files.len() - 1] == files.last());
        }
    }
}

/// The modules worth telling of are those of the directories, each once and in order.
pub proof fn law_core_modules(dirs: Seq<DirModel>)
    ensures
        pieces::ascending(describe::core_modules(dirs)),
        forall|m: Seq<char>| #[trigger]
            describe::core_modules(dirs).contains(m) <==> exists|i: int|
                0 <= i < dirs.len() && describe::core_module(#[trigger] dirs[i]) == Some(m),
    decreases dirs.len(),
{
    if dirs.len() > 0 {
        let rest = dirs.drop_last();
        law_core_modules(rest);
        if let Some(module) = describe::core_module(dirs.last()) {
            law_sorted_insert(describe::core_modules(rest), module);
        }
        assert forall|m: Seq<char>| #[trigger]
            describe::core_modules(dirs).contains(m) <==> exists|i: int|
                0 <= i < dirs.len() && describe::core_module(#[trigger] dirs[i]) == Some(m) by {
            if describe::core_modules(rest).contains(m) {
                let i = choose|i: int|
                    0 <= i < rest.len() && describe::core_module(#[trigger] rest[i]) == Some(m);
                assert(dirs[i] == rest[i]);
            } else if exists|i: int|
                0 <= i < dirs.len() && describe::core_module(#[trigger] dirs[i]) == Some(m) {
                let i = choose|i: int|
                    0 <= i < dirs.len() && describe::core_module(#[trigger] dirs[i]) == Some(m);
                if i < rest.len() {
                    assert(dirs[i] == rest[i]);
                }
            }
            assert(dirs[dirs.len() - 1] == dirs.last());
        }
    }
}

} // verus!
