//! Paths, as far as their parts matter.
use vstd::prelude::*;

use crate::pieces;
use crate::pieces::{less, split_on};
use crate::text;
use crate::text::{cat2, is_empty, same};
use crate::set_laws;

verus! {

/// A part of a path that says where to go.
pub open spec fn is_name(part: Seq<char>) -> bool {
    part.len() > 0 && part != "."@
}

/// The last of the parts before `n` that says where to go.
pub open spec fn last_name(parts: Seq<Seq<char>>, n: int) -> Option<Seq<char>>
    decreases n,
{
    if n <= 0 || n > parts.len() {
        None
    } else if is_name(parts[n - 1]) {
        Some(parts[n - 1])
    } else {
        last_name(parts, n - 1)
    }
}

/// The name at the end of a path, where that is no step up.
pub open spec fn name_of(path: Seq<char>) -> Option<Seq<char>> {
    let parts = pieces::split(path, '/');
    match last_name(parts, parts.len() as int) {
        Some(name) => if name == ".."@ {
            None
        } else {
            Some(name)
        },
        None => None,
    }
}

pub fn file_name(path: &str) -> (r: Option<String>)
    ensures
        text::opt_text(r) == name_of(path@),
{
    let parts = split_on(path, '/');
    let ghost all = text::texts(parts@);
    assert(all.len() == parts@.len());
    let mut n: usize = parts.len();
    while n > 0
        invariant
            n <= parts@.len(),
            all == text::texts(parts@),
            all == pieces::split(path@, '/'),
            last_name(all, all.len() as int) == last_name(all, n as int),
        decreases n,
    {
        let part = parts[n - 1].as_str();
        assert(all[n - 1] == part@);
        if !is_empty(part) && !same(part, ".") {
            return if same(part, "..") {
                None
            } else {
                Some(part.to_owned())
            };
        }
        n -= 1;
    }
    None
}

/// The order of paths: by the first part in which they differ.
pub open spec fn parts_lt(a: Seq<Seq<char>>, b: Seq<Seq<char>>) -> bool
    decreases a.len(),
{
    if b.len() == 0 {
        false
    } else if a.len() == 0 {
        true
    } else if a[0] == b[0] {
        parts_lt(a.drop_first(), b.drop_first())
    } else {
        pieces::text_lt(a[0], b[0])
    }
}

pub open spec fn path_lt(a: Seq<char>, b: Seq<char>) -> bool {
    parts_lt(pieces::split(a, '/'), pieces::split(b, '/'))
}

proof fn lemma_parts_lt_transitive(a: Seq<Seq<char>>, b: Seq<Seq<char>>, c: Seq<Seq<char>>)
    requires
        parts_lt(a, b),
        parts_lt(b, c),
    ensures
        parts_lt(a, c),
    decreases a.len(),
{
    if a.len() > 0 {
        if a[0] == b[0] && b[0] == c[0] {
            lemma_parts_lt_transitive(a.drop_first(), b.drop_first(), c.drop_first());
        } else if a[0] != b[0] && b[0] != c[0] {
            set_laws::lemma_text_lt_transitive(a[0], b[0], c[0]);
            set_laws::lemma_text_order_total(a[0], b[0]);
        }
    }
}

proof fn lemma_parts_lt_irreflexive(a: Seq<Seq<char>>)
    ensures
        !parts_lt(a, a),
    decreases a.len(),
{
    if a.len() > 0 {
        lemma_parts_lt_irreflexive(a.drop_first());
    }
}

fn parts_less(a: &[String], b: &[String]) -> (r: bool)
    ensures
        r == parts_lt(text::texts(a@), text::texts(b@)),
{
    let ghost v = text::texts(a@);
    let ghost w = text::texts(b@);
    let mut i: usize = 0;
    assert(v.skip(0) =~= v);
    assert(w.skip(0) =~= w);
    loop
        invariant
            v == text::texts(a@),
            w == text::texts(b@),
            i <= a@.len(),
            i <= b@.len(),
            parts_lt(v, w) == parts_lt(v.skip(i as int), w.skip(i as int)),
        decreases a@.len() - i,
    {
        if i == b.len() {
            return false;
        }
        if i == a.len() {
            return true;
        }
        assert(v.skip(i as int)[0] == a@[i as int]@);
        assert(w.skip(i as int)[0] == b@[i as int]@);
        if !same(a[i].as_str(), b[i].as_str()) {
            return less(a[i].as_str(), b[i].as_str());
        }
        assert(v.skip(i as int).drop_first() =~= v.skip(i + 1));
        assert(w.skip(i as int).drop_first() =~= w.skip(i + 1));
        i += 1;
    }
}

pub fn path_less(a: &str, b: &str) -> (r: bool)
    ensures
        r == path_lt(a@, b@),
{
    parts_less(&split_on(a, '/'), &split_on(b, '/'))
}

/// `path` is among `paths`, and none of them comes before it.
pub open spec fn is_first(paths: Seq<Seq<char>>, path: Seq<char>) -> bool {
    paths.contains(path) && forall|i: int|
        0 <= i < paths.len() ==> !path_lt(#[trigger] paths[i], path)
}

/// The spec of a working directory: the first of those that have been found below it.
pub fn find_spec(workdir: &str, found: &[String]) -> (r: Result<String, String>)
    ensures
        match r {
            Ok(path) => is_first(text::texts(found@), path@),
            Err(message) => found@.len() == 0 && message@ == "no .spec found under "@ + workdir@,
        },
{
    if found.len() == 0 {
        return Err(cat2("no .spec found under ", workdir));
    }
    let ghost all = text::texts(found@);
    let mut best: usize = 0;
    let mut i: usize = 1;
    proof {
        lemma_parts_lt_irreflexive(pieces::split(all[0], '/'));
    }
    while i < found.len()
        invariant
            1 <= i <= found@.len(),
            best < i,
            all == text::texts(found@),
            forall|k: int| 0 <= k < i ==> !path_lt(#[trigger] all[k], all[best as int]),
        decreases found@.len() - i,
    {
        assert(all[i as int] == found@[i as int]@);
        assert(all[best as int] == found@[best as int]@);
        if path_less(found[i].as_str(), found[best].as_str()) {
            proof {
                let p = pieces::split(all[i as int], '/');
                let q = pieces::split(all[best as int], '/');
                assert forall|k: int| 0 <= k < i + 1 implies !path_lt(
                    #[trigger] all[k],
                    all[i as int],
                ) by {
                    if k == i {
                        lemma_parts_lt_irreflexive(p);
                    } else if path_lt(all[k], all[i as int]) {
                        lemma_parts_lt_transitive(pieces::split(all[k], '/'), p, q);
                    }
                }
            }
            best = i;
        }
        i += 1;
    }
    assert(all[best as int] == found@[best as int]@);
    Ok(found[best].clone())
}

/// The name of a spec file: a stem, and the extension behind it.
pub open spec fn spec_file(name: Seq<char>) -> bool {
    name.len() > 5 && text::ends_with(name, ".spec"@)
}

pub fn is_spec_file(name: &str) -> (r: bool)
    ensures
        r == spec_file(name@),
{
    text::has_suffix(name, ".spec") && text::chars_of(name).len() > 5
}

} // verus!
