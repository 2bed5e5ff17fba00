//! Laws of the Python modules that are left out of an import check.
use vstd::prelude::*;

use crate::analyzer;
use crate::log_laws;
use crate::pieces;
use crate::set_laws;
use crate::target_laws;
use crate::text;

verus! {

proof fn lemma_last_dot(parent: Seq<char>, last: Seq<char>)
    requires
        !last.contains('.'),
    ensures
        ({
            let m = parent + "."@ + last;
            text::last_index_of(m, '.', m.len() as int) == parent.len()
        }),
{
    reveal_strlit(".");
    let m = parent + "."@ + last;
    text::lemma_last_index_of(m, '.', m.len() as int);
    let d = text::last_index_of(m, '.', m.len() as int);
    assert(m[parent.len() as int] == '.');
    if d > parent.len() {
        assert(m[d] == last[d - parent.len() - 1]);
        assert(last.contains(last[d - parent.len() - 1]));
    }
}

/// A test module is left out together with the modules beside it.
pub proof fn law_test_modules_are_excluded(parent: Seq<char>, name: Seq<char>)
    requires
        !name.contains('.'),
    ensures
        analyzer::safe_exclusion(parent + "."@ + "test_"@ + name) == Some(parent + ".*"@),
{
    reveal_strlit("test_");
    reveal_strlit(".");
    let last = "test_"@ + name;
    let m = parent + "."@ + "test_"@ + name;
    assert(m =~= parent + "."@ + last);
    assert(!last.contains('.')) by {
        if last.contains('.') {
            let k = last.index_of('.');
            assert(k >= 5);
            assert(name[k - 5] == '.');
        }
    }
    lemma_last_dot(parent, last);
    assert(m.skip(parent.len() as int + 1) =~= last);
    assert(last.subrange(0, 5) =~= "test_"@);
    assert(m.take(parent.len() as int) =~= parent);
}

/// The part of a module's name that marks it as a test or as optional.
pub open spec fn is_mark(mark: Seq<char>) -> bool {
    ||| mark == ".tests."@
    ||| mark == ".integrations."@
    ||| mark == ".integration."@
    ||| mark == ".plugins."@
    ||| mark == ".plugin."@
    ||| mark == ".extras."@
    ||| mark == ".optional."@
    ||| mark == ".multidb."@
}

/// A module below one that is for tests or optional is left out together with the modules beside
/// it.
pub proof fn law_marked_modules_are_excluded(
    a: Seq<char>,
    mark: Seq<char>,
    b: Seq<char>,
    parent: Seq<char>,
    last: Seq<char>,
)
    requires
        is_mark(mark),
        !last.contains('.'),
        a + mark + b == parent + "."@ + last,
    ensures
        analyzer::safe_exclusion(parent + "."@ + last) == Some(parent + ".*"@),
{
    log_laws::lemma_contains(a, mark, b);
    lemma_last_dot(parent, last);
    assert((parent + "."@ + last).take(parent.len() as int) =~= parent);
}

/// No other module is left out.
pub proof fn law_other_modules_are_checked(parent: Seq<char>, last: Seq<char>)
    requires
        !last.contains('.'),
        !text::starts_with(last, "test_"@),
        forall|mark: Seq<char>|
            is_mark(mark) ==> !#[trigger] text::contains(parent + "."@ + last, mark),
    ensures
        analyzer::safe_exclusion(parent + "."@ + last) is None,
        analyzer::safe_exclusion(last) is None,
{
    reveal_strlit(".");
    let m = parent + "."@ + last;
    lemma_last_dot(parent, last);
    assert(m.skip(parent.len() as int + 1) =~= last);
    assert(is_mark(".tests."@) && is_mark(".multidb."@) && is_mark(".integrations."@));
    assert(is_mark(".integration."@) && is_mark(".plugins."@) && is_mark(".plugin."@));
    assert(is_mark(".extras."@) && is_mark(".optional."@));
    text::lemma_last_index_of(last, '.', last.len() as int);
    let d = text::last_index_of(last, '.', last.len() as int);
    if d >= 0 {
        assert(last.contains(last[d]));
    }
}

/// `e` leaves out the module `m`: it names `m` or a package that `m` is in, with `.*` behind.
pub open spec fn leaves_out(e: Seq<char>, m: Seq<char>) -> bool {
    exists|g: Seq<char>|
        e == #[trigger] (g + ".*"@) && (m == g || text::starts_with(m, g + "."@))
}

/// A group leaves out the modules that are grouped by it.
proof fn lemma_group_leaves_out(m: Seq<char>)
    ensures
        leaves_out(analyzer::group_of(m) + ".*"@, m),
        leaves_out(analyzer::root_of(analyzer::group_of(m)) + ".*"@, m),
{
    reveal_strlit(".");
    let g = analyzer::group_of(m);
    let d = text::last_index_of(m, '.', m.len() as int);
    text::lemma_last_index_of(m, '.', m.len() as int);
    if d >= 0 {
        assert(m.subrange(0, d + 1) =~= g + "."@);
        assert(text::starts_with(m, g + "."@));
    }
    let r = analyzer::root_of(g);
    text::lemma_index_of(g, '.', 0);
    let k = text::index_of(g, '.', 0);
    if k < g.len() {
        assert(m.subrange(0, k + 1) =~= r + "."@);
        assert(text::starts_with(m, r + "."@));
    } else {
        assert(r =~= g);
    }
    assert(g + ".*"@ == g + ".*"@);
    assert(r + ".*"@ == r + ".*"@);
}

proof fn lemma_groups_under(v: Seq<Seq<char>>, root: Seq<char>)
    ensures
        forall|x: Seq<char>| #[trigger]
            analyzer::groups_under(v, root).contains(x) <==> v.contains(x) && analyzer::root_of(x)
                == root,
    decreases v.len(),
{
    if v.len() > 0 {
        let rest = v.drop_last();
        lemma_groups_under(rest, root);
        set_laws::lemma_push_texts(rest, v.last());
        assert(rest.push(v.last()) =~= v);
        set_laws::lemma_sorted_insert_texts(analyzer::groups_under(rest, root), v.last());
    }
}

/// The exclusion that is made for the group `g`, together with others or by itself.
proof fn lemma_root_exclusion_of(groups: Seq<Seq<char>>, g: Seq<char>) -> (e: Seq<char>)
    requires
        groups.contains(g),
    ensures
        e == g + ".*"@ || e == analyzer::root_of(g) + ".*"@,
        analyzer::root_exclusions(groups, analyzer::root_of(g)).contains(e),
{
    let root = analyzer::root_of(g);
    lemma_groups_under(groups, root);
    let under = analyzer::groups_under(groups, root);
    assert(under.contains(g));
    let all = analyzer::root_exclusions(groups, root);
    if under.len() >= 3 {
        assert(all[0] == root + ".*"@);
        root + ".*"@
    } else {
        let k = under.index_of(g);
        assert(all[k] == g + ".*"@);
        g + ".*"@
    }
}

proof fn lemma_exclusions_under(groups: Seq<Seq<char>>, roots: Seq<Seq<char>>)
    ensures
        forall|e: Seq<char>| #[trigger]
            analyzer::exclusions_under(groups, roots).contains(e) ==> exists|i: int|
                0 <= i < roots.len() && analyzer::root_exclusions(
                    groups,
                    #[trigger] roots[i],
                ).contains(e),
        forall|i: int, e: Seq<char>|
            0 <= i < roots.len() && #[trigger] analyzer::root_exclusions(
                groups,
                roots[i],
            ).contains(e) ==> analyzer::exclusions_under(groups, roots).contains(e),
    decreases roots.len(),
{
    if roots.len() > 0 {
        let rest = roots.drop_last();
        let n = roots.len() - 1;
        lemma_exclusions_under(groups, rest);
        let before = analyzer::exclusions_under(groups, rest);
        let more = analyzer::root_exclusions(groups, roots.last());
        target_laws::lemma_all_unique(before, more);
        let all = analyzer::exclusions_under(groups, roots);
        assert forall|e: Seq<char>| #[trigger] all.contains(e) implies exists|i: int|
            0 <= i < roots.len() && analyzer::root_exclusions(groups, #[trigger] roots[i]).contains(
                e,
            ) by {
            if before.contains(e) {
                let i = choose|i: int|
                    0 <= i < rest.len() && analyzer::root_exclusions(
                        groups,
                        #[trigger] rest[i],
                    ).contains(e);
                assert(roots[i] == rest[i]);
            } else {
                assert(roots[n] == roots.last());
            }
        }
        assert forall|i: int, e: Seq<char>|
            0 <= i < roots.len() && #[trigger] analyzer::root_exclusions(
                groups,
                roots[i],
            ).contains(e) implies all.contains(e) by {
            if i < n {
                assert(rest[i] == roots[i]);
                assert(analyzer::root_exclusions(groups, rest[i]).contains(e));
            }
        }
    } else {
        assert forall|e: Seq<char>| !#[trigger] analyzer::exclusions_under(
            groups,
            roots,
        ).contains(e) by {}
    }
}

/// Every module that is to be left out is left out.
pub proof fn law_every_module_is_left_out(modules: Seq<Seq<char>>, i: int)
    requires
        0 <= i < modules.len(),
    ensures
        exists|e: Seq<char>| #[trigger]
            analyzer::grouped_exclusions(modules).contains(e) && leaves_out(e, modules[i]),
{
    let groups = analyzer::groups_of(modules);
    let roots = analyzer::roots_of(groups);
    let g = groups[i];
    assert(groups.contains(g));
    let e = lemma_root_exclusion_of(groups, g);
    assert(roots[i] == analyzer::root_of(g));
    assert(roots.contains(roots[i]));
    let ordered = pieces::sorted_set(roots);
    set_laws::law_sorted_set(roots);
    assert(ordered.contains(analyzer::root_of(g)));
    let k = ordered.index_of(analyzer::root_of(g));
    lemma_exclusions_under(groups, ordered);
    assert(analyzer::root_exclusions(groups, ordered[k]).contains(e));
    lemma_group_leaves_out(modules[i]);
    assert(analyzer::grouped_exclusions(modules).contains(e));
}

/// Nothing is left out that is not asked for: each exclusion leaves out one of the modules, and
/// where there are no more than two of them it names the package of that module or the module
/// itself.
pub proof fn law_nothing_else_is_left_out(modules: Seq<Seq<char>>, e: Seq<char>) -> (i: int)
    requires
        analyzer::grouped_exclusions(modules).contains(e),
    ensures
        0 <= i < modules.len(),
        leaves_out(e, modules[i]),
        modules.len() <= 2 ==> e == modules[i] + ".*"@ || exists|last: Seq<char>|
            !last.contains('.') && modules[i] == #[trigger] (e.take(e.len() - 2) + "."@ + last),
{
    reveal_strlit(".*");
    let groups = analyzer::groups_of(modules);
    let roots = analyzer::roots_of(groups);
    let ordered = pieces::sorted_set(roots);
    set_laws::law_sorted_set(roots);
    lemma_exclusions_under(groups, ordered);
    let k = choose|k: int|
        0 <= k < ordered.len() && analyzer::root_exclusions(groups, #[trigger] ordered[k]).contains(
            e,
        );
    let root = ordered[k];
    assert(ordered.contains(root));
    assert(roots.contains(root));
    lemma_groups_under(groups, root);
    let under = analyzer::groups_under(groups, root);
    let all = analyzer::root_exclusions(groups, root);
    if under.len() >= 3 {
        lemma_groups_under_len(groups, root);
        assert(all[all.index_of(e)] == e);
        assert(e == root + ".*"@);
        let i = roots.index_of(root);
        lemma_group_leaves_out(modules[i]);
        i
    } else {
        let j = all.index_of(e);
        assert(all[j] == e);
        assert(e == under[j] + ".*"@);
        assert(under.contains(under[j]));
        let i = groups.index_of(under[j]);
        lemma_group_leaves_out(modules[i]);
        assert(e.take(e.len() - 2) =~= under[j]);
        let m = modules[i];
        let d = text::last_index_of(m, '.', m.len() as int);
        text::lemma_last_index_of(m, '.', m.len() as int);
        if d >= 0 {
            reveal_strlit(".");
            let last = m.skip(d + 1);
            assert(!last.contains('.')) by {
                if last.contains('.') {
                    let x = last.index_of('.');
                    assert(m[d + 1 + x] == '.');
                }
            }
            assert(m =~= e.take(e.len() - 2) + "."@ + last);
        }
        i
    }
}

proof fn lemma_groups_under_len(v: Seq<Seq<char>>, root: Seq<char>)
    ensures
        analyzer::groups_under(v, root).len() <= v.len(),
    decreases v.len(),
{
    if v.len() > 0 {
        lemma_groups_under_len(v.drop_last(), root);
        lemma_sorted_insert_len(analyzer::groups_under(v.drop_last(), root), v.last());
    }
}

proof fn lemma_sorted_insert_len(set: Seq<Seq<char>>, s: Seq<char>)
    ensures
        pieces::sorted_insert(set, s).len() <= set.len() + 1,
    decreases set.len(),
{
    if set.len() > 0 {
        lemma_sorted_insert_len(set.drop_last(), s);
    }
}

} // verus!
