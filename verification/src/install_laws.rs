//! Changing the arguments of the install step twice is changing them once.
use vstd::prelude::*;

use crate::argument_laws;
use crate::patterns;
use crate::pieces;
use crate::specfile;
use crate::text;

verus! {

/// A text in double quotes, with none in it.
spec fn is_quoted(t: Seq<char>) -> bool {
    &&& t.len() >= 2
    &&& t[0] == '"'
    &&& t.last() == '"'
    &&& forall|k: int| 0 < k < t.len() - 1 ==> t[k] != '"'
}

/// A text without white space.
spec fn is_dark(t: Seq<char>) -> bool {
    &&& t.len() > 0
    &&& forall|k: int| 0 <= k < t.len() ==> !text::is_white(#[trigger] t[k])
}

/// No double quote stands behind the start of argument `i`.
spec fn no_quote_behind(v: Seq<Seq<char>>, i: int) -> bool {
    &&& forall|k: int| 0 < k < v[i].len() ==> v[i][k] != '"'
    &&& forall|j: int| i < j < v.len() ==> !(#[trigger] v[j]).contains('"')
}

/// Argument `i` stays one argument when the arguments are joined.
spec fn stable_at(v: Seq<Seq<char>>, i: int) -> bool {
    is_quoted(v[i]) || (is_dark(v[i]) && (v[i][0] != '"' || no_quote_behind(v, i)))
}

spec fn stable(v: Seq<Seq<char>>) -> bool {
    forall|i: int| 0 <= i < v.len() ==> #[trigger] stable_at(v, i)
}

/// A word: not empty, without white space and double quotes.
pub open spec fn is_plain_word(w: Seq<char>) -> bool {
    &&& w.len() > 0
    &&& forall|k: int| 0 <= k < w.len() ==> !text::is_white(#[trigger] w[k]) && w[k] != '"'
}

/// The arguments hold no character that the text from `i` on does not hold.
proof fn lemma_argument_chars(s: Seq<char>, i: int, c: char, j: int)
    requires
        0 <= i <= s.len(),
        forall|k: int| i <= k < s.len() ==> s[k] != c,
        0 <= j < patterns::arguments_from(s, i).len(),
    ensures
        !patterns::arguments_from(s, i)[j].contains(c),
    decreases s.len() - i,
{
    argument_laws::lemma_span(s, i);
    let (k, e) = argument_laws::span_at(s, i);
    let all = patterns::arguments_from(s, i);
    if k < s.len() {
        let first = s.subrange(k, e);
        if j == 0 {
            assert forall|q: int| 0 <= q < first.len() implies first[q] != c by {
                assert(first[q] == s[k + q]);
            }
        } else {
            lemma_argument_chars(s, e, c, j - 1);
            assert(all[j] == patterns::arguments_from(s, e)[j - 1]);
        }
    }
}

/// The arguments of a text stay apart when they are joined.
proof fn lemma_arguments_are_stable(s: Seq<char>, i: int)
    requires
        0 <= i <= s.len(),
    ensures
        stable(patterns::arguments_from(s, i)),
    decreases s.len() - i,
{
    argument_laws::lemma_span(s, i);
    let (k, e) = argument_laws::span_at(s, i);
    let all = patterns::arguments_from(s, i);
    if k < s.len() {
        let rest = patterns::arguments_from(s, e);
        let first = s.subrange(k, e);
        lemma_arguments_are_stable(s, e);
        assert(all == seq![first] + rest);
        text::lemma_index_of(s, '"', k + 1);
        text::lemma_dark_end(s, k);
        let q = text::index_of(s, '"', k + 1);
        assert forall|j: int| 0 <= j < all.len() implies #[trigger] stable_at(all, j) by {
            if j > 0 {
                assert(all[j] == rest[j - 1]);
                assert(stable_at(rest, j - 1));
                if no_quote_behind(rest, j - 1) {
                    assert forall|x: int| j < x < all.len() implies !(#[trigger] all[x]).contains(
                        '"',
                    ) by {
                        assert(all[x] == rest[x - 1]);
                    }
                }
            } else if s[k] == '"' && q < s.len() {
                assert(first[0] == '"');
                assert(first.last() == s[q]);
                assert forall|x: int| 0 < x < first.len() - 1 implies first[x] != '"' by {
                    assert(first[x] == s[k + x]);
                }
                assert(is_quoted(first));
            } else {
                assert forall|x: int| 0 <= x < first.len() implies !text::is_white(
                    #[trigger] first[x],
                ) by {
                    assert(first[x] == s[k + x]);
                }
                assert(is_dark(first));
                if s[k] == '"' {
                    assert forall|x: int| 0 < x < first.len() implies first[x] != '"' by {
                        assert(first[x] == s[k + x]);
                    }
                    assert forall|x: int| 0 < x < all.len() implies !(#[trigger] all[x]).contains(
                        '"',
                    ) by {
                        assert(all[x] == rest[x - 1]);
                        lemma_argument_chars(s, e, '"', x - 1);
                    }
                    assert(no_quote_behind(all, 0));
                }
            }
        }
    }
}

proof fn lemma_join_chars(v: Seq<Seq<char>>, c: char)
    requires
        c != ' ',
        forall|i: int| 0 <= i < v.len() ==> !(#[trigger] v[i]).contains(c),
    ensures
        !pieces::join(v, " "@).contains(c),
    decreases v.len(),
{
    reveal_strlit(" ");
    if v.len() >= 2 {
        let rest = v.drop_last();
        assert forall|i: int| 0 <= i < rest.len() implies !(#[trigger] rest[i]).contains(c) by {
            assert(rest[i] == v[i]);
        }
        lemma_join_chars(rest, c);
        let a = pieces::join(rest, " "@);
        let all = pieces::join(v, " "@);
        let last = v[v.len() - 1];
        if all.contains(c) {
            let k = all.index_of(c);
            if k < a.len() {
                assert(a[k] == c);
            } else if k > a.len() {
                assert(last[k - a.len() - 1] == c);
            }
        }
    }
}

/// The first argument of a text that starts with a stable argument.
proof fn lemma_first_argument(t: Seq<char>, tail: Seq<char>)
    requires
        is_quoted(t) || (is_dark(t) && (t[0] != '"' || (!tail.contains('"') && forall|k: int|
            0 < k < t.len() ==> t[k] != '"'))),
        tail.len() > 0 ==> text::is_white(tail[0]),
    ensures
        patterns::arguments_from(t + tail, 0) == seq![t] + patterns::arguments_from(
            t + tail,
            t.len() as int,
        ),
{
    let s = t + tail;
    let n = t.len() as int;
    assert(s[0] == t[0]);
    assert(!text::is_white(s[0]));
    assert(text::white_end(s, 0) == 0);
    text::lemma_index_of(s, '"', 1);
    text::lemma_dark_end(s, 0);
    let q = text::index_of(s, '"', 1);
    let d = text::dark_end(s, 0);
    if is_quoted(t) {
        assert(s[n - 1] == '"');
        if q < n - 1 {
            assert(s[q] == t[q]);
        }
        assert(q == n - 1);
    } else {
        if d < n {
            assert(s[d] == t[d]);
        }
        if n < d {
            assert(s[n] == tail[0]);
        }
        assert(d == n);
        if t[0] == '"' && q < s.len() {
            if q < n {
                assert(s[q] == t[q]);
            } else {
                assert(tail[q - n] == '"');
                assert(tail.contains(tail[q - n]));
            }
        }
    }
    assert(patterns::argument_end(s, 0) == n);
    assert(s.subrange(0, n) =~= t);
}

/// Stable arguments, joined and taken apart, are the same.
proof fn lemma_arguments_of_join(v: Seq<Seq<char>>)
    requires
        stable(v),
    ensures
        patterns::arguments(pieces::join(v, " "@)) == v,
    decreases v.len(),
{
    reveal_strlit(" ");
    let s = pieces::join(v, " "@);
    if v.len() == 0 {
        assert(patterns::arguments(s) =~= v);
    } else {
        let t = v[0];
        assert(stable_at(v, 0));
        let rest = v.drop_first();
        assert forall|i: int| 0 <= i < rest.len() implies #[trigger] stable_at(rest, i) by {
            assert(stable_at(v, i + 1));
            assert(rest[i] == v[i + 1]);
            if no_quote_behind(v, i + 1) {
                assert forall|j: int| i < j < rest.len() implies !(#[trigger] rest[j]).contains(
                    '"',
                ) by {
                    assert(rest[j] == v[j + 1]);
                }
            }
        }
        lemma_arguments_of_join(rest);
        if v.len() == 1 {
            let none = Seq::<char>::empty();
            assert(t + none =~= s);
            lemma_first_argument(t, none);
            assert(patterns::arguments_from(s, s.len() as int) =~= seq![]);
            assert(patterns::arguments(s) =~= v);
        } else {
            crate::line_laws::lemma_join_cons(v, " "@);
            let j = pieces::join(rest, " "@);
            let tail = " "@ + j;
            assert(s =~= t + tail);
            if t[0] == '"' && !is_quoted(t) {
                assert forall|i: int| 0 <= i < rest.len() implies !(#[trigger] rest[i]).contains(
                    '"',
                ) by {
                    assert(rest[i] == v[i + 1]);
                }
                lemma_join_chars(rest, '"');
                if tail.contains('"') {
                    let k = tail.index_of('"');
                    assert(j[k - 1] == '"');
                    assert(j.contains('"'));
                }
            }
            lemma_first_argument(t, tail);
            argument_laws::lemma_arguments_shift(t, tail, 0);
            argument_laws::lemma_arguments_shift(" "@, j, 0);
            assert(text::white_end(tail, 0) == text::white_end(tail, 1));
            assert(patterns::arguments_from(tail, 0) == patterns::arguments_from(tail, 1));
            assert(seq![t] + rest =~= v);
        }
    }
}

proof fn lemma_stable_push(v: Seq<Seq<char>>, w: Seq<char>)
    requires
        stable(v),
        is_plain_word(w),
    ensures
        stable(v.push(w)),
{
    let all = v.push(w);
    assert forall|i: int| 0 <= i < all.len() implies #[trigger] stable_at(all, i) by {
        if i < v.len() {
            assert(stable_at(v, i));
            assert(all[i] == v[i]);
            if no_quote_behind(v, i) {
                assert forall|j: int| i < j < all.len() implies !(#[trigger] all[j]).contains(
                    '"',
                ) by {
                    if j < v.len() {
                        assert(all[j] == v[j]);
                    }
                }
            }
        } else {
            assert(is_dark(w));
        }
    }
}

proof fn lemma_stable_update(v: Seq<Seq<char>>, at: int, w: Seq<char>)
    requires
        stable(v),
        is_plain_word(w),
        0 <= at < v.len(),
    ensures
        stable(v.update(at, w)),
{
    let all = v.update(at, w);
    assert forall|i: int| 0 <= i < all.len() implies #[trigger] stable_at(all, i) by {
        if i != at {
            assert(stable_at(v, i));
            assert(all[i] == v[i]);
            if no_quote_behind(v, i) {
                assert forall|j: int| i < j < all.len() implies !(#[trigger] all[j]).contains(
                    '"',
                ) by {
                    if j != at {
                        assert(all[j] == v[j]);
                    }
                }
            }
        } else {
            assert(is_dark(w));
        }
    }
}

proof fn lemma_module_flag(v: Seq<Seq<char>>, i: int)
    requires
        0 <= i <= v.len(),
    ensures
        i <= specfile::module_flag(v, i) <= v.len(),
        forall|k: int|
            i <= k < specfile::module_flag(v, i) ==> !(#[trigger] v[k] == "-l"@ && k + 1
                < v.len()),
        specfile::module_flag(v, i) < v.len() ==> v[specfile::module_flag(v, i)] == "-l"@
            && specfile::module_flag(v, i) + 1 < v.len(),
    decreases v.len() - i,
{
    if i < v.len() && !(v[i] == "-l"@ && i + 1 < v.len()) {
        lemma_module_flag(v, i + 1);
    }
}

/// The arguments end with a `-l` that no module follows, and have no other.
pub open spec fn ends_with_flag(v: Seq<Seq<char>>) -> bool {
    v.len() > 0 && v.last() == "-l"@ && specfile::module_flag(v, 0) >= v.len()
}

/// Changing the arguments twice is changing them once.
proof fn lemma_install_args_twice(v: Seq<Seq<char>>, arg: Seq<char>)
    requires
        arg == "-L"@ || !ends_with_flag(v),
    ensures
        specfile::install_args(specfile::install_args(v, arg), arg) == specfile::install_args(
            v,
            arg,
        ),
        specfile::install_args(v, arg).len() > 0,
{
    let w = specfile::install_args(v, arg);
    if arg == "-L"@ {
        if !v.contains(arg) {
            assert(w[v.len() as int] == arg);
            assert(w.contains(arg));
        } else {
            let k = v.index_of(arg);
        }
    } else {
        lemma_module_flag(v, 0);
        lemma_module_flag(w, 0);
        let k = specfile::module_flag(v, 0);
        let m = specfile::module_flag(w, 0);
        let at = if k < v.len() {
            k
        } else {
            v.len() as int
        };
        assert(w[at] == "-l"@);
        assert(w[at + 1] == arg);
        if at < m {
            assert(!(w[at] == "-l"@ && at + 1 < w.len()));
        }
        if m < at {
            assert(w[m] == v[m]);
            if m + 1 == v.len() {
                assert(v.last() == "-l"@);
            } else {
                assert(!(v[m] == "-l"@ && m + 1 < v.len()));
            }
        }
        assert(w.update(at + 1, arg) =~= w);
    }
}

proof fn lemma_install_args_stable(v: Seq<Seq<char>>, arg: Seq<char>)
    requires
        stable(v),
        is_plain_word(arg),
    ensures
        stable(specfile::install_args(v, arg)),
{
    reveal_strlit("-l");
    lemma_module_flag(v, 0);
    if arg == "-L"@ {
        lemma_stable_push(v, arg);
    } else if specfile::module_flag(v, 0) < v.len() {
        lemma_stable_update(v, specfile::module_flag(v, 0) + 1, arg);
    } else {
        assert(is_plain_word("-l"@));
        lemma_stable_push(v, "-l"@);
        lemma_stable_push(v.push("-l"@), arg);
    }
}

proof fn lemma_tagged_line(s: Seq<char>, tag: Seq<char>, i: int)
    requires
        0 <= i,
    ensures
        match patterns::tagged_line_from(s, tag, i) {
            Some(k) => {
                &&& i <= k <= s.len()
                &&& patterns::at_line_start(s, k)
                &&& text::occurs_at(s, tag, k)
                &&& forall|j: int|
                    i <= j < k ==> !(patterns::at_line_start(s, j) && #[trigger] text::occurs_at(
                        s,
                        tag,
                        j,
                    ))
            },
            None => forall|j: int|
                i <= j <= s.len() ==> !(patterns::at_line_start(s, j) && #[trigger] text::occurs_at(
                    s,
                    tag,
                    j,
                )),
        },
    decreases s.len() + 1 - i,
{
    if i <= s.len() && !(patterns::at_line_start(s, i) && text::occurs_at(s, tag, i)) {
        lemma_tagged_line(s, tag, i + 1);
    }
}

proof fn lemma_install_tag()
    ensures
        "BuildOption(install):"@.len() == 21,
        !"BuildOption(install):"@.contains('\n'),
        "BuildOption(install):  "@ =~= "BuildOption(install):"@ + "  "@,
        !"BuildOption(install):  "@.contains('\n'),
        "  "@.len() == 2,
        "  "@[0] == ' ',
        "  "@[1] == ' ',
{
    reveal_strlit("BuildOption(install):");
    reveal_strlit("BuildOption(install):  ");
    reveal_strlit("  ");
}

/// Where the install option of a spec stands: the line that holds it starts with the first
/// occurrence of its text.
pub open spec fn option_stands_first(s: Seq<char>) -> bool {
    match patterns::tagged_option(s, "BuildOption(install):"@) {
        Some((whole, _)) => text::find(s, whole) == patterns::tagged_line_from(
            s,
            "BuildOption(install):"@,
            0,
        ),
        None => true,
    }
}

/// The tag is found in the same place when what follows the place starts with it.
proof fn lemma_same_tag_place(s: Seq<char>, i: int, behind: Seq<char>)
    requires
        patterns::tagged_line_from(s, "BuildOption(install):"@, 0) == Some(i),
        text::starts_with(behind, "BuildOption(install):"@),
    ensures
        patterns::tagged_line_from(s.take(i) + behind, "BuildOption(install):"@, 0) == Some(i),
{
    lemma_install_tag();
    let tag = "BuildOption(install):"@;
    let n = tag.len() as int;
    let after = s.take(i) + behind;
    lemma_tagged_line(s, tag, 0);
    lemma_tagged_line(after, tag, 0);
    assert(after.subrange(i, i + n) =~= behind.subrange(0, n));
    assert(text::occurs_at(after, tag, i));
    assert(patterns::at_line_start(after, i));
    let k = patterns::tagged_line_from(after, tag, 0)->0;
    if k < i {
        assert(text::occurs_at(after, tag, k));
        assert(patterns::at_line_start(s, k));
        if k + n <= i {
            assert(after.subrange(k, k + n) =~= s.subrange(k, k + n));
            assert(text::occurs_at(s, tag, k));
        } else {
            assert(after[i - 1] == '\n');
            assert(after.subrange(k, k + n)[i - 1 - k] == '\n');
            assert(tag.contains(tag[i - 1 - k]));
        }
    }
}

/// The option that is found when another has been put in the place of the first.
proof fn lemma_replaced_option(s: Seq<char>, i: int, to: int, j: Seq<char>)
    requires
        patterns::tagged_line_from(s, "BuildOption(install):"@, 0) == Some(i),
        i <= to <= s.len(),
        to < s.len() ==> s[to] == '\n',
        j.len() > 0,
        !text::is_white(j[0]),
        !j.contains('\n'),
    ensures
        ({
            let line = "BuildOption(install):  "@ + j;
            let after = s.take(i) + line + s.skip(to);
            patterns::tagged_option(after, "BuildOption(install):"@) == Some((line, j))
        }),
{
    lemma_install_tag();
    lemma_tagged_line(s, "BuildOption(install):"@, 0);
    let tag = "BuildOption(install):"@;
    let n = tag.len() as int;
    let line = "BuildOption(install):  "@ + j;
    let behind = line + s.skip(to);
    let after = s.take(i) + line + s.skip(to);
    assert(behind.subrange(0, n) =~= tag);
    lemma_same_tag_place(s, i, behind);
    assert(after =~= s.take(i) + behind);
    let from = i + n + 2;
    assert(after[i + n] == line[n]);
    assert(after[i + n + 1] == line[n + 1]);
    assert(after[from] == j[0]);
    assert(text::white_end(after, from) == from);
    assert(text::white_end(after, from - 1) == from);
    assert(text::white_end(after, from - 2) == from);
    let end = i + line.len();
    text::lemma_index_of(after, '\n', from);
    let e = text::index_of(after, '\n', from);
    if e < end {
        assert(after[e] == j[e - from]);
        assert(j.contains(j[e - from]));
    }
    if end < e {
        assert(after[end] == s[to]);
    }
    assert(after.subrange(i, end) =~= line);
    assert(after.subrange(from, end) =~= j);
}

/// The install option of a spec in which an argument has been changed is read with the changed
/// arguments. The argument is a word. Specs in which the text of the option also occurs before the
/// line that holds it are left out.
pub proof fn law_install_args_are_read_back(s: Seq<char>, arg: Seq<char>)
    requires
        is_plain_word(arg),
        option_stands_first(s),
    ensures
        match patterns::tagged_option(s, "BuildOption(install):"@) {
            Some((_, args)) => {
                let new_args = specfile::install_args(patterns::arguments(args), arg);
                let joined = pieces::join(new_args, " "@);
                &&& patterns::tagged_option(
                    specfile::with_install_arg(s, arg),
                    "BuildOption(install):"@,
                ) == Some(("BuildOption(install):  "@ + joined, joined))
                &&& patterns::arguments(joined) == new_args
            },
            None => specfile::with_install_arg(s, arg) == s,
        },
{
    let tag = "BuildOption(install):"@;
    match patterns::tagged_option(s, tag) {
        None => {},
        Some((whole, args)) => {
            let i = patterns::tagged_line_from(s, tag, 0)->0;
            lemma_tagged_line(s, tag, 0);
            lemma_install_tag();
            let from = text::white_end(s, i + tag.len());
            text::lemma_white_end(s, i + tag.len());
            text::lemma_index_of(s, '\n', from);
            let to = text::index_of(s, '\n', from);
            let old_args = patterns::arguments(args);
            let new_args = specfile::install_args(old_args, arg);
            let j = pieces::join(new_args, " "@);
            let line = "BuildOption(install):  "@ + j;
            let after = specfile::with_install_arg(s, arg);
            lemma_arguments_are_stable(args, 0);
            lemma_install_args_stable(old_args, arg);
            lemma_arguments_of_join(new_args);
            assert(whole.len() == to - i);
            assert(after =~= s.take(i) + line + s.skip(to));
            // The new arguments are on one line.
            assert forall|k: int| 0 <= k < args.len() implies args[k] != '\n' by {
                assert(args[k] == s[from + k]);
            }
            assert forall|k: int| 0 <= k < new_args.len() implies !(#[trigger] new_args[k]).contains(
                '\n',
            ) by {
                lemma_new_argument_chars(args, arg, k);
            }
            lemma_join_chars(new_args, '\n');
            lemma_install_args_some(old_args, arg);
            lemma_join_start(new_args);
            lemma_replaced_option(s, i, to, j);
        },
    }
}

proof fn lemma_install_args_some(args: Seq<Seq<char>>, arg: Seq<char>)
    ensures
        specfile::install_args(args, arg).len() > 0,
{
    lemma_module_flag(args, 0);
}

/// Changing an argument of the install step twice is changing it once. The argument is a word. Two
/// kinds of specs are left out: those in which the text of the option also occurs before the line
/// that holds it, and, for a module, those whose arguments end with a `-l` that no module follows.
pub proof fn law_install_arg_twice(s: Seq<char>, arg: Seq<char>)
    requires
        is_plain_word(arg),
        option_stands_first(s),
        patterns::tagged_option(s, "BuildOption(install):"@) matches Some((_, args)) ==> arg
            == "-L"@ || !ends_with_flag(patterns::arguments(args)),
    ensures
        specfile::with_install_arg(specfile::with_install_arg(s, arg), arg)
            == specfile::with_install_arg(s, arg),
{
    law_install_args_are_read_back(s, arg);
    if let Some((_, args)) = patterns::tagged_option(s, "BuildOption(install):"@) {
        let old_args = patterns::arguments(args);
        lemma_install_args_twice(old_args, arg);
        let after = specfile::with_install_arg(s, arg);
        let line = "BuildOption(install):  "@ + pieces::join(
            specfile::install_args(old_args, arg),
            " "@,
        );
        text::lemma_find(after, line, 0);
        if let Some(p) = text::find(after, line) {
            assert(after.take(p) + line + after.skip(p + line.len()) =~= after);
        }
    }
}

proof fn lemma_join_start(v: Seq<Seq<char>>)
    requires
        v.len() > 0,
        stable(v),
    ensures
        pieces::join(v, " "@).len() > 0,
        !text::is_white(pieces::join(v, " "@)[0]),
{
    assert(stable_at(v, 0));
    if v.len() >= 2 {
        crate::line_laws::lemma_join_cons(v, " "@);
        assert(pieces::join(v, " "@)[0] == v[0][0]);
    }
}

proof fn lemma_new_argument_chars(args: Seq<char>, arg: Seq<char>, k: int)
    requires
        is_plain_word(arg),
        forall|q: int| 0 <= q < args.len() ==> args[q] != '\n',
        0 <= k < specfile::install_args(patterns::arguments(args), arg).len(),
    ensures
        !specfile::install_args(patterns::arguments(args), arg)[k].contains('\n'),
{
    reveal_strlit("-l");
    let v = patterns::arguments(args);
    let w = specfile::install_args(v, arg);
    lemma_module_flag(v, 0);
    assert(!arg.contains('\n')) by {
        if arg.contains('\n') {
            let q = arg.index_of('\n');
            assert(text::is_white(arg[q]));
        }
    }
    if w[k] == arg {
    } else if k < v.len() {
        assert(w[k] == v[k]);
        lemma_argument_chars(args, 0, '\n', k);
    } else {
        assert(w[k] == "-l"@);
        assert(!"-l"@.contains('\n'));
    }
}

} // verus!
