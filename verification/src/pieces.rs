//! Texts taken apart and put together: lines, fields, lists of texts, numbers.
use vstd::prelude::*;

use crate::text;
use crate::text::{cat2, cat3, chars_of, find_at, index_of_at, same, string_of};

verus! {

/// The fields of `s` from position `i` on, as `c` separates them.
pub open spec fn split_from(s: Seq<char>, c: char, i: int) -> Seq<Seq<char>>
    decreases s.len() - i,
{
    let k = text::index_of(s, c, i);
    if 0 <= i <= k < s.len() {
        seq![s.subrange(i, k)] + split_from(s, c, k + 1)
    } else {
        seq![s.skip(i)]
    }
}

/// The fields of `s` as `c` separates them.
pub open spec fn split(s: Seq<char>, c: char) -> Seq<Seq<char>> {
    split_from(s, c, 0)
}

pub fn split_on(s: &str, c: char) -> (r: Vec<String>)
    ensures
        text::texts(r@) == split(s@, c),
        r@.len() > 0,
{
    let v = chars_of(s);
    let mut out: Vec<String> = Vec::new();
    let mut i: usize = 0;
    let mut k: usize = index_of_at(&v, c, 0);
    while k < v.len()
        invariant
            v@ == s@,
            i <= k <= v@.len(),
            k == text::index_of(v@, c, i as int),
            text::texts(out@) + split_from(v@, c, i as int) == split(v@, c),
        decreases v@.len() - k,
    {
        let ghost before = text::texts(out@);
        out.push(string_of(&v, i, k));
        assert(text::texts(out@) =~= before.push(v@.subrange(i as int, k as int)));
        assert(text::texts(out@) + split_from(v@, c, k + 1) =~= before + split_from(v@, c, i as int));
        i = k + 1;
        k = index_of_at(&v, c, i);
    }
    let ghost before = text::texts(out@);
    out.push(string_of(&v, i, v.len()));
    assert(text::texts(out@) =~= before.push(v@.skip(i as int)));
    out
}

/// A line without the carriage return that ends it.
pub open spec fn strip_cr(line: Seq<char>) -> Seq<char> {
    if line.len() > 0 && line.last() == '\r' {
        line.drop_last()
    } else {
        line
    }
}

/// The lines of `s` from position `i` on. A line ends with a line feed, or with a carriage
/// return and a line feed; what follows the last line feed is a line unless it is empty.
pub open spec fn lines_from(s: Seq<char>, i: int) -> Seq<Seq<char>>
    decreases s.len() - i,
{
    if i < 0 || i >= s.len() {
        seq![]
    } else {
        let k = text::index_of(s, '\n', i);
        if i <= k < s.len() {
            seq![strip_cr(s.subrange(i, k))] + lines_from(s, k + 1)
        } else {
            seq![s.skip(i)]
        }
    }
}

pub open spec fn lines(s: Seq<char>) -> Seq<Seq<char>> {
    lines_from(s, 0)
}

pub fn lines_of(s: &str) -> (r: Vec<String>)
    ensures
        text::texts(r@) == lines(s@),
{
    let v = chars_of(s);
    let n: usize = v.len();
    let mut out: Vec<String> = Vec::new();
    let mut i: usize = 0;
    while i < n
        invariant
            v@ == s@,
            n == v@.len(),
            i <= n,
            text::texts(out@) + lines_from(v@, i as int) == lines(v@),
        decreases n - i,
    {
        let k: usize = index_of_at(&v, '\n', i);
        let ghost before = text::texts(out@);
        if k < n {
            let line = if k > i && v[k - 1] == '\r' {
                string_of(&v, i, k - 1)
            } else {
                string_of(&v, i, k)
            };
            assert(line@ =~= strip_cr(v@.subrange(i as int, k as int)));
            out.push(line);
            assert(text::texts(out@) =~= before.push(line@));
            assert(text::texts(out@) + lines_from(v@, k + 1) =~= before + lines_from(v@, i as int));
            i = k + 1;
        } else {
            let line = string_of(&v, i, n);
            assert(line@ =~= v@.skip(i as int));
            out.push(line);
            assert(text::texts(out@) =~= before.push(line@));
            assert(text::texts(out@) + lines_from(v@, n as int) =~= before + lines_from(v@, i as int));
            i = n;
        }
    }
    assert(text::texts(out@) =~= text::texts(out@) + lines_from(v@, n as int));
    out
}

/// The texts of `parts` in a row, with `sep` between two of them.
pub open spec fn join(parts: Seq<Seq<char>>, sep: Seq<char>) -> Seq<char>
    decreases parts.len(),
{
    if parts.len() == 0 {
        seq![]
    } else if parts.len() == 1 {
        parts[0]
    } else {
        join(parts.drop_last(), sep) + sep + parts.last()
    }
}

pub fn joined(parts: &[String], sep: &str) -> (r: String)
    ensures
        r@ == join(text::texts(parts@), sep@),
{
    let mut out = String::new();
    let mut i: usize = 0;
    while i < parts.len()
        invariant
            i <= parts@.len(),
            out@ == join(text::texts(parts@).take(i as int), sep@),
        decreases parts@.len() - i,
    {
        if i > 0 {
            out.append(sep);
        }
        out.append(parts[i].as_str());
        i += 1;
        assert(text::texts(parts@).take(i as int).drop_last() =~= text::texts(parts@).take(i - 1));
        assert(text::texts(parts@).take(i as int).last() == parts@[i - 1]@);
        if i == 1 {
            assert(out@ =~= parts@[0]@);
        }
    }
    assert(text::texts(parts@).take(parts@.len() as int) =~= text::texts(parts@));
    out
}

/// `s` from position `i` on, with `to` for every `from` that is met from left to right.
pub open spec fn replace_from(s: Seq<char>, from: Seq<char>, to: Seq<char>, i: int) -> Seq<char>
    decreases s.len() - i,
{
    match text::find_from(s, from, i) {
        Some(k) => if 0 <= i <= k && k + from.len() <= s.len() && from.len() > 0 {
            s.subrange(i, k) + to + replace_from(s, from, to, k + from.len())
        } else {
            s.skip(i)
        },
        None => s.skip(i),
    }
}

/// `s` with `to` for every occurrence of `from`.
pub open spec fn replace(s: Seq<char>, from: Seq<char>, to: Seq<char>) -> Seq<char> {
    replace_from(s, from, to, 0)
}

/// `s` with `to` for the first occurrence of `from`.
pub open spec fn replace_first(s: Seq<char>, from: Seq<char>, to: Seq<char>) -> Seq<char> {
    match text::find(s, from) {
        Some(k) => s.take(k) + to + s.skip(k + from.len()),
        None => s,
    }
}

pub fn replaced(s: &str, from: &str, to: &str) -> (r: String)
    requires
        from@.len() > 0,
    ensures
        r@ == replace(s@, from@, to@),
{
    let v = chars_of(s);
    let w = chars_of(from);
    let mut out = String::new();
    let mut i: usize = 0;
    loop
        invariant
            v@ == s@,
            w@ == from@,
            from@.len() > 0,
            i <= v@.len(),
            out@ + replace_from(s@, from@, to@, i as int) == replace(s@, from@, to@),
        decreases v@.len() - i,
    {
        match find_at(&v, &w, i) {
            Some(k) => {
                let ghost before = out@;
                out.append(string_of(&v, i, k).as_str());
                out.append(to);
                assert(out@ + replace_from(s@, from@, to@, k + from@.len()) =~= before
                    + replace_from(s@, from@, to@, i as int));
                i = k + w.len();
            },
            None => {
                out.append(string_of(&v, i, v.len()).as_str());
                return out;
            },
        }
    }
}

pub fn replaced_first(s: &str, from: &str, to: &str) -> (r: String)
    ensures
        r@ == replace_first(s@, from@, to@),
{
    let v = chars_of(s);
    let w = chars_of(from);
    match find_at(&v, &w, 0) {
        Some(k) => {
            let mut out = string_of(&v, 0, k);
            out.append(to);
            out.append(string_of(&v, k + w.len(), v.len()).as_str());
            out
        },
        None => s.to_owned(),
    }
}

/// What stands before and behind the first `p` of `s`.
pub open spec fn split_once(s: Seq<char>, p: Seq<char>) -> Option<(Seq<char>, Seq<char>)> {
    match text::find(s, p) {
        Some(k) => Some((s.take(k), s.skip(k + p.len()))),
        None => None,
    }
}

/// The model of an optional pair of strings.
pub open spec fn opt_pair(o: Option<(String, String)>) -> Option<(Seq<char>, Seq<char>)> {
    match o {
        Some((a, b)) => Some((a@, b@)),
        None => None,
    }
}

pub fn split_at_first(s: &str, p: &str) -> (r: Option<(String, String)>)
    ensures
        opt_pair(r) == split_once(s@, p@),
{
    let v = chars_of(s);
    let w = chars_of(p);
    match find_at(&v, &w, 0) {
        Some(k) => Some((string_of(&v, 0, k), string_of(&v, k + w.len(), v.len()))),
        None => None,
    }
}

/// The first `n` characters of `s`, all of them where it has no more.
pub open spec fn cap(s: Seq<char>, n: int) -> Seq<char> {
    if s.len() <= n {
        s
    } else {
        s.take(n)
    }
}

pub fn capped(s: &str, n: usize) -> (r: String)
    ensures
        r@ == cap(s@, n as int),
{
    let v = chars_of(s);
    if v.len() <= n {
        s.to_owned()
    } else {
        string_of(&v, 0, n)
    }
}

pub fn has_text(v: &[String], s: &str) -> (r: bool)
    ensures
        r == text::texts(v@).contains(s@),
{
    let mut i: usize = 0;
    while i < v.len()
        invariant
            i <= v@.len(),
            forall|k: int| 0 <= k < i ==> v@[k]@ != s@,
        decreases v@.len() - i,
    {
        if same(v[i].as_str(), s) {
            assert(text::texts(v@)[i as int] == s@);
            return true;
        }
        i += 1;
    }
    false
}

/// `v` with `s` at its end, unless `v` holds it already.
pub open spec fn add_unique(v: Seq<Seq<char>>, s: Seq<char>) -> Seq<Seq<char>> {
    if v.contains(s) {
        v
    } else {
        v.push(s)
    }
}

pub fn push_unique(v: &mut Vec<String>, s: &str)
    ensures
        text::texts(final(v)@) == add_unique(text::texts(old(v)@), s@),
{
    if !has_text(v, s) {
        v.push(s.to_owned());
        assert(text::texts(v@) =~= text::texts(old(v)@).push(s@));
    }
}

/// `v` with each of `items` at its end that it does not hold yet.
pub open spec fn add_all_unique(v: Seq<Seq<char>>, items: Seq<Seq<char>>) -> Seq<Seq<char>>
    decreases items.len(),
{
    if items.len() == 0 {
        v
    } else {
        add_unique(add_all_unique(v, items.drop_last()), items.last())
    }
}

pub fn push_all_unique(v: &mut Vec<String>, items: &[String])
    ensures
        text::texts(final(v)@) == add_all_unique(text::texts(old(v)@), text::texts(items@)),
{
    let mut i: usize = 0;
    while i < items.len()
        invariant
            i <= items@.len(),
            text::texts(v@) == add_all_unique(
                text::texts(old(v)@),
                text::texts(items@).take(i as int),
            ),
        decreases items@.len() - i,
    {
        push_unique(v, items[i].as_str());
        i += 1;
        assert(text::texts(items@).take(i as int).drop_last() =~= text::texts(items@).take(i - 1));
    }
    assert(text::texts(items@).take(items@.len() as int) =~= text::texts(items@));
}

/// Each of the texts without the white space around it.
pub open spec fn trim_each(v: Seq<Seq<char>>) -> Seq<Seq<char>> {
    Seq::new(v.len(), |i: int| text::trim(v[i]))
}

pub fn trimmed_each(v: &[String]) -> (r: Vec<String>)
    ensures
        text::texts(r@) == trim_each(text::texts(v@)),
{
    let mut out: Vec<String> = Vec::new();
    let mut i: usize = 0;
    while i < v.len()
        invariant
            i <= v@.len(),
            out@.len() == i,
            forall|k: int| 0 <= k < i ==> (#[trigger] out@[k])@ == text::trim(v@[k]@),
        decreases v@.len() - i,
    {
        out.push(text::trimmed(v[i].as_str()));
        i += 1;
    }
    assert(text::texts(out@) =~= trim_each(text::texts(v@)));
    out
}

/// The texts of `items` in order, each at its first place only.
pub open spec fn unique(items: Seq<Seq<char>>) -> Seq<Seq<char>>
    decreases items.len(),
{
    if items.len() == 0 {
        seq![]
    } else {
        add_unique(unique(items.drop_last()), items.last())
    }
}

pub fn unique_texts(items: &[String]) -> (r: Vec<String>)
    ensures
        text::texts(r@) == unique(text::texts(items@)),
{
    let mut out: Vec<String> = Vec::new();
    let mut i: usize = 0;
    while i < items.len()
        invariant
            i <= items@.len(),
            text::texts(out@) == unique(text::texts(items@).take(i as int)),
        decreases items@.len() - i,
    {
        push_unique(&mut out, items[i].as_str());
        i += 1;
        assert(text::texts(items@).take(i as int).drop_last() =~= text::texts(items@).take(i - 1));
    }
    assert(text::texts(items@).take(items@.len() as int) =~= text::texts(items@));
    out
}

pub fn copy_texts(v: &[String]) -> (r: Vec<String>)
    ensures
        text::texts(r@) == text::texts(v@),
{
    let mut out: Vec<String> = Vec::new();
    let mut i: usize = 0;
    while i < v.len()
        invariant
            i <= v@.len(),
            text::texts(out@) == text::texts(v@).take(i as int),
        decreases v@.len() - i,
    {
        out.push(v[i].as_str().to_owned());
        i += 1;
        assert(text::texts(v@).take(i as int) =~= text::texts(v@).take(i - 1).push(v@[i - 1]@));
        assert(text::texts(out@) =~= text::texts(v@).take(i - 1).push(v@[i - 1]@));
    }
    out
}

/// The order of texts: by the first character in which they differ, a proper prefix first.
pub open spec fn text_lt(a: Seq<char>, b: Seq<char>) -> bool
    decreases a.len(),
{
    if b.len() == 0 {
        false
    } else if a.len() == 0 {
        true
    } else if a[0] == b[0] {
        text_lt(a.drop_first(), b.drop_first())
    } else {
        a[0] < b[0]
    }
}

pub fn less(a: &str, b: &str) -> (r: bool)
    ensures
        r == text_lt(a@, b@),
{
    let v = chars_of(a);
    let w = chars_of(b);
    let mut i: usize = 0;
    assert(a@.skip(0) =~= a@);
    assert(b@.skip(0) =~= b@);
    loop
        invariant
            v@ == a@,
            w@ == b@,
            i <= v@.len(),
            i <= w@.len(),
            text_lt(a@, b@) == text_lt(a@.skip(i as int), b@.skip(i as int)),
        decreases v@.len() - i,
    {
        if i == w.len() {
            return false;
        }
        if i == v.len() {
            return true;
        }
        if v[i] != w[i] {
            return v[i] < w[i];
        }
        assert(a@.skip(i as int).drop_first() =~= a@.skip(i + 1));
        assert(b@.skip(i as int).drop_first() =~= b@.skip(i + 1));
        i += 1;
    }
}

/// Each text comes before those behind it, so that none stands twice.
pub open spec fn ascending(v: Seq<Seq<char>>) -> bool {
    forall|i: int, j: int| 0 <= i < j < v.len() ==> text_lt(#[trigger] v[i], #[trigger] v[j])
}

/// `set`, ordered and without repetition, with `s` in its place.
pub open spec fn sorted_insert(set: Seq<Seq<char>>, s: Seq<char>) -> Seq<Seq<char>>
    decreases set.len(),
{
    if set.len() == 0 {
        seq![s]
    } else if set.last() == s {
        set
    } else if text_lt(set.last(), s) {
        set.push(s)
    } else {
        sorted_insert(set.drop_last(), s).push(set.last())
    }
}

/// The texts of `items`, ordered and each once.
pub open spec fn sorted_set(items: Seq<Seq<char>>) -> Seq<Seq<char>>
    decreases items.len(),
{
    if items.len() == 0 {
        seq![]
    } else {
        sorted_insert(sorted_set(items.drop_last()), items.last())
    }
}

pub fn insert_sorted(set: &mut Vec<String>, s: &str)
    ensures
        text::texts(final(set)@) == sorted_insert(text::texts(old(set)@), s@),
{
    let ghost all = text::texts(set@);
    let mut i: usize = set.len();
    assert(all.take(i as int) =~= all);
    assert(all.skip(i as int) =~= seq![]);
    while i > 0
        invariant
            i <= set@.len(),
            set@ == old(set)@,
            all == text::texts(set@),
            sorted_insert(all, s@) == sorted_insert(all.take(i as int), s@) + all.skip(i as int),
        decreases i,
    {
        if same(set[i - 1].as_str(), s) {
            assert(all.take(i as int).last() == s@);
            assert(all.take(i as int) + all.skip(i as int) =~= all);
            return;
        }
        if less(set[i - 1].as_str(), s) {
            assert(all.take(i as int).last() == set@[i - 1]@);
            set.insert(i, s.to_owned());
            assert(text::texts(set@) =~= all.take(i as int).push(s@) + all.skip(i as int));
            return;
        }
        assert(all.take(i as int).drop_last() =~= all.take(i - 1));
        assert(sorted_insert(all.take(i as int), s@) == sorted_insert(all.take(i - 1), s@).push(
            all[i - 1],
        ));
        assert(sorted_insert(all.take(i - 1), s@).push(all[i - 1]) + all.skip(i as int)
            =~= sorted_insert(all.take(i - 1), s@) + all.skip(i - 1));
        i -= 1;
    }
    set.insert(0, s.to_owned());
    assert(all.take(0) =~= seq![]);
    assert(text::texts(set@) =~= seq![s@] + all.skip(0));
}

pub fn sorted_texts(items: &[String]) -> (r: Vec<String>)
    ensures
        text::texts(r@) == sorted_set(text::texts(items@)),
{
    let mut out: Vec<String> = Vec::new();
    let mut i: usize = 0;
    while i < items.len()
        invariant
            i <= items@.len(),
            text::texts(out@) == sorted_set(text::texts(items@).take(i as int)),
        decreases items@.len() - i,
    {
        insert_sorted(&mut out, items[i].as_str());
        i += 1;
        assert(text::texts(items@).take(i as int).drop_last() =~= text::texts(items@).take(i - 1));
    }
    assert(text::texts(items@).take(items@.len() as int) =~= text::texts(items@));
    out
}

pub open spec fn digit(d: nat) -> char {
    (('0' as u32) + d) as char
}

/// The decimal notation of `n`.
pub open spec fn decimal(n: nat) -> Seq<char>
    decreases n,
{
    if n < 10 {
        seq![digit(n)]
    } else {
        decimal(n / 10).push(digit(n % 10))
    }
}

pub fn decimal_of(n: u64) -> (r: String)
    ensures
        r@ == decimal(n as nat),
    decreases n,
{
    let mut s = if n < 10 {
        String::new()
    } else {
        decimal_of(n / 10)
    };
    let d: u8 = (n % 10) as u8;
    let c: char = (48u8 + d) as char;
    s.push(c);
    s
}

/// The decimal notation of `n`, with zeros before it up to three digits.
pub open spec fn decimal3(n: nat) -> Seq<char> {
    if n < 10 {
        "00"@ + decimal(n)
    } else if n < 100 {
        "0"@ + decimal(n)
    } else {
        decimal(n)
    }
}

pub fn decimal3_of(n: u64) -> (r: String)
    ensures
        r@ == decimal3(n as nat),
{
    let d = decimal_of(n);
    if n < 10 {
        cat2("00", d.as_str())
    } else if n < 100 {
        cat2("0", d.as_str())
    } else {
        d
    }
}

/// The decimal notation of a signed number.
pub open spec fn signed_decimal(n: int) -> Seq<char> {
    if n < 0 {
        "-"@ + decimal((-n) as nat)
    } else {
        decimal(n as nat)
    }
}

pub fn signed_decimal_of(n: i32) -> (r: String)
    ensures
        r@ == signed_decimal(n as int),
{
    if n < 0 {
        let m: i64 = -(n as i64);
        cat2("-", decimal_of(m as u64).as_str())
    } else {
        decimal_of(n as u64)
    }
}

/// The path `name` seen from the directory `base`.
pub open spec fn path_join(base: Seq<char>, name: Seq<char>) -> Seq<char> {
    if name.len() > 0 && name[0] == '/' {
        name
    } else if base.len() == 0 || base.last() == '/' {
        base + name
    } else {
        base + "/"@ + name
    }
}

pub fn path_of(base: &str, name: &str) -> (r: String)
    ensures
        r@ == path_join(base@, name@),
{
    let b = chars_of(base);
    let n = chars_of(name);
    if n.len() > 0 && n[0] == '/' {
        name.to_owned()
    } else if b.len() == 0 || b[b.len() - 1] == '/' {
        cat2(base, name)
    } else {
        cat3(base, "/", name)
    }
}

/// Each text of a list behind `prefix`.
pub open spec fn prefix_each(prefix: Seq<char>, v: Seq<Seq<char>>) -> Seq<Seq<char>> {
    Seq::new(v.len(), |i: int| prefix + v[i])
}

} // verus!
