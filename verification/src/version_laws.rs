//! Laws of the order of versions.
use vstd::prelude::*;

use crate::outside;
use crate::pieces;
use crate::text;
use crate::versions;
use crate::versions::TokenModel;

verus! {

/// A character that separates the parts of a version.
pub open spec fn is_separator(c: char) -> bool {
    !text::is_ascii_digit(c) && !text::is_ascii_letter(c)
}

proof fn lemma_digits_end(s: Seq<char>, i: int)
    requires
        0 <= i <= s.len(),
    ensures
        i <= versions::digits_end(s, i) <= s.len(),
        i < s.len() && text::is_ascii_digit(s[i]) ==> i < versions::digits_end(s, i),
    decreases s.len() - i,
{
    if i < s.len() && text::is_ascii_digit(s[i]) {
        lemma_digits_end(s, i + 1);
    }
}

proof fn lemma_letters_end(s: Seq<char>, i: int)
    requires
        0 <= i <= s.len(),
    ensures
        i <= versions::letters_end(s, i) <= s.len(),
        i < s.len() && text::is_ascii_letter(s[i]) ==> i < versions::letters_end(s, i),
    decreases s.len() - i,
{
    if i < s.len() && text::is_ascii_letter(s[i]) {
        lemma_letters_end(s, i + 1);
    }
}

/// Runs in the first part of a text end where they end without the rest, behind a separator.
proof fn lemma_ends_before(a: Seq<char>, c: char, b: Seq<char>, i: int)
    requires
        is_separator(c),
        0 <= i <= a.len(),
    ensures
        versions::digits_end(a + seq![c] + b, i) == versions::digits_end(a, i),
        versions::letters_end(a + seq![c] + b, i) == versions::letters_end(a, i),
    decreases a.len() - i,
{
    let s = a + seq![c] + b;
    if i < a.len() {
        assert(s[i] == a[i]);
        lemma_ends_before(a, c, b, i + 1);
    } else {
        assert(s[i] == c);
    }
}

proof fn lemma_ends_behind(a: Seq<char>, b: Seq<char>, i: int)
    requires
        0 <= i <= b.len(),
    ensures
        versions::digits_end(a + b, a.len() + i) == a.len() + versions::digits_end(b, i),
        versions::letters_end(a + b, a.len() + i) == a.len() + versions::letters_end(b, i),
    decreases b.len() - i,
{
    if i < b.len() {
        assert((a + b)[a.len() + i] == b[i]);
        lemma_ends_behind(a, b, i + 1);
    }
}

proof fn lemma_tokens_behind(a: Seq<char>, b: Seq<char>, i: int)
    requires
        0 <= i <= b.len(),
    ensures
        versions::tokens_from(a + b, a.len() + i) == versions::tokens_from(b, i),
    decreases b.len() - i,
{
    let s = a + b;
    if i < b.len() {
        assert(s[a.len() + i] == b[i]);
        lemma_ends_behind(a, b, i);
        lemma_digits_end(b, i);
        lemma_letters_end(b, i);
        if text::is_ascii_digit(b[i]) {
            let e = versions::digits_end(b, i);
            lemma_tokens_behind(a, b, e);
            assert(s.subrange(a.len() + i, a.len() + e) =~= b.subrange(i, e));
        } else if text::is_ascii_letter(b[i]) {
            let e = versions::letters_end(b, i);
            lemma_tokens_behind(a, b, e);
            assert(s.subrange(a.len() + i, a.len() + e) =~= b.subrange(i, e));
        } else {
            lemma_tokens_behind(a, b, i + 1);
        }
    }
}

/// The parts of two versions with a separator between them are those of both.
proof fn lemma_tokens_join(a: Seq<char>, c: char, b: Seq<char>, i: int)
    requires
        is_separator(c),
        0 <= i <= a.len(),
    ensures
        versions::tokens_from(a + seq![c] + b, i) == versions::tokens_from(a, i)
            + versions::tokens_from(b, 0),
    decreases a.len() - i,
{
    let s = a + seq![c] + b;
    let rest = versions::tokens_from(b, 0);
    if i == a.len() {
        assert(s[i] == c);
        assert(s =~= (a + seq![c]) + b);
        lemma_tokens_behind(a + seq![c], b, 0);
        assert(versions::tokens_from(s, i) == versions::tokens_from(s, i + 1));
        assert(versions::tokens_from(a, i) + rest =~= rest);
    } else {
        assert(s[i] == a[i]);
        lemma_ends_before(a, c, b, i);
        lemma_digits_end(a, i);
        lemma_letters_end(a, i);
        if text::is_ascii_digit(a[i]) {
            let e = versions::digits_end(a, i);
            lemma_tokens_join(a, c, b, e);
            assert(s.subrange(i, e) =~= a.subrange(i, e));
            lemma_digits_end(s, i);
        } else if text::is_ascii_letter(a[i]) {
            let e = versions::letters_end(a, i);
            lemma_tokens_join(a, c, b, e);
            assert(s.subrange(i, e) =~= a.subrange(i, e));
            lemma_letters_end(s, i);
        } else {
            lemma_tokens_join(a, c, b, i + 1);
        }
        assert(versions::tokens_from(s, i) =~= versions::tokens_from(a, i) + rest);
    }
}

/// Where neither version has a part any more they do not differ.
proof fn lemma_order_behind(a: Seq<TokenModel>, b: Seq<TokenModel>, i: int)
    requires
        a.len() <= i,
        b.len() <= i,
    ensures
        versions::order_from(a, b, i) == 0,
    decreases a.len() + b.len() - i,
{
    if i < a.len() + b.len() {
        lemma_order_behind(a, b, i + 1);
    }
}

proof fn lemma_order_shift(p: Seq<TokenModel>, x: Seq<TokenModel>, y: Seq<TokenModel>, i: int)
    requires
        0 <= i,
    ensures
        versions::order_from(p + x, p + y, p.len() + i) == versions::order_from(x, y, i),
    decreases x.len() + y.len() - i,
{
    if i >= x.len() + y.len() {
        lemma_order_behind(p + x, p + y, p.len() + i);
    } else {
        lemma_order_shift(p, x, y, i + 1);
        assert(versions::part(p + x, p.len() + i) == versions::part(x, i));
        assert(versions::part(p + y, p.len() + i) == versions::part(y, i));
    }
}

proof fn lemma_order_same(p: Seq<TokenModel>, x: Seq<TokenModel>, y: Seq<TokenModel>, i: int)
    requires
        0 <= i <= p.len(),
    ensures
        versions::order_from(p + x, p + y, i) == versions::order_from(x, y, 0),
    decreases p.len() - i,
{
    if i == p.len() {
        lemma_order_shift(p, x, y, 0);
    } else {
        lemma_order_same(p, x, y, i + 1);
        assert((p + x)[i] == p[i]);
        assert((p + y)[i] == p[i]);
    }
}

/// What two versions have in common at their start does not count.
pub proof fn law_common_start_does_not_count(
    a: Seq<char>,
    c: char,
    x: Seq<char>,
    y: Seq<char>,
)
    requires
        is_separator(c),
    ensures
        versions::version_order(a + seq![c] + x, a + seq![c] + y) == versions::version_order(x, y),
{
    lemma_tokens_join(a, c, x, 0);
    lemma_tokens_join(a, c, y, 0);
    lemma_order_same(
        versions::tokens_from(a, 0),
        versions::tokens_from(x, 0),
        versions::tokens_from(y, 0),
        0,
    );
}

/// Which separator stands between two parts of a version does not matter.
pub proof fn law_separators_do_not_matter(
    a: Seq<char>,
    c: char,
    d: char,
    b: Seq<char>,
    other: Seq<char>,
)
    requires
        is_separator(c),
        is_separator(d),
    ensures
        versions::version_order(a + seq![c] + b, other) == versions::version_order(
            a + seq![d] + b,
            other,
        ),
        versions::version_order(other, a + seq![c] + b) == versions::version_order(
            other,
            a + seq![d] + b,
        ),
{
    lemma_tokens_join(a, c, b, 0);
    lemma_tokens_join(a, d, b, 0);
}

pub proof fn lemma_decimal(n: nat)
    ensures
        pieces::decimal(n).len() > 0,
        forall|i: int|
            0 <= i < pieces::decimal(n).len() ==> text::is_ascii_digit(
                #[trigger] pieces::decimal(n)[i],
            ),
        versions::digits_value(pieces::decimal(n)) == n,
    decreases n,
{
    let s = pieces::decimal(n);
    if n >= 10 {
        lemma_decimal(n / 10);
        let before = pieces::decimal(n / 10);
        assert(s.drop_last() =~= before);
        assert(s.last() == pieces::digit(n % 10));
        assert forall|i: int| 0 <= i < s.len() implies text::is_ascii_digit(#[trigger] s[i]) by {
            if i < before.len() {
                assert(s[i] == before[i]);
            }
        }
    } else {
        assert(s.drop_last() =~= Seq::<char>::empty());
        assert(versions::digits_value(s.drop_last()) == 0);
        assert(s.last() == pieces::digit(n));
    }
}

proof fn lemma_all_digits(s: Seq<char>, i: int)
    requires
        0 <= i <= s.len(),
        forall|k: int| 0 <= k < s.len() ==> text::is_ascii_digit(#[trigger] s[k]),
    ensures
        versions::digits_end(s, i) == s.len(),
    decreases s.len() - i,
{
    if i < s.len() {
        lemma_all_digits(s, i + 1);
    }
}

proof fn lemma_all_letters(s: Seq<char>, i: int)
    requires
        0 <= i <= s.len(),
        forall|k: int| 0 <= k < s.len() ==> text::is_ascii_letter(#[trigger] s[k]),
    ensures
        versions::letters_end(s, i) == s.len(),
    decreases s.len() - i,
{
    if i < s.len() {
        lemma_all_letters(s, i + 1);
    }
}

proof fn lemma_number_token(n: nat)
    requires
        n <= u64::MAX,
    ensures
        versions::tokens_from(pieces::decimal(n), 0) == seq![TokenModel::Number(n as u64)],
{
    let s = pieces::decimal(n);
    lemma_decimal(n);
    lemma_all_digits(s, 0);
    assert(s.subrange(0, s.len() as int) =~= s);
    assert(versions::tokens_from(s, s.len() as int) =~= Seq::<TokenModel>::empty());
    assert(versions::tokens_from(s, 0) =~= seq![TokenModel::Number(n as u64)]);
}

/// Letters, none of them a capital.
pub open spec fn is_small_word(s: Seq<char>) -> bool {
    s.len() > 0 && forall|i: int| 0 <= i < s.len() ==> 'a' <= #[trigger] s[i] <= 'z'
}

proof fn lemma_word_token(w: Seq<char>)
    requires
        is_small_word(w),
    ensures
        versions::tokens_from(w, 0) == seq![TokenModel::Text(w)],
{
    lemma_all_letters(w, 0);
    assert(w.subrange(0, w.len() as int) =~= w);
    assert(!text::is_ascii_digit(w[0]));
    assert(versions::lower_each(w) =~= w);
    assert(versions::tokens_from(w, w.len() as int) =~= Seq::<TokenModel>::empty());
    assert(versions::tokens_from(w, 0) =~= seq![TokenModel::Text(w)]);
}

proof fn lemma_order_one(a: TokenModel, b: TokenModel, x: Seq<TokenModel>, y: Seq<TokenModel>)
    requires
        versions::token_order(Some(a), Some(b)) != 0,
    ensures
        versions::order_from(seq![a] + x, seq![b] + y, 0) == versions::token_order(
            Some(a),
            Some(b),
        ),
{
    assert((seq![a] + x)[0] == a);
    assert((seq![b] + y)[0] == b);
}

/// A version with a further number that is not zero is newer, whatever it ends with.
pub proof fn law_further_number_is_newer(a: Seq<char>, n: nat)
    requires
        0 < n <= u64::MAX,
    ensures
        versions::version_order(a + "."@ + pieces::decimal(n), a) > 0,
        versions::version_order(a, a + "."@ + pieces::decimal(n)) < 0,
{
    reveal_strlit(".");
    assert("."@ =~= seq!['.']);
    let v = versions::tokens_from(a, 0);
    let none = Seq::<TokenModel>::empty();
    let one = seq![TokenModel::Number(n as u64)];
    lemma_tokens_join(a, '.', pieces::decimal(n), 0);
    lemma_number_token(n);
    assert(v + none =~= v);
    lemma_order_same(v, one, none, 0);
    lemma_order_same(v, none, one, 0);
    assert(versions::part(one, 0) == Some(one[0]));
    assert(versions::part(none, 0) is None);
}

/// A version with a further word is newer.
pub proof fn law_further_word_is_newer(a: Seq<char>, w: Seq<char>)
    requires
        is_small_word(w),
    ensures
        versions::version_order(a + "."@ + w, a) > 0,
        versions::version_order(a, a + "."@ + w) < 0,
{
    reveal_strlit(".");
    assert("."@ =~= seq!['.']);
    let v = versions::tokens_from(a, 0);
    let none = Seq::<TokenModel>::empty();
    let one = seq![TokenModel::Text(w)];
    lemma_tokens_join(a, '.', w, 0);
    lemma_word_token(w);
    assert(v + none =~= v);
    lemma_order_same(v, one, none, 0);
    lemma_order_same(v, none, one, 0);
    assert(versions::part(one, 0) == Some(one[0]));
    assert(versions::part(none, 0) is None);
}

/// Of two versions that differ first in a number the one with the larger number is newer, whatever
/// follows.
pub proof fn law_first_number_decides(
    a: Seq<char>,
    m: nat,
    n: nat,
    x: Seq<char>,
    y: Seq<char>,
)
    requires
        m < n <= u64::MAX,
    ensures
        ({
            let low = a + "."@ + (pieces::decimal(m) + "."@ + x);
            let high = a + "."@ + (pieces::decimal(n) + "."@ + y);
            versions::version_order(low, high) < 0 && versions::version_order(high, low) > 0
        }),
        versions::version_order(pieces::decimal(m) + "."@ + x, pieces::decimal(n) + "."@ + y) < 0,
        versions::version_order(pieces::decimal(n) + "."@ + y, pieces::decimal(m) + "."@ + x) > 0,
{
    reveal_strlit(".");
    assert("."@ =~= seq!['.']);
    let low = pieces::decimal(m) + "."@ + x;
    let high = pieces::decimal(n) + "."@ + y;
    lemma_tokens_join(pieces::decimal(m), '.', x, 0);
    lemma_tokens_join(pieces::decimal(n), '.', y, 0);
    lemma_number_token(m);
    lemma_number_token(n);
    let p = TokenModel::Number(m as u64);
    let q = TokenModel::Number(n as u64);
    lemma_order_one(p, q, versions::tokens_from(x, 0), versions::tokens_from(y, 0));
    lemma_order_one(q, p, versions::tokens_from(y, 0), versions::tokens_from(x, 0));
    law_common_start_does_not_count(a, '.', low, high);
    law_common_start_does_not_count(a, '.', high, low);
}

/// Of two versions that differ first in that one has a number and the other a word, the one with
/// the number is newer.
pub proof fn law_number_outranks_word(
    a: Seq<char>,
    n: nat,
    w: Seq<char>,
    x: Seq<char>,
    y: Seq<char>,
)
    requires
        n <= u64::MAX,
        is_small_word(w),
    ensures
        ({
            let number = a + "."@ + (pieces::decimal(n) + "."@ + x);
            let word = a + "."@ + (w + "."@ + y);
            versions::version_order(number, word) > 0 && versions::version_order(word, number) < 0
        }),
{
    reveal_strlit(".");
    assert("."@ =~= seq!['.']);
    let number = pieces::decimal(n) + "."@ + x;
    let word = w + "."@ + y;
    lemma_tokens_join(pieces::decimal(n), '.', x, 0);
    lemma_tokens_join(w, '.', y, 0);
    lemma_number_token(n);
    lemma_word_token(w);
    let p = TokenModel::Number(n as u64);
    let q = TokenModel::Text(w);
    lemma_order_one(p, q, versions::tokens_from(x, 0), versions::tokens_from(y, 0));
    lemma_order_one(q, p, versions::tokens_from(y, 0), versions::tokens_from(x, 0));
    law_common_start_does_not_count(a, '.', number, word);
    law_common_start_does_not_count(a, '.', word, number);
}

/// Of two versions that differ first in a word the one whose word comes first is older.
pub proof fn law_words_go_by_the_alphabet(
    a: Seq<char>,
    v: Seq<char>,
    w: Seq<char>,
    x: Seq<char>,
    y: Seq<char>,
)
    requires
        is_small_word(v),
        is_small_word(w),
        pieces::text_lt(v, w),
        v != w,
    ensures
        versions::version_order(a + "."@ + (v + "."@ + x), a + "."@ + (w + "."@ + y)) < 0,
{
    reveal_strlit(".");
    assert("."@ =~= seq!['.']);
    lemma_tokens_join(v, '.', x, 0);
    lemma_tokens_join(w, '.', y, 0);
    lemma_word_token(v);
    lemma_word_token(w);
    lemma_order_one(
        TokenModel::Text(v),
        TokenModel::Text(w),
        versions::tokens_from(x, 0),
        versions::tokens_from(y, 0),
    );
    law_common_start_does_not_count(a, '.', v + "."@ + x, w + "."@ + y);
}

/// The texts are the same but for the case of their letters.
pub open spec fn same_but_case(s: Seq<char>, t: Seq<char>) -> bool {
    &&& s.len() == t.len()
    &&& forall|i: int|
        #![trigger s[i]]
        #![trigger t[i]]
        0 <= i < s.len() ==> same_letter(s[i], t[i])
}

/// The characters are the same but for their case.
pub open spec fn same_letter(c: char, d: char) -> bool {
    ||| c == d
    ||| 'A' <= c <= 'Z' && d as u32 == c as u32 + 32
    ||| 'A' <= d <= 'Z' && c as u32 == d as u32 + 32
}

proof fn lemma_same_sort(c: char, d: char)
    requires
        same_letter(c, d),
    ensures
        text::is_ascii_digit(c) == text::is_ascii_digit(d),
        text::is_ascii_letter(c) == text::is_ascii_letter(d),
        text::is_ascii_digit(c) ==> c == d,
        outside::ascii_lower_char(c) == outside::ascii_lower_char(d),
{
}

proof fn lemma_case_tokens(s: Seq<char>, t: Seq<char>, i: int)
    requires
        same_but_case(s, t),
        0 <= i <= s.len(),
    ensures
        versions::digits_end(s, i) == versions::digits_end(t, i),
        versions::letters_end(s, i) == versions::letters_end(t, i),
        versions::tokens_from(s, i) == versions::tokens_from(t, i),
    decreases s.len() - i,
{
    if i < s.len() {
        lemma_same_sort(s[i], t[i]);
        lemma_case_tokens(s, t, i + 1);
        lemma_digits_end(s, i);
        lemma_letters_end(s, i);
        if text::is_ascii_digit(s[i]) {
            let e = versions::digits_end(s, i);
            lemma_case_tokens(s, t, e);
            lemma_digit_run(s, i, i);
            assert forall|k: int| i <= k < e implies s[k] == t[k] by {
                assert(text::is_ascii_digit(s[k]));
                lemma_same_sort(s[k], t[k]);
            }
            assert(s.subrange(i, e) =~= t.subrange(i, e));
        } else if text::is_ascii_letter(s[i]) {
            let e = versions::letters_end(s, i);
            lemma_case_tokens(s, t, e);
            let x = s.subrange(i, e);
            let y = t.subrange(i, e);
            assert forall|k: int| 0 <= k < x.len() implies outside::ascii_lower_char(
                #[trigger] x[k],
            ) == outside::ascii_lower_char(y[k]) by {
                assert(x[k] == s[i + k] && y[k] == t[i + k]);
                lemma_same_sort(s[i + k], t[i + k]);
            }
            assert(versions::lower_each(x) =~= versions::lower_each(y));
        }
    }
}

proof fn lemma_digit_run(s: Seq<char>, i: int, k: int)
    requires
        0 <= i <= s.len(),
    ensures
        forall|j: int| i <= j < versions::digits_end(s, i) ==> text::is_ascii_digit(#[trigger] s[j]),
    decreases s.len() - i,
{
    if i < s.len() && text::is_ascii_digit(s[i]) {
        lemma_digit_run(s, i + 1, k);
    }
}

/// The case of letters does not count.
pub proof fn law_case_does_not_count(s: Seq<char>, t: Seq<char>, other: Seq<char>)
    requires
        same_but_case(s, t),
    ensures
        versions::version_order(s, t) == 0,
        versions::version_order(s, other) == versions::version_order(t, other),
{
    lemma_case_tokens(s, t, 0);
    versions::law_no_version_is_newer_than_itself(s);
}

} // verus!
