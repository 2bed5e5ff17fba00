//! The order of version numbers.
use std::cmp::Ordering;
use vstd::prelude::*;

use crate::outside;
use crate::pieces;
use crate::pieces::less;
use crate::set_laws;
use crate::text;
use crate::text::{ascii_digit, ascii_letter, chars_of, same};

verus! {

/// A part of a version: a run of digits, or a run of letters.
#[derive(Debug, Clone, PartialEq, Eq)]
pub enum VersionToken {
    Number(u64),
    Text(String),
}

/// The model of a [`VersionToken`].
#[verifier::ext_equal]
pub enum TokenModel {
    Number(u64),
    Text(Seq<char>),
}

impl View for VersionToken {
    type V = TokenModel;

    open spec fn view(&self) -> TokenModel {
        match *self {
            VersionToken::Number(n) => TokenModel::Number(n),
            VersionToken::Text(s) => TokenModel::Text(s@),
        }
    }
}

pub open spec fn token_models(v: Seq<VersionToken>) -> Seq<TokenModel> {
    Seq::new(v.len(), |i: int| v[i]@)
}

/// A part that counts as much as none.
pub open spec fn zero_like(token: TokenModel) -> bool {
    match token {
        TokenModel::Number(n) => n == 0,
        TokenModel::Text(s) => s.len() == 0,
    }
}

impl VersionToken {
    pub fn is_zero_like(&self) -> (r: bool)
        ensures
            r == zero_like(self@),
    {
        match self {
            VersionToken::Number(n) => *n == 0,
            VersionToken::Text(s) => text::is_empty(s.as_str()),
        }
    }
}

/// The number that digits stand for.
pub open spec fn digits_value(s: Seq<char>) -> nat
    decreases s.len(),
{
    if s.len() == 0 {
        0
    } else {
        digits_value(s.drop_last()) * 10 + (s.last() as u32 - '0' as u32) as nat
    }
}

/// The number of a run of digits; one that does not fit counts as 0.
pub open spec fn number_of(s: Seq<char>) -> u64 {
    if digits_value(s) <= u64::MAX {
        digits_value(s) as u64
    } else {
        0
    }
}

/// The end of the digits at `i`.
pub open spec fn digits_end(s: Seq<char>, i: int) -> int
    decreases s.len() - i,
{
    if 0 <= i < s.len() && text::is_ascii_digit(s[i]) {
        digits_end(s, i + 1)
    } else {
        i
    }
}

/// The end of the letters at `i`.
pub open spec fn letters_end(s: Seq<char>, i: int) -> int
    decreases s.len() - i,
{
    if 0 <= i < s.len() && text::is_ascii_letter(s[i]) {
        letters_end(s, i + 1)
    } else {
        i
    }
}

pub open spec fn lower_each(s: Seq<char>) -> Seq<char> {
    Seq::new(s.len(), |i: int| outside::ascii_lower_char(s[i]))
}

proof fn lemma_digits_end(s: Seq<char>, i: int)
    requires
        0 <= i <= s.len(),
    ensures
        i <= digits_end(s, i) <= s.len(),
        i < s.len() && text::is_ascii_digit(s[i]) ==> i < digits_end(s, i),
    decreases s.len() - i,
{
    if i < s.len() && text::is_ascii_digit(s[i]) {
        lemma_digits_end(s, i + 1);
    }
}

proof fn lemma_letters_end(s: Seq<char>, i: int)
    requires
        0 <= i <= s.len(),
    ensures
        i <= letters_end(s, i) <= s.len(),
        i < s.len() && text::is_ascii_letter(s[i]) ==> i < letters_end(s, i),
    decreases s.len() - i,
{
    if i < s.len() && text::is_ascii_letter(s[i]) {
        lemma_letters_end(s, i + 1);
    }
}

/// The parts of a version from `i` on. What is neither digit nor letter separates them.
pub open spec fn tokens_from(s: Seq<char>, i: int) -> Seq<TokenModel>
    decreases s.len() - i,
{
    if i < 0 || i >= s.len() {
        seq![]
    } else if text::is_ascii_digit(s[i]) {
        let e = digits_end(s, i);
        if i < e <= s.len() {
            seq![TokenModel::Number(number_of(s.subrange(i, e)))] + tokens_from(s, e)
        } else {
            seq![]
        }
    } else if text::is_ascii_letter(s[i]) {
        let e = letters_end(s, i);
        if i < e <= s.len() {
            seq![TokenModel::Text(lower_each(s.subrange(i, e)))] + tokens_from(s, e)
        } else {
            seq![]
        }
    } else {
        tokens_from(s, i + 1)
    }
}

/// The number of the digits from `i` on, and where they end.
fn number_at(v: &[char], i: usize) -> (r: (u64, usize))
    requires
        i <= v@.len(),
    ensures
        r.1 == digits_end(v@, i as int),
        i <= r.1 <= v@.len(),
        r.0 == number_of(v@.subrange(i as int, r.1 as int)),
{
    let mut n: u64 = 0;
    let mut fits = true;
    let mut k: usize = i;
    assert(v@.subrange(i as int, i as int) =~= seq![]);
    while k < v.len() && ascii_digit(v[k])
        invariant
            i <= k <= v@.len(),
            digits_end(v@, i as int) == digits_end(v@, k as int),
            fits ==> n == digits_value(v@.subrange(i as int, k as int)),
            !fits ==> digits_value(v@.subrange(i as int, k as int)) > u64::MAX,
        decreases v@.len() - k,
    {
        let d: u64 = v[k] as u64 - '0' as u64;
        assert(v@.subrange(i as int, k + 1).drop_last() =~= v@.subrange(i as int, k as int));
        if fits {
            if n > (u64::MAX - d) / 10 {
                fits = false;
            } else {
                n = n * 10 + d;
            }
        }
        k += 1;
    }
    if fits {
        (n, k)
    } else {
        (0, k)
    }
}

/// The letters from `i` on in lower case, and where they end.
fn letters_at(v: &[char], i: usize) -> (r: (String, usize))
    requires
        i <= v@.len(),
    ensures
        r.1 == letters_end(v@, i as int),
        i <= r.1 <= v@.len(),
        r.0@ == lower_each(v@.subrange(i as int, r.1 as int)),
{
    let mut s = String::new();
    let mut k: usize = i;
    assert(s@ =~= lower_each(v@.subrange(i as int, i as int)));
    while k < v.len() && ascii_letter(v[k])
        invariant
            i <= k <= v@.len(),
            letters_end(v@, i as int) == letters_end(v@, k as int),
            s@ == lower_each(v@.subrange(i as int, k as int)),
        decreases v@.len() - k,
    {
        let c = v[k];
        let lower: char = if 'A' <= c && c <= 'Z' {
            (c as u8 + 32u8) as char
        } else {
            c
        };
        assert(lower == outside::ascii_lower_char(c));
        s.push(lower);
        k += 1;
        assert(s@ =~= lower_each(v@.subrange(i as int, k as int)));
    }
    (s, k)
}

pub fn version_tokens(version: &str) -> (r: Vec<VersionToken>)
    ensures
        token_models(r@) == tokens_from(version@, 0),
{
    let v = chars_of(version);
    let mut tokens: Vec<VersionToken> = Vec::new();
    let mut i: usize = 0;
    assert(token_models(tokens@) + tokens_from(version@, 0) =~= tokens_from(version@, 0));
    while i < v.len()
        invariant
            v@ == version@,
            i <= v@.len(),
            token_models(tokens@) + tokens_from(version@, i as int) == tokens_from(version@, 0),
        decreases v@.len() - i,
    {
        let ghost before = token_models(tokens@);
        let ghost at = i as int;
        if ascii_digit(v[i]) {
            proof {
                lemma_digits_end(v@, i as int);
            }
            let (n, e) = number_at(&v, i);
            tokens.push(VersionToken::Number(n));
            i = e;
            assert(token_models(tokens@) =~= before.push(TokenModel::Number(n)));
            assert(token_models(tokens@) + tokens_from(version@, i as int) =~= before
                + tokens_from(version@, at));
        } else if ascii_letter(v[i]) {
            proof {
                lemma_letters_end(v@, i as int);
            }
            let (s, e) = letters_at(&v, i);
            let ghost shown = s@;
            tokens.push(VersionToken::Text(s));
            i = e;
            assert(token_models(tokens@) =~= before.push(TokenModel::Text(shown)));
            assert(token_models(tokens@) + tokens_from(version@, i as int) =~= before
                + tokens_from(version@, at));
        } else {
            i += 1;
        }
    }
    assert(token_models(tokens@) + tokens_from(version@, i as int) =~= token_models(tokens@));
    tokens
}

pub open spec fn number_order(a: int, b: int) -> int {
    if a < b {
        -1
    } else if a == b {
        0
    } else {
        1
    }
}

pub open spec fn text_order(a: Seq<char>, b: Seq<char>) -> int {
    if a == b {
        0
    } else if pieces::text_lt(a, b) {
        -1
    } else {
        1
    }
}

/// How two parts in the same place compare, negative where the first is less. A number is more
/// than letters, and a part that is missing is less than one that counts.
pub open spec fn token_order(a: Option<TokenModel>, b: Option<TokenModel>) -> int {
    match (a, b) {
        (Some(TokenModel::Number(m)), Some(TokenModel::Number(n))) => number_order(
            m as int,
            n as int,
        ),
        (Some(TokenModel::Text(s)), Some(TokenModel::Text(t))) => text_order(s, t),
        (Some(TokenModel::Number(_)), Some(TokenModel::Text(_))) => 1,
        (Some(TokenModel::Text(_)), Some(TokenModel::Number(_))) => -1,
        (Some(t), None) => if zero_like(t) {
            0
        } else {
            1
        },
        (None, Some(t)) => if zero_like(t) {
            0
        } else {
            -1
        },
        (None, None) => 0,
    }
}

pub open spec fn part(v: Seq<TokenModel>, i: int) -> Option<TokenModel> {
    if 0 <= i < v.len() {
        Some(v[i])
    } else {
        None
    }
}

/// How two versions compare in their parts from `i` on: by the first that differs.
pub open spec fn order_from(a: Seq<TokenModel>, b: Seq<TokenModel>, i: int) -> int
    decreases a.len() + b.len() - i,
{
    if i < 0 || i >= a.len() + b.len() {
        0
    } else if token_order(part(a, i), part(b, i)) != 0 {
        token_order(part(a, i), part(b, i))
    } else {
        order_from(a, b, i + 1)
    }
}

/// How two versions compare, negative where the first is less.
pub open spec fn version_order(a: Seq<char>, b: Seq<char>) -> int {
    order_from(tokens_from(a, 0), tokens_from(b, 0), 0)
}

proof fn lemma_order_past_end(a: Seq<TokenModel>, b: Seq<TokenModel>, i: int)
    requires
        i >= a.len(),
        i >= b.len(),
    ensures
        order_from(a, b, i) == 0,
    decreases a.len() + b.len() - i,
{
    if i < a.len() + b.len() {
        lemma_order_past_end(a, b, i + 1);
    }
}

fn token_sign(a: &VersionToken, b: &VersionToken) -> (r: i8)
    ensures
        r == token_order(Some(a@), Some(b@)),
{
    match (a, b) {
        (VersionToken::Number(m), VersionToken::Number(n)) => if *m < *n {
            -1
        } else if *m == *n {
            0
        } else {
            1
        },
        (VersionToken::Text(s), VersionToken::Text(t)) => if same(s.as_str(), t.as_str()) {
            0
        } else if less(s.as_str(), t.as_str()) {
            -1
        } else {
            1
        },
        (VersionToken::Number(_), VersionToken::Text(_)) => 1,
        (VersionToken::Text(_), VersionToken::Number(_)) => -1,
    }
}

fn version_sign(left: &str, right: &str) -> (r: i8)
    ensures
        r == version_order(left@, right@),
        -1 <= r <= 1,
{
    let a = version_tokens(left);
    let b = version_tokens(right);
    let ghost x = token_models(a@);
    let ghost y = token_models(b@);
    let mut i: usize = 0;
    while i < a.len() || i < b.len()
        invariant
            x == token_models(a@),
            y == token_models(b@),
            x == tokens_from(left@, 0),
            y == tokens_from(right@, 0),
            i <= a@.len() || i <= b@.len(),
            order_from(x, y, 0) == order_from(x, y, i as int),
        decreases a@.len() + b@.len() - i,
    {
        let sign: i8 = if i < a.len() && i < b.len() {
            token_sign(&a[i], &b[i])
        } else if i < a.len() {
            if a[i].is_zero_like() {
                0
            } else {
                1
            }
        } else {
            if b[i].is_zero_like() {
                0
            } else {
                -1
            }
        };
        assert(sign == token_order(part(x, i as int), part(y, i as int)));
        if sign != 0 {
            return sign;
        }
        i += 1;
    }
    proof {
        lemma_order_past_end(x, y, i as int);
    }
    0
}

/// How two versions compare, part by part.
pub fn compare_python_versions(left: &str, right: &str) -> (r: Ordering)
    ensures
        match r {
            Ordering::Less => version_order(left@, right@) < 0,
            Ordering::Equal => version_order(left@, right@) == 0,
            Ordering::Greater => version_order(left@, right@) > 0,
        },
{
    let sign: i8 = version_sign(left, right);
    if sign < 0 {
        Ordering::Less
    } else if sign == 0 {
        Ordering::Equal
    } else {
        Ordering::Greater
    }
}

pub fn is_newer_python_version(candidate: &str, current: &str) -> (r: bool)
    ensures
        r == (version_order(candidate@, current@) > 0),
{
    matches!(compare_python_versions(candidate, current), Ordering::Greater)
}

proof fn lemma_order_swapped(a: Seq<TokenModel>, b: Seq<TokenModel>, i: int)
    ensures
        order_from(a, b, i) == -order_from(b, a, i),
    decreases a.len() + b.len() - i,
{
    if 0 <= i < a.len() + b.len() {
        match (part(a, i), part(b, i)) {
            (Some(TokenModel::Text(s)), Some(TokenModel::Text(t))) => {
                set_laws::lemma_text_order_total(s, t);
            },
            _ => {},
        }
        lemma_order_swapped(a, b, i + 1);
    }
}

/// Comparing two versions the other way round gives the opposite order.
pub proof fn law_version_order_is_antisymmetric(a: Seq<char>, b: Seq<char>)
    ensures
        version_order(a, b) == -version_order(b, a),
{
    lemma_order_swapped(tokens_from(a, 0), tokens_from(b, 0), 0);
}

/// No version is newer than itself.
pub proof fn law_no_version_is_newer_than_itself(a: Seq<char>)
    ensures
        version_order(a, a) == 0,
{
    law_version_order_is_antisymmetric(a, a);
}

proof fn lemma_tokens_append(a: Seq<char>, i: int)
    requires
        0 <= i <= a.len(),
    ensures
        tokens_from(a + ".0"@, i) == tokens_from(a, i).push(TokenModel::Number(0)),
    decreases a.len() - i,
{
    reveal_strlit(".0");
    let s = a + ".0"@;
    if i == a.len() {
        assert(s[i] == '.');
        assert(s[i + 1] == '0');
        reveal_with_fuel(digits_end, 3);
        reveal_with_fuel(tokens_from, 3);
        reveal_with_fuel(digits_value, 2);
        assert(digits_end(s, i + 1) == i + 2);
        let zero = s.subrange(i + 1, i + 2);
        assert(zero.drop_last().len() == 0);
        assert(digits_value(zero) == 0);
        assert(tokens_from(s, i + 1) =~= seq![TokenModel::Number(0)]);
        assert(tokens_from(a, i).push(TokenModel::Number(0)) =~= seq![TokenModel::Number(0)]);
    } else {
        assert(s[i] == a[i]);
        lemma_digits_end(a, i);
        lemma_letters_end(a, i);
        lemma_ends_append(a, i);
        if text::is_ascii_digit(a[i]) {
            let e = digits_end(a, i);
            lemma_tokens_append(a, e);
            assert(s.subrange(i, e) =~= a.subrange(i, e));
        } else if text::is_ascii_letter(a[i]) {
            let e = letters_end(a, i);
            lemma_tokens_append(a, e);
            assert(s.subrange(i, e) =~= a.subrange(i, e));
        } else {
            lemma_tokens_append(a, i + 1);
        }
        assert(tokens_from(s, i) =~= tokens_from(a, i).push(TokenModel::Number(0)));
    }
}

proof fn lemma_ends_append(a: Seq<char>, i: int)
    requires
        0 <= i <= a.len(),
    ensures
        digits_end(a + ".0"@, i) == digits_end(a, i),
        letters_end(a + ".0"@, i) == letters_end(a, i),
    decreases a.len() - i,
{
    reveal_strlit(".0");
    let s = a + ".0"@;
    if i < a.len() {
        assert(s[i] == a[i]);
        lemma_ends_append(a, i + 1);
    } else {
        assert(s[i] == '.');
    }
}

proof fn lemma_order_of_longer(v: Seq<TokenModel>, t: TokenModel, i: int)
    requires
        zero_like(t),
        0 <= i,
    ensures
        order_from(v, v.push(t), i) == 0,
    decreases 2 * v.len() + 1 - i,
{
    if i < 2 * v.len() + 1 {
        lemma_order_of_longer(v, t, i + 1);
    }
}

/// A zero behind a version makes no difference.
pub proof fn law_trailing_zero_counts_nothing(a: Seq<char>)
    ensures
        version_order(a, a + ".0"@) == 0,
        version_order(a + ".0"@, a) == 0,
{
    lemma_tokens_append(a, 0);
    lemma_order_of_longer(tokens_from(a, 0), TokenModel::Number(0), 0);
    law_version_order_is_antisymmetric(a, a + ".0"@);
}

} // verus!
