//! Decimal numerals: the integers that `str::parse::<u64>` accepts and the
//! text that `str::parse::<f64>` accepts as a floating-point literal.

use vstd::prelude::*;

verus! {

/// An ASCII decimal digit.
pub open spec fn is_digit(c: char) -> bool {
    '0' as u32 <= c as u32 <= '9' as u32
}

/// The value of an ASCII decimal digit.
pub open spec fn digit_value(c: char) -> nat {
    (c as u32 - '0' as u32) as nat
}

/// Every character of `s` is an ASCII decimal digit.
pub open spec fn all_digits(s: Seq<char>) -> bool {
    forall|i: int| 0 <= i < s.len() ==> is_digit(#[trigger] s[i])
}

/// The value of the decimal numeral `s` (most significant digit first).
pub open spec fn decimal_value(s: Seq<char>) -> nat
    decreases s.len(),
{
    if s.len() == 0 {
        0
    } else {
        decimal_value(s.drop_last()) * 10 + digit_value(s.last())
    }
}

/// `s` without one leading `+`.
pub open spec fn without_plus(s: Seq<char>) -> Seq<char> {
    if s.len() > 0 && s[0] == '+' {
        s.drop_first()
    } else {
        s
    }
}

/// What `str::parse::<u64>` gives for `s`: an optional `+`, then one or more
/// ASCII digits whose value fits in 64 bits; anything else is rejected.
pub open spec fn parse_u64_spec(s: Seq<char>) -> Option<u64> {
    let d = without_plus(s);
    if d.len() > 0 && all_digits(d) && decimal_value(d) <= u64::MAX {
        Some(decimal_value(d) as u64)
    } else {
        None
    }
}

/// A numeral never has a smaller value than any of its prefixes.
pub proof fn lemma_decimal_value_prefix(s: Seq<char>, k: int)
    requires
        all_digits(s),
        0 <= k <= s.len(),
    ensures
        decimal_value(s.take(k)) <= decimal_value(s),
    decreases s.len(),
{
    if k < s.len() {
        assert(s.drop_last().take(k) =~= s.take(k));
        lemma_decimal_value_prefix(s.drop_last(), k);
    } else {
        assert(s.take(k) =~= s);
    }
}

/// Empty text, a lone `+` and text with a non-digit (other than one leading
/// `+`) are no `u64`; one digit is its own value.
pub proof fn lemma_parse_u64_basics(s: Seq<char>, c: char)
    ensures
        parse_u64_spec(Seq::empty()) is None,
        parse_u64_spec(seq!['+']) is None,
        is_digit(c) ==> parse_u64_spec(seq![c]) == Some((c as u32 - '0' as u32) as u64),
        (exists|i: int| 0 <= i < s.len() && !is_digit(#[trigger] s[i]) && (i > 0 || s[0] != '+'))
            ==> parse_u64_spec(s) is None,
{
    assert(seq!['+'].drop_first().len() == 0);
    if is_digit(c) {
        assert(seq![c].drop_last().len() == 0);
        assert(decimal_value(seq![c].drop_last()) == 0);
    }
    if exists|i: int| 0 <= i < s.len() && !is_digit(#[trigger] s[i]) && (i > 0 || s[0] != '+') {
        let i = choose|i: int| 0 <= i < s.len() && !is_digit(#[trigger] s[i]) && (i > 0 || s[0] != '+');
        let d = without_plus(s);
        if s.len() > 0 && s[0] == '+' {
            assert(d[i - 1] == s[i]);
        } else {
            assert(d[i] == s[i]);
        }
    }
}

/// One more digit multiplies the value by ten and adds the digit, as long as
/// the result fits in 64 bits; otherwise the numeral overflows.
pub proof fn lemma_parse_u64_push_digit(d: Seq<char>, c: char)
    requires
        d.len() > 0,
        all_digits(d),
        is_digit(c),
    ensures
        parse_u64_spec(d.push(c)) is Some <==> (parse_u64_spec(d) is Some && parse_u64_spec(d).unwrap()
            * 10 + (c as u32 - '0' as u32) <= u64::MAX),
        parse_u64_spec(d.push(c)) is Some ==> parse_u64_spec(d.push(c)).unwrap() == parse_u64_spec(
            d,
        ).unwrap() * 10 + (c as u32 - '0' as u32),
{
    let e = d.push(c);
    assert(is_digit(d[0]));
    assert(e[0] == d[0]);
    assert(without_plus(d) == d);
    assert(without_plus(e) == e);
    assert(e.drop_last() =~= d);
    assert(all_digits(e)) by {
        assert forall|i: int| 0 <= i < e.len() implies is_digit(#[trigger] e[i]) by {
            if i < d.len() {
                assert(e[i] == d[i]);
            }
        }
    }
}

/// A leading `+` is read over, once.
pub proof fn lemma_parse_u64_plus(d: Seq<char>)
    requires
        d.len() > 0 ==> d[0] != '+',
    ensures
        parse_u64_spec(seq!['+'] + d) == parse_u64_spec(d),
{
    assert((seq!['+'] + d).drop_first() =~= d);
    if d.len() == 0 {
        assert(seq!['+'] + d =~= seq!['+']);
    }
}

/// Parses `s` as an unsigned 64-bit decimal integer, as `str::parse::<u64>` does.
pub fn parse_u64(s: &str) -> (r: Option<u64>)
    ensures
        r == parse_u64_spec(s@),
{
    let n = s.unicode_len();
    let mut start: usize = 0;
    if n > 0 && s.get_char(0) == '+' {
        start = 1;
    }
    let ghost d = s@.subrange(start as int, n as int);
    assert(d =~= without_plus(s@));
    if start == n {
        return None;
    }
    let mut acc: u64 = 0;
    let mut i: usize = start;
    while i < n
        invariant
            n == s@.len(),
            start <= i <= n,
            d == s@.subrange(start as int, n as int),
            d == without_plus(s@),
            d.len() > 0,
            all_digits(d.take(i - start)),
            acc == decimal_value(d.take(i - start)),
        decreases n - i,
    {
        let c = s.get_char(i);
        assert(c == d[i - start]);
        let u = c as u32;
        if u < 48 || u > 57 {
            assert(!is_digit(d[i - start]));
            return None;
        }
        let dv = (u - 48) as u64;
        let ghost next = d.take(i - start + 1);
        assert(next.drop_last() =~= d.take(i - start));
        assert(decimal_value(next) == acc * 10 + dv);
        match acc.checked_mul(10) {
            None => {
                proof {
                    if all_digits(d) {
                        lemma_decimal_value_prefix(d, i - start + 1);
                    }
                }
                return None;
            },
            Some(m) => match m.checked_add(dv) {
                None => {
                    proof {
                        if all_digits(d) {
                            lemma_decimal_value_prefix(d, i - start + 1);
                        }
                    }
                    return None;
                },
                Some(v) => {
                    acc = v;
                },
            },
        }
        assert(all_digits(next)) by {
            assert forall|k: int| 0 <= k < next.len() implies is_digit(#[trigger] next[k]) by {
                if k < i - start {
                    assert(next[k] == d.take(i - start)[k]);
                }
            }
        }
        i = i + 1;
    }
    assert(d.take(n - start) =~= d);
    Some(acc)
}

/// A leading sign of a floating-point literal.
pub open spec fn is_sign(c: char) -> bool {
    c == '+' || c == '-'
}

/// `s` without one leading sign.
pub open spec fn without_sign(s: Seq<char>) -> Seq<char> {
    if s.len() > 0 && is_sign(s[0]) {
        s.drop_first()
    } else {
        s
    }
}

/// `c` is the lower-case ASCII letter `l` in either case.
pub open spec fn same_letter(c: char, l: char) -> bool {
    c == l || c as u32 + 32 == l as u32
}

/// `t` spells `inf`, `infinity` or `nan`, in any mix of ASCII cases.
pub open spec fn is_special_word(t: Seq<char>) -> bool {
    ||| t.len() == 3 && same_letter(t[0], 'i') && same_letter(t[1], 'n') && same_letter(t[2], 'f')
    ||| t.len() == 3 && same_letter(t[0], 'n') && same_letter(t[1], 'a') && same_letter(t[2], 'n')
    ||| t.len() == 8 && same_letter(t[0], 'i') && same_letter(t[1], 'n') && same_letter(t[2], 'f')
        && same_letter(t[3], 'i') && same_letter(t[4], 'n') && same_letter(t[5], 'i')
        && same_letter(t[6], 't') && same_letter(t[7], 'y')
}

/// A digit or a decimal point.
pub open spec fn is_digit_or_dot(c: char) -> bool {
    is_digit(c) || c == '.'
}

/// The number of decimal points in `s`.
pub open spec fn count_dots(s: Seq<char>) -> nat
    decreases s.len(),
{
    if s.len() == 0 {
        0
    } else {
        count_dots(s.drop_last()) + if s.last() == '.' {
            1nat
        } else {
            0nat
        }
    }
}

/// `s` holds at least one digit.
pub open spec fn has_digit(s: Seq<char>) -> bool {
    exists|i: int| 0 <= i < s.len() && is_digit(#[trigger] s[i])
}

/// `Digit+ | Digit+ '.' Digit* | Digit* '.' Digit+`: digits with at most one
/// decimal point and at least one digit.
pub open spec fn is_mantissa(m: Seq<char>) -> bool {
    &&& forall|i: int| 0 <= i < m.len() ==> is_digit_or_dot(#[trigger] m[i])
    &&& count_dots(m) <= 1
    &&& has_digit(m)
}

/// The exponent marker.
pub open spec fn is_exp_mark(c: char) -> bool {
    c == 'e' || c == 'E'
}

/// `Sign? Digit+`: the part of an exponent after its marker.
pub open spec fn is_exponent(x: Seq<char>) -> bool {
    let y = without_sign(x);
    y.len() > 0 && all_digits(y)
}

/// The index of the first exponent marker of `t`, or its length if it has none.
pub open spec fn exp_index(t: Seq<char>) -> nat
    decreases t.len(),
{
    if t.len() == 0 || is_exp_mark(t[0]) {
        0
    } else {
        1 + exp_index(t.drop_first())
    }
}

/// `Number ::= ( Digit+ | Digit+ '.' Digit* | Digit* '.' Digit+ ) Exp?`
/// with `Exp ::= 'e' Sign? Digit+` (the marker in either case).
pub open spec fn is_number(t: Seq<char>) -> bool {
    let k = exp_index(t) as int;
    is_mantissa(t.take(k)) && (k == t.len() || is_exponent(t.skip(k + 1)))
}

/// The text that `str::parse::<f64>` accepts, as its documentation gives the
/// grammar: `Sign? ( 'inf' | 'infinity' | 'nan' | Number )`, case-insensitive,
/// with no surrounding white space.
pub open spec fn is_float_literal(s: Seq<char>) -> bool {
    let t = without_sign(s);
    is_special_word(t) || is_number(t)
}

/// A sign in front of a literal without one keeps it a literal and a
/// non-literal a non-literal.
pub proof fn lemma_float_literal_sign(c: char, t: Seq<char>)
    requires
        is_sign(c),
        t.len() > 0 ==> !is_sign(t[0]),
    ensures
        is_float_literal(seq![c] + t) == is_float_literal(t),
{
    assert((seq![c] + t).drop_first() =~= t);
    assert(without_sign(t) == t);
}

/// One or more digits, with at most one decimal point among or around them,
/// make a literal; empty text, a lone point and two points do not.
pub proof fn lemma_float_literal_decimals(t: Seq<char>)
    requires
        forall|i: int| 0 <= i < t.len() ==> is_digit_or_dot(#[trigger] t[i]),
    ensures
        is_float_literal(t) <==> (has_digit(t) && count_dots(t) <= 1),
{
    if t.len() > 0 {
        assert(is_digit_or_dot(t[0]));
    }
    assert(without_sign(t) == t);
    assert forall|j: int| 0 <= j < t.len() implies !is_exp_mark(#[trigger] t[j]) by {
        assert(is_digit_or_dot(t[j]));
    }
    lemma_exp_index(t, t.len() as int);
    assert(t.take(t.len() as int) =~= t);
    if is_special_word(t) {
        assert(is_digit_or_dot(t[0]));
    }
}

proof fn lemma_exp_index(t: Seq<char>, k: int)
    requires
        0 <= k <= t.len(),
        forall|j: int| 0 <= j < k ==> !is_exp_mark(#[trigger] t[j]),
        k == t.len() || is_exp_mark(t[k]),
    ensures
        exp_index(t) == k,
    decreases k,
{
    if k > 0 {
        assert(!is_exp_mark(t[0]));
        assert forall|j: int| 0 <= j < k - 1 implies !is_exp_mark(#[trigger] t.drop_first()[j]) by {
            assert(t.drop_first()[j] == t[j + 1]);
        }
        lemma_exp_index(t.drop_first(), k - 1);
    }
}

proof fn lemma_exp_index_bound(t: Seq<char>)
    ensures
        exp_index(t) <= t.len(),
    decreases t.len(),
{
    if t.len() > 0 && !is_exp_mark(t[0]) {
        lemma_exp_index_bound(t.drop_first());
    }
}

proof fn lemma_exp_index_after(t: Seq<char>, m: int)
    requires
        0 <= m < t.len(),
        forall|j: int| 0 <= j <= m ==> !is_exp_mark(#[trigger] t[j]),
    ensures
        m < exp_index(t) <= t.len(),
    decreases m,
{
    lemma_exp_index_bound(t);
    assert(!is_exp_mark(t[0]));
    if m > 0 {
        assert forall|j: int| 0 <= j <= m - 1 implies !is_exp_mark(#[trigger] t.drop_first()[j]) by {
            assert(t.drop_first()[j] == t[j + 1]);
        }
        lemma_exp_index_after(t.drop_first(), m - 1);
    }
}

proof fn lemma_count_dots_prefix(s: Seq<char>, j: int)
    requires
        0 <= j <= s.len(),
    ensures
        count_dots(s.take(j)) <= count_dots(s),
    decreases s.len(),
{
    if j < s.len() {
        assert(s.drop_last().take(j) =~= s.take(j));
        lemma_count_dots_prefix(s.drop_last(), j);
    } else {
        assert(s.take(j) =~= s);
    }
}

fn letter_ci(c: char, l: char) -> (r: bool)
    requires
        'a' as u32 <= l as u32 <= 'z' as u32,
    ensures
        r == same_letter(c, l),
{
    c == l || c as u32 + 32 == l as u32
}

fn special_word(s: &str, start: usize) -> (r: bool)
    requires
        start <= s@.len(),
    ensures
        r == is_special_word(s@.subrange(start as int, s@.len() as int)),
{
    let n = s.unicode_len();
    let len = n - start;
    if len == 3 {
        let a = s.get_char(start);
        let b = s.get_char(start + 1);
        let c = s.get_char(start + 2);
        (letter_ci(a, 'i') && letter_ci(b, 'n') && letter_ci(c, 'f')) || (letter_ci(a, 'n')
            && letter_ci(b, 'a') && letter_ci(c, 'n'))
    } else if len == 8 {
        letter_ci(s.get_char(start), 'i') && letter_ci(s.get_char(start + 1), 'n') && letter_ci(
            s.get_char(start + 2),
            'f',
        ) && letter_ci(s.get_char(start + 3), 'i') && letter_ci(s.get_char(start + 4), 'n')
            && letter_ci(s.get_char(start + 5), 'i') && letter_ci(s.get_char(start + 6), 't')
            && letter_ci(s.get_char(start + 7), 'y')
    } else {
        false
    }
}

fn exponent_from(s: &str, from: usize) -> (r: bool)
    requires
        from <= s@.len(),
    ensures
        r == is_exponent(s@.subrange(from as int, s@.len() as int)),
{
    let n = s.unicode_len();
    let ghost x = s@.subrange(from as int, n as int);
    let mut j = from;
    if j < n && (s.get_char(j) == '+' || s.get_char(j) == '-') {
        j = j + 1;
    }
    let ghost y = s@.subrange(j as int, n as int);
    assert(y =~= without_sign(x));
    if j == n {
        return false;
    }
    let mut i = j;
    while i < n
        invariant
            n == s@.len(),
            j <= i <= n,
            y == s@.subrange(j as int, n as int),
            x == s@.subrange(from as int, n as int),
            y == without_sign(x),
            forall|k: int| j <= k < i ==> is_digit(#[trigger] s@[k]),
        decreases n - i,
    {
        let u = s.get_char(i) as u32;
        if u < 48 || u > 57 {
            assert(y[i - j] == s@[i as int]);
            assert(!is_digit(y[i - j]));
            return false;
        }
        i = i + 1;
    }
    assert forall|k: int| 0 <= k < y.len() implies is_digit(#[trigger] y[k]) by {
        assert(y[k] == s@[j + k]);
    }
    true
}

/// Whether `s` is text that `str::parse::<f64>` accepts.
pub fn float_literal(s: &str) -> (r: bool)
    ensures
        r == is_float_literal(s@),
{
    let n = s.unicode_len();
    let mut start: usize = 0;
    if n > 0 && (s.get_char(0) == '+' || s.get_char(0) == '-') {
        start = 1;
    }
    let ghost t = s@.subrange(start as int, n as int);
    assert(t =~= without_sign(s@));
    if special_word(s, start) {
        return true;
    }
    let mut i: usize = start;
    let mut dots: usize = 0;
    let mut seen = false;
    while i < n && !(s.get_char(i) == 'e' || s.get_char(i) == 'E')
        invariant
            n == s@.len(),
            start <= i <= n,
            t == s@.subrange(start as int, n as int),
            t == without_sign(s@),
            !is_special_word(t),
            forall|j: int| 0 <= j < i - start ==> !is_exp_mark(#[trigger] t[j]),
            forall|j: int| 0 <= j < i - start ==> is_digit_or_dot(#[trigger] t[j]),
            dots <= 1,
            dots == count_dots(t.take(i - start)),
            seen == has_digit(t.take(i - start)),
        decreases n - i,
    {
        let c = s.get_char(i);
        let m = i - start;
        assert(!is_exp_mark(t[m as int]));
        assert(c == t[m as int]);
        let ghost pre = t.take(m as int);
        let ghost next = t.take(m + 1);
        assert(next.drop_last() =~= pre);
        let u = c as u32;
        if c == '.' {
            if dots == 1 {
                proof {
                    lemma_exp_index_after(t, m as int);
                    let k = exp_index(t) as int;
                    assert(t.take(k).take(m + 1) =~= next);
                    lemma_count_dots_prefix(t.take(k), m + 1);
                }
                return false;
            }
            dots = dots + 1;
        } else if 48 <= u && u <= 57 {
            seen = true;
            assert(is_digit(next[m as int]));
        } else {
            proof {
                lemma_exp_index_after(t, m as int);
                let k = exp_index(t) as int;
                assert(t.take(k)[m as int] == t[m as int]);
            }
            return false;
        }
        assert(has_digit(next) == (has_digit(pre) || is_digit(c))) by {
            if has_digit(pre) {
                let w = choose|w: int| 0 <= w < pre.len() && is_digit(#[trigger] pre[w]);
                assert(next[w] == pre[w]);
            }
            if has_digit(next) && !is_digit(c) {
                let w = choose|w: int| 0 <= w < next.len() && is_digit(#[trigger] next[w]);
                assert(pre[w] == next[w]);
            }
        }
        i = i + 1;
    }
    let k = i - start;
    proof {
        lemma_exp_index(t, k as int);
        assert forall|j: int| 0 <= j < t.take(k as int).len() implies is_digit_or_dot(
            #[trigger] t.take(k as int)[j],
        ) by {
            assert(t.take(k as int)[j] == t[j]);
        }
    }
    if !seen {
        return false;
    }
    if i == n {
        assert(k == t.len());
        return true;
    }
    let r = exponent_from(s, i + 1);
    assert(t.skip(k + 1) =~= s@.subrange(i + 1, n as int));
    r
}

} // verus!
