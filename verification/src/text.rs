//! Character-level text handling: cutting a string at a separator, reading and
//! writing unsigned decimal numbers, and comparing strings.
//!
//! Every contract speaks of a string through its view, the sequence of its
//! characters.

use vstd::prelude::*;

verus! {

// ---------------------------------------------------------------------------
// Cutting at a separator
// ---------------------------------------------------------------------------

/// The number of characters of `s` that stand before the first `sep`;
/// `s.len()` where `s` holds no `sep`.
pub open spec fn prefix_len(s: Seq<char>, sep: char) -> nat
    decreases s.len(),
{
    if s.len() == 0 || s[0] == sep {
        0
    } else {
        1 + prefix_len(s.drop_first(), sep)
    }
}

/// `s` cut at its first `sep`: what stands before it and what stands after it.
/// `None` where `s` holds no `sep`.
pub open spec fn split_once_spec(s: Seq<char>, sep: char) -> Option<(Seq<char>, Seq<char>)> {
    let n = prefix_len(s, sep) as int;
    if n < s.len() {
        Some((s.take(n), s.skip(n + 1)))
    } else {
        None
    }
}

/// The piece number `k`, counted from 0, of the pieces into which the
/// occurrences of `sep` cut `s`. `None` where there are `k` pieces or fewer.
pub open spec fn field(s: Seq<char>, sep: char, k: nat) -> Option<Seq<char>>
    decreases k,
{
    if k == 0 {
        Some(s.take(prefix_len(s, sep) as int))
    } else {
        match split_once_spec(s, sep) {
            Some((_, rest)) => field(rest, sep, (k - 1) as nat),
            None => None,
        }
    }
}

/// `prefix_len(s, sep)` is the one position `i` with no `sep` before it that
/// either holds `sep` or is the end of `s`.
pub proof fn lemma_prefix_len_is(s: Seq<char>, sep: char, i: int)
    requires
        0 <= i <= s.len(),
        forall|j: int| 0 <= j < i ==> s[j] != sep,
        i < s.len() ==> s[i] == sep,
    ensures
        prefix_len(s, sep) == i,
    decreases i,
{
    if i > 0 {
        let rest = s.drop_first();
        assert forall|j: int| 0 <= j < i - 1 implies rest[j] != sep by {
            assert(rest[j] == s[j + 1]);
        }
        lemma_prefix_len_is(rest, sep, i - 1);
    }
}

/// Collects the characters of `s`, in order.
pub fn chars_of(s: &str) -> (v: Vec<char>)
    ensures
        v@ == s@,
{
    let mut v: Vec<char> = Vec::new();
    for c in it: s.chars()
        invariant
            v@ == it.seq().take(it.index() as int),
            it.seq() == s@,
    {
        v.push(c);
    }
    v
}

/// The position of the first `sep` in `chars`, or its length where it holds none.
pub fn find_char(chars: &Vec<char>, sep: char) -> (i: usize)
    ensures
        i == prefix_len(chars@, sep),
        i <= chars.len(),
{
    let n = chars.len();
    let mut i: usize = 0;
    while i < n && chars[i] != sep
        invariant
            n == chars.len(),
            i <= n,
            forall|j: int| 0 <= j < i ==> chars@[j] != sep,
        decreases n - i,
    {
        i += 1;
    }
    proof {
        lemma_prefix_len_is(chars@, sep, i as int);
    }
    i
}

/// Cuts `s` at its first `sep`.
pub fn split_once<'a>(s: &'a str, sep: char) -> (r: Option<(&'a str, &'a str)>)
    ensures
        match r {
            Some((head, tail)) => split_once_spec(s@, sep) == Some((head@, tail@)),
            None => split_once_spec(s@, sep) is None,
        },
{
    let chars = chars_of(s);
    let n = chars.len();
    let i = find_char(&chars, sep);
    if i < n {
        Some((s.substring_char(0, i), s.substring_char(i + 1, n)))
    } else {
        None
    }
}

/// The first three of the pieces into which the occurrences of `sep` cut `s`.
/// `None` where there are fewer than three.
pub fn first_three_fields<'a>(s: &'a str, sep: char) -> (r: Option<(&'a str, &'a str, &'a str)>)
    ensures
        match r {
            Some((a, b, c)) => {
                &&& field(s@, sep, 0) == Some(a@)
                &&& field(s@, sep, 1) == Some(b@)
                &&& field(s@, sep, 2) == Some(c@)
            },
            None => field(s@, sep, 2) is None,
        },
{
    reveal_with_fuel(field, 3);
    match split_once(s, sep) {
        None => None,
        Some((a, rest1)) => match split_once(rest1, sep) {
            None => None,
            Some((b, rest2)) => {
                let chars = chars_of(rest2);
                let i = find_char(&chars, sep);
                let c = rest2.substring_char(0, i);
                Some((a, b, c))
            },
        },
    }
}

// ---------------------------------------------------------------------------
// Reading numbers
// ---------------------------------------------------------------------------

/// Whether `c` is one of the ten decimal digits.
pub open spec fn is_digit(c: char) -> bool {
    '0' <= c && c <= '9'
}

/// The value of the digit `c`; 0 for any other character.
pub open spec fn digit_value(c: char) -> nat {
    if is_digit(c) {
        (c as int - '0' as int) as nat
    } else {
        0
    }
}

/// Whether `s` holds decimal digits only.
pub open spec fn all_digits(s: Seq<char>) -> bool {
    forall|i: int| 0 <= i < s.len() ==> is_digit(#[trigger] s[i])
}

/// The number that `s` writes in base ten, most significant digit first.
pub open spec fn digits_value(s: Seq<char>) -> nat
    decreases s.len(),
{
    if s.len() == 0 {
        0
    } else {
        10 * digits_value(s.drop_last()) + digit_value(s.last())
    }
}

/// The number no larger than `max` that `s` denotes: an optional `+`, then one
/// or more decimal digits and nothing else. `None` for every other `s`.
pub open spec fn parse_unsigned(s: Seq<char>, max: nat) -> Option<nat> {
    let digits = if s.len() > 0 && s[0] == '+' {
        s.skip(1)
    } else {
        s
    };
    if digits.len() > 0 && all_digits(digits) && digits_value(digits) <= max {
        Some(digits_value(digits))
    } else {
        None
    }
}

/// The number of `0` characters with which `s` begins.
pub open spec fn leading_zeros(s: Seq<char>) -> nat
    decreases s.len(),
{
    if s.len() == 0 || s[0] != '0' {
        0
    } else {
        1 + leading_zeros(s.drop_first())
    }
}

/// `s` without the `0` characters it begins with; the single character `0`
/// where that leaves nothing.
pub open spec fn unpadded(s: Seq<char>) -> Seq<char> {
    let rest = s.skip(leading_zeros(s) as int);
    if rest.len() == 0 {
        seq!['0']
    } else {
        rest
    }
}

/// What a zero-padded number field denotes: the padding goes, the rest is read
/// as an unsigned number no larger than `max`.
pub open spec fn padded_number(s: Seq<char>, max: nat) -> Option<nat> {
    parse_unsigned(unpadded(s), max)
}

/// `leading_zeros(s)` is the one position `i` with only `0` before it that
/// either holds another character or is the end of `s`.
pub proof fn lemma_leading_zeros_is(s: Seq<char>, i: int)
    requires
        0 <= i <= s.len(),
        forall|j: int| 0 <= j < i ==> s[j] == '0',
        i < s.len() ==> s[i] != '0',
    ensures
        leading_zeros(s) == i,
    decreases i,
{
    if i > 0 {
        let rest = s.drop_first();
        assert forall|j: int| 0 <= j < i - 1 implies rest[j] == '0' by {
            assert(rest[j] == s[j + 1]);
        }
        lemma_leading_zeros_is(rest, i - 1);
    }
}

/// A number written with more digits is no smaller than the number that its
/// first `k` digits write.
pub proof fn lemma_digits_value_prefix(s: Seq<char>, k: int)
    requires
        0 <= k <= s.len(),
    ensures
        digits_value(s.take(k)) <= digits_value(s),
    decreases s.len(),
{
    if k < s.len() {
        let init = s.drop_last();
        lemma_digits_value_prefix(init, k);
        assert(init.take(k) =~= s.take(k));
    } else {
        assert(s.take(k) =~= s);
    }
}

/// The value of the decimal digit `c`.
pub fn digit_of(c: char) -> (r: Option<u8>)
    ensures
        r is Some <==> is_digit(c),
        r matches Some(d) ==> d == digit_value(c) && d < 10,
{
    if c >= '0' && c <= '9' {
        Some((c as u32 - '0' as u32) as u8)
    } else {
        None
    }
}

/// Reads `s` as an unsigned decimal number no larger than `max`.
pub fn parse_bounded(s: &str, max: u32) -> (r: Option<u32>)
    ensures
        match r {
            Some(v) => parse_unsigned(s@, max as nat) == Some(v as nat) && v <= max,
            None => parse_unsigned(s@, max as nat) is None,
        },
{
    let chars = chars_of(s);
    let n = chars.len();
    let start: usize = if n > 0 && chars[0] == '+' {
        1
    } else {
        0
    };
    let ghost digits = if start == 1 {
        s@.skip(1)
    } else {
        s@
    };
    if start == n {
        return None;
    }
    assert(digits =~= chars@.skip(start as int));
    let mut acc: u32 = 0;
    let mut i: usize = start;
    while i < n
        invariant
            n == chars.len(),
            start <= i <= n,
            digits == chars@.skip(start as int),
            digits.len() > 0,
            parse_unsigned(s@, max as nat) == if all_digits(digits) && digits_value(digits) <= max {
                Some(digits_value(digits))
            } else {
                None
            },
            all_digits(digits.take(i - start)),
            acc == digits_value(digits.take(i - start)),
            acc <= max,
        decreases n - i,
    {
        let ghost before = digits.take(i - start);
        let ghost upto = digits.take(i - start + 1);
        proof {
            assert(upto.drop_last() =~= before);
            assert(upto.last() == chars@[i as int]);
        }
        match digit_of(chars[i]) {
            None => {
                proof {
                    assert(digits[i - start] == chars@[i as int]);
                }
                return None;
            },
            Some(d) => {
                let next: u64 = acc as u64 * 10 + d as u64;
                if next > max as u64 {
                    proof {
                        lemma_digits_value_prefix(digits, i - start + 1);
                    }
                    return None;
                }
                proof {
                    assert forall|j: int| 0 <= j < upto.len() implies is_digit(#[trigger] upto[j]) by {
                        if j < i - start {
                            assert(upto[j] == before[j]);
                        }
                    }
                }
                acc = next as u32;
            },
        }
        i += 1;
    }
    proof {
        assert(digits.take(n - start) =~= digits);
    }
    Some(acc)
}

/// Reads `s` as a number that fits sixteen bits.
pub fn opt_parse(s: &str) -> (r: Option<u16>)
    ensures
        match r {
            Some(v) => parse_unsigned(s@, 0xffff) == Some(v as nat),
            None => parse_unsigned(s@, 0xffff) is None,
        },
{
    match parse_bounded(s, 0xffff) {
        Some(v) => Some(v as u16),
        None => None,
    }
}

/// Reads `s` as a number that fits eight bits.
pub fn parse_u8(s: &str) -> (r: Option<u8>)
    ensures
        match r {
            Some(v) => parse_unsigned(s@, 0xff) == Some(v as nat),
            None => parse_unsigned(s@, 0xff) is None,
        },
{
    match parse_bounded(s, 0xff) {
        Some(v) => Some(v as u8),
        None => None,
    }
}

/// Takes the `0` characters off the front of `s`; of a string of zeros alone,
/// the empty one included, it leaves `"0"`. The result is always `Some`.
pub fn remove_padding<'a>(s: &'a str) -> (r: Option<&'a str>)
    ensures
        r matches Some(t) && t@ == unpadded(s@),
{
    let chars = chars_of(s);
    let n = chars.len();
    let mut i: usize = 0;
    while i < n && chars[i] == '0'
        invariant
            n == chars.len(),
            i <= n,
            forall|j: int| 0 <= j < i ==> chars@[j] == '0',
        decreases n - i,
    {
        i += 1;
    }
    proof {
        lemma_leading_zeros_is(chars@, i as int);
        reveal_strlit("0");
        assert("0"@ =~= seq!['0']);
    }
    if i == n {
        Some("0")
    } else {
        Some(s.substring_char(i, n))
    }
}

} // verus!

verus! {

// ---------------------------------------------------------------------------
// Writing numbers
// ---------------------------------------------------------------------------

/// The character that writes the digit `d`.
pub open spec fn digit_char(d: nat) -> char {
    if d == 0 {
        '0'
    } else if d == 1 {
        '1'
    } else if d == 2 {
        '2'
    } else if d == 3 {
        '3'
    } else if d == 4 {
        '4'
    } else if d == 5 {
        '5'
    } else if d == 6 {
        '6'
    } else if d == 7 {
        '7'
    } else if d == 8 {
        '8'
    } else {
        '9'
    }
}

/// `n` written in base ten, without padding.
pub open spec fn decimal(n: nat) -> Seq<char>
    decreases n,
{
    if n < 10 {
        seq![digit_char(n)]
    } else {
        decimal(n / 10).push(digit_char(n % 10))
    }
}

/// `n` written in base ten with at least two digits: a `0` goes before a
/// single digit.
pub open spec fn decimal_padded(n: nat) -> Seq<char> {
    if n < 10 {
        seq!['0', digit_char(n)]
    } else {
        decimal(n)
    }
}

/// The one-character string that writes the digit `d`.
fn digit_str(d: u32) -> (r: &'static str)
    requires
        d < 10,
    ensures
        r@ == seq![digit_char(d as nat)],
{
    proof {
        reveal_strlit("0");
        reveal_strlit("1");
        reveal_strlit("2");
        reveal_strlit("3");
        reveal_strlit("4");
        reveal_strlit("5");
        reveal_strlit("6");
        reveal_strlit("7");
        reveal_strlit("8");
        reveal_strlit("9");
    }
    let r = if d == 0 {
        "0"
    } else if d == 1 {
        "1"
    } else if d == 2 {
        "2"
    } else if d == 3 {
        "3"
    } else if d == 4 {
        "4"
    } else if d == 5 {
        "5"
    } else if d == 6 {
        "6"
    } else if d == 7 {
        "7"
    } else if d == 8 {
        "8"
    } else {
        "9"
    };
    assert(r@ =~= seq![digit_char(d as nat)]);
    r
}

/// Writes `n` in base ten at the end of `out`.
pub fn push_decimal(out: &mut String, n: u32)
    ensures
        final(out)@ == old(out)@ + decimal(n as nat),
    decreases n,
{
    if n >= 10 {
        push_decimal(out, n / 10);
    }
    out.append(digit_str(n % 10));
    assert(final(out)@ =~= old(out)@ + decimal(n as nat));
}

/// Writes `n` in base ten with at least two digits at the end of `out`.
pub fn push_decimal_padded(out: &mut String, n: u32)
    ensures
        final(out)@ == old(out)@ + decimal_padded(n as nat),
{
    if n < 10 {
        out.append("0");
        proof {
            reveal_strlit("0");
        }
    }
    push_decimal(out, n);
    assert(final(out)@ =~= old(out)@ + decimal_padded(n as nat));
}

// ---------------------------------------------------------------------------
// Comparing
// ---------------------------------------------------------------------------

/// Whether `a` and `b` hold the same characters.
pub fn str_eq(a: &str, b: &str) -> (r: bool)
    ensures
        r == (a@ == b@),
{
    let x = chars_of(a);
    let y = chars_of(b);
    let n = x.len();
    if y.len() != n {
        return false;
    }
    let mut i: usize = 0;
    while i < n
        invariant
            n == x.len(),
            n == y.len(),
            x@ == a@,
            y@ == b@,
            i <= n,
            forall|j: int| 0 <= j < i ==> x@[j] == y@[j],
        decreases n - i,
    {
        if x[i] != y[i] {
            return false;
        }
        i += 1;
    }
    assert(a@ =~= b@);
    true
}

} // verus!

verus! {

// ---------------------------------------------------------------------------
// Laws of cutting, reading and writing
// ---------------------------------------------------------------------------

/// Two texts joined by a separator that the first does not hold are cut apart
/// again at that separator.
pub proof fn lemma_split_joined(head: Seq<char>, sep: char, tail: Seq<char>)
    requires
        forall|j: int| 0 <= j < head.len() ==> head[j] != sep,
    ensures
        prefix_len(head + seq![sep] + tail, sep) == head.len(),
        split_once_spec(head + seq![sep] + tail, sep) == Some((head, tail)),
{
    let s = head + seq![sep] + tail;
    assert forall|j: int| 0 <= j < head.len() implies s[j] != sep by {
        assert(s[j] == head[j]);
    }
    lemma_prefix_len_is(s, sep, head.len() as int);
    assert(s.take(head.len() as int) =~= head);
    assert(s.skip(head.len() as int + 1) =~= tail);
}

/// A text that does not hold the separator is one piece.
pub proof fn lemma_no_separator(s: Seq<char>, sep: char)
    requires
        forall|j: int| 0 <= j < s.len() ==> s[j] != sep,
    ensures
        prefix_len(s, sep) == s.len(),
        split_once_spec(s, sep) is None,
        field(s, sep, 0) == Some(s),
{
    lemma_prefix_len_is(s, sep, s.len() as int);
    assert(s.take(s.len() as int) =~= s);
}

/// Three texts joined by a separator that none of them holds are the three
/// pieces of what they make.
pub proof fn lemma_three_fields(a: Seq<char>, b: Seq<char>, c: Seq<char>, sep: char)
    requires
        forall|j: int| 0 <= j < a.len() ==> a[j] != sep,
        forall|j: int| 0 <= j < b.len() ==> b[j] != sep,
        forall|j: int| 0 <= j < c.len() ==> c[j] != sep,
    ensures
        field(a + seq![sep] + b + seq![sep] + c, sep, 0) == Some(a),
        field(a + seq![sep] + b + seq![sep] + c, sep, 1) == Some(b),
        field(a + seq![sep] + b + seq![sep] + c, sep, 2) == Some(c),
{
    let s = a + seq![sep] + b + seq![sep] + c;
    let rest = b + seq![sep] + c;
    assert(s =~= a + seq![sep] + rest);
    lemma_split_joined(a, sep, rest);
    lemma_split_joined(b, sep, c);
    lemma_no_separator(c, sep);
    reveal_with_fuel(field, 3);
    assert(s.take(a.len() as int) =~= a);
    assert(rest.take(b.len() as int) =~= b);
}

/// Ten to the power `n`.
pub open spec fn pow10(n: nat) -> nat
    decreases n,
{
    if n == 0 {
        1
    } else {
        10 * pow10((n - 1) as nat)
    }
}

/// A number of `n` digits is below ten to the power `n`.
pub proof fn lemma_digits_value_bound(s: Seq<char>)
    ensures
        digits_value(s) < pow10(s.len()),
    decreases s.len(),
{
    if s.len() > 0 {
        lemma_digits_value_bound(s.drop_last());
    }
}

/// A `0` in front does not change the number.
pub proof fn lemma_leading_zero_value(s: Seq<char>)
    requires
        s.len() > 0,
        s[0] == '0',
    ensures
        digits_value(s.drop_first()) == digits_value(s),
    decreases s.len(),
{
    let rest = s.drop_first();
    if s.len() == 1 {
        assert(digits_value(s.drop_last()) == 0);
        assert(s.last() == '0');
        assert(digits_value(rest) == 0);
    } else {
        let init = s.drop_last();
        assert(init[0] == s[0]);
        lemma_leading_zero_value(init);
        assert(init.drop_first() =~= rest.drop_last());
        assert(rest.last() == s.last());
    }
}

/// Without its padding a number written in digits is still written in digits,
/// at least one, and is the same number.
pub proof fn lemma_unpadded_value(s: Seq<char>)
    requires
        all_digits(s),
    ensures
        all_digits(unpadded(s)),
        unpadded(s).len() >= 1,
        digits_value(unpadded(s)) == digits_value(s),
        leading_zeros(s) <= s.len(),
        s.len() > 0 && s[0] != '0' ==> unpadded(s) == s,
    decreases s.len(),
{
    if s.len() == 0 {
        assert(s.skip(0) =~= s);
        let zero = seq!['0'];
        assert(digits_value(zero.drop_last()) == 0);
        assert(zero.last() == '0');
    } else if s[0] != '0' {
        assert(s.skip(0) =~= s);
    } else {
        let rest = s.drop_first();
        assert forall|j: int| 0 <= j < rest.len() implies is_digit(#[trigger] rest[j]) by {
            assert(rest[j] == s[j + 1]);
        }
        lemma_unpadded_value(rest);
        lemma_leading_zero_value(s);
        assert(s.skip(leading_zeros(s) as int) =~= rest.skip(leading_zeros(rest) as int));
    }
}

/// A number written in digits, padded or not, that does not exceed `max` is
/// read as that number.
pub proof fn lemma_padded_number(s: Seq<char>, max: nat)
    requires
        all_digits(s),
        digits_value(s) <= max,
    ensures
        padded_number(s, max) == Some(digits_value(s)),
{
    lemma_unpadded_value(s);
    let t = unpadded(s);
    assert(is_digit(t[0]));
}

/// A number is written in digits, at least one, and read back from them.
pub proof fn lemma_decimal_value(n: nat)
    ensures
        all_digits(decimal(n)),
        decimal(n).len() >= 1,
        digits_value(decimal(n)) == n,
    decreases n,
{
    if n < 10 {
        let s = decimal(n);
        assert(s.drop_last().len() == 0);
        assert(digits_value(s.drop_last()) == 0);
    } else {
        lemma_decimal_value(n / 10);
        let init = decimal(n / 10);
        let s = decimal(n);
        assert(s.drop_last() =~= init);
        assert forall|j: int| 0 <= j < s.len() implies is_digit(#[trigger] s[j]) by {
            if j < init.len() {
                assert(s[j] == init[j]);
            }
        }
    }
}

/// A number written with two digits or more is read back from them.
pub proof fn lemma_decimal_padded_value(n: nat)
    ensures
        all_digits(decimal_padded(n)),
        decimal_padded(n).len() >= 2,
        digits_value(decimal_padded(n)) == n,
{
    lemma_decimal_value(n);
    if n < 10 {
        let s = decimal_padded(n);
        assert(s.drop_last() =~= seq!['0']);
        assert(seq!['0'].drop_last().len() == 0);
        reveal_with_fuel(digits_value, 3);
    } else {
        lemma_decimal_value(n / 10);
    }
}

/// Digits that do not begin with `0` write a number that is written as those
/// digits.
pub proof fn lemma_decimal_of_value(s: Seq<char>)
    requires
        all_digits(s),
        s.len() >= 1,
        s[0] != '0',
    ensures
        decimal(digits_value(s)) == s,
        digits_value(s) >= 1,
    decreases s.len(),
{
    let init = s.drop_last();
    assert(is_digit(s.last()));
    if s.len() == 1 {
        assert(init.len() == 0);
        assert(digits_value(init) == 0);
        assert(decimal(digits_value(s)) =~= s);
    } else {
        assert forall|j: int| 0 <= j < init.len() implies is_digit(#[trigger] init[j]) by {
            assert(init[j] == s[j]);
        }
        assert(init[0] == s[0]);
        lemma_decimal_of_value(init);
        let n = digits_value(s);
        assert(n == 10 * digits_value(init) + digit_value(s.last()));
        assert(n / 10 == digits_value(init));
        assert(n % 10 == digit_value(s.last()));
        assert(decimal(n) =~= s);
    }
}

/// Two digits write a number that is written, with padding, as those digits.
pub proof fn lemma_decimal_padded_of_value(s: Seq<char>)
    requires
        all_digits(s),
        s.len() == 2,
    ensures
        decimal_padded(digits_value(s)) == s,
{
    assert(is_digit(s[0]) && is_digit(s[1]));
    if s[0] == '0' {
        lemma_leading_zero_value(s);
        let rest = s.drop_first();
        assert(rest.drop_last().len() == 0);
        assert(digits_value(rest.drop_last()) == 0);
        assert(rest.last() == s[1]);
        assert(decimal_padded(digits_value(s)) =~= s);
    } else {
        lemma_decimal_of_value(s);
        let init = s.drop_last();
        assert(init[0] == s[0]);
        assert(init.drop_last().len() == 0);
        assert(digits_value(init.drop_last()) == 0);
        assert(digits_value(s) >= 10);
    }
}

} // verus!
