//! What texts say: numbers can be read back from what they are written as, and the parts of
//! a text are where it is cut.

use crate::decimal::{
    fraction_digits, lemma_pow10_positive, magnitude, num_text, pow10, whole_digits, Num,
};
use crate::hexadecimal::{hex_char, hex_text, hex_value};
use crate::text::{
    all_digits, begins_with, blank, digit_char, digits, digits_value, int_text, is_digit, is_space,
    last_part, last_separator, lemma_digits, lemma_padded, lowered, occurs, occurs_at, padded,
    parsed_integer, parsed_number, stripped, without_last_part,
};
use vstd::prelude::*;

verus! {

// ─── Whole numbers ───

/// The digits of a number denote it, and it is read back from them wherever it is not too
/// large. There is no zero before others.
pub proof fn law_digits_denote_the_number(n: nat, max: nat)
    ensures
        digits(n).len() > 0,
        all_digits(digits(n)),
        digits_value(digits(n)) == n,
        n <= max ==> parsed_number(digits(n), max) == Some(n),
        n > max ==> parsed_number(digits(n), max) is None,
        n > 0 ==> digits(n)[0] != '0',
    decreases n,
{
    lemma_digits(n);
    assert(is_digit(digits(n)[0]));
    if n >= 10 {
        law_digits_denote_the_number(n / 10, max);
        assert(digits(n)[0] == digits(n / 10)[0]);
    }
}

/// Each digit that is appended counts for ten times less than those before it.
pub proof fn law_place_value(s: Seq<char>, d: int)
    requires
        0 <= d < 10,
    ensures
        digits_value(s.push(digit_char(d))) == 10 * digits_value(s) + d,
        digits_value(seq![]) == 0,
{
    assert(s.push(digit_char(d)).drop_last() =~= s);
}

/// Padding with zeros makes a number as wide as asked and leaves its value.
pub proof fn law_padding(n: nat, width: nat)
    ensures
        digits_value(padded(n, width)) == n,
        padded(n, width).len() >= width,
        digits(n).len() <= width ==> padded(n, width).len() == width,
        digits(n).len() >= width ==> padded(n, width) == digits(n),
{
    lemma_padded(n, width);
}

/// A signed number is read back from its text.
pub proof fn law_signed_text(n: int)
    requires
        i64::MIN <= n <= i64::MAX,
    ensures
        parsed_integer(int_text(n)) == Some(n),
        n < 0 <==> int_text(n)[0] == '-',
{
    let size = magnitude(n) as nat;
    law_digits_denote_the_number(size, i64::MAX as nat);
    assert(is_digit(digits(size)[0]));
    if n < 0 {
        assert(int_text(n).drop_first() =~= digits(size));
    }
}

/// A number is read from digits alone, with or without a plus before them, and only up to
/// the largest that is allowed.
pub proof fn law_numbers_are_read(s: Seq<char>, max: nat)
    requires
        s.len() > 0,
        s[0] != '+',
    ensures
        parsed_number(s, max) is Some <==> (forall|i: int|
            0 <= i < s.len() ==> '0' <= #[trigger] s[i] <= '9') && digits_value(s) <= max,
        parsed_number(s, max) matches Some(n) ==> n == digits_value(s),
        parsed_number(seq!['+'] + s, max) == parsed_number(s, max),
        parsed_number(seq![], max) is None,
{
    assert((seq!['+'] + s).drop_first() =~= s);
    assert(all_digits(s) <==> (forall|i: int| 0 <= i < s.len() ==> '0' <= #[trigger] s[i] <= '9'))
        by {
        assert(forall|i: int| 0 <= i < s.len() ==> is_digit(#[trigger] s[i]) == ('0' <= s[i]
            <= '9'));
    }
}

// ─── Decimal numbers ───

/// A number below a power of ten has at most as many digits as its exponent.
proof fn lemma_digits_below(n: nat, e: nat)
    requires
        n < pow10(e),
        e > 0,
    ensures
        digits(n).len() <= e,
    decreases e,
{
    if n >= 10 {
        assert(pow10(e) == 10 * pow10((e - 1) as nat));
        assert(e > 1) by {
            reveal_with_fuel(pow10, 2);
        }
        lemma_digits_below(n / 10, (e - 1) as nat);
    }
}

/// The text of a number: a minus for a negative one, then the digits before the point, and
/// where it has decimal places a point and as many digits as it has places. The digits
/// together denote its mantissa.
pub proof fn law_number_text(a: Num)
    ensures
        ({
            let whole = whole_digits(a.m, a.s);
            let fraction = fraction_digits(a.m, a.s);
            let body = if a.s == 0 {
                whole
            } else {
                whole + seq!['.'] + fraction
            };
            &&& num_text(a) == (if a.m < 0 {
                seq!['-'] + body
            } else {
                body
            })
            &&& all_digits(whole) && all_digits(fraction)
            &&& whole.len() > 0
            &&& fraction.len() == a.s
            &&& digits_value(whole) * pow10(a.s) + digits_value(fraction) == magnitude(a.m)
        }),
{
    let p = pow10(a.s) as int;
    lemma_pow10_positive(a.s);
    let size = magnitude(a.m);
    let (q, r) = (size / p, size % p);
    assert(q * p + r == size && 0 <= r < p && q >= 0) by (nonlinear_arith)
        requires
            q == size / p,
            r == size % p,
            p > 0,
            size >= 0,
    ;
    lemma_digits(q as nat);
    let whole = whole_digits(a.m, a.s);
    let fraction = fraction_digits(a.m, a.s);
    if a.s == 0 {
        assert(p == 1);
        assert(r == 0);
        assert(num_text(a) =~= (if a.m < 0 {
            seq!['-'] + whole
        } else {
            whole
        }));
    } else {
        lemma_padded(r as nat, a.s);
        lemma_digits_below(r as nat, a.s);
        law_padding(r as nat, a.s);
        assert(num_text(a) =~= (if a.m < 0 {
            seq!['-'] + (whole + seq!['.'] + fraction)
        } else {
            whole + seq!['.'] + fraction
        }));
    }
}

// ─── Bytes ───

/// Two digits stand for each byte, the high one first, and each byte is read back from them.
pub proof fn law_hexadecimal(bytes: Seq<u8>, i: int)
    requires
        0 <= i < bytes.len(),
    ensures
        hex_text(bytes).len() == 2 * bytes.len(),
        hex_value(hex_text(bytes)[2 * i]) matches Some(high) && (hex_value(
            hex_text(bytes)[2 * i + 1],
        ) matches Some(low) && 16 * high + low == bytes[i]),
    decreases bytes.len(),
{
    let rest = bytes.drop_last();
    if i < rest.len() {
        law_hexadecimal(rest, i);
        assert(rest[i] == bytes[i]);
    } else {
        if rest.len() > 0 {
            law_hexadecimal(rest, 0);
        }
        let b = bytes[i] as int;
        assert(hex_value(hex_char(b / 16)) == Some(b / 16));
        assert(hex_value(hex_char(b % 16)) == Some(b % 16));
    }
}

// ─── Parts ───

/// A text begins with another exactly where it is that one with something after it.
pub proof fn law_beginning(prefix: Seq<char>, rest: Seq<char>)
    ensures
        begins_with(prefix + rest, prefix),
        forall|s: Seq<char>| #[trigger]
            begins_with(s, prefix) ==> s == prefix + s.skip(prefix.len() as int),
{
    assert((prefix + rest).take(prefix.len() as int) =~= prefix);
    assert forall|s: Seq<char>| #[trigger] begins_with(s, prefix) implies s == prefix + s.skip(
        prefix.len() as int,
    ) by {
        assert(s =~= s.take(prefix.len() as int) + s.skip(prefix.len() as int));
    }
}

/// A text occurs in another exactly where something stands before and after it.
pub proof fn law_occurrence(before: Seq<char>, needle: Seq<char>, after: Seq<char>)
    ensures
        occurs(before + needle + after, needle),
        forall|hay: Seq<char>| #[trigger]
            occurs(hay, needle) ==> exists|at: int|
                0 <= at <= hay.len() - needle.len() && hay == #[trigger] hay.take(at) + needle
                    + hay.skip(at + needle.len()),
{
    let (hay, at) = (before + needle + after, before.len() as int);
    assert(hay.subrange(at, at + needle.len()) =~= needle);
    assert(occurs_at(hay, needle, at));
    assert forall|hay: Seq<char>| #[trigger] occurs(hay, needle) implies exists|at: int|
        0 <= at <= hay.len() - needle.len() && hay == #[trigger] hay.take(at) + needle + hay.skip(
            at + needle.len(),
        ) by {
        let at = choose|at: int| occurs_at(hay, needle, at);
        assert(hay =~= hay.take(at) + hay.subrange(at, at + needle.len()) + hay.skip(
            at + needle.len(),
        ));
    }
}

/// The last part of a text is what stands after its last separator, and the rest what stands
/// before it.
pub proof fn law_last_part(s: Seq<char>, sep: char)
    ensures
        !last_part(s, sep).contains(sep),
        without_last_part(s, sep) matches Some(before) ==> s == before.push(sep) + last_part(
            s,
            sep,
        ),
        without_last_part(s, sep) is None ==> last_part(s, sep) == s,
        without_last_part(s, sep) is Some <==> s.contains(sep),
    decreases s.len(),
{
    let at = last_separator(s, sep);
    if s.len() == 0 {
        assert(last_part(s, sep) =~= s);
    } else if s.last() == sep {
        assert(last_part(s, sep) =~= Seq::<char>::empty());
        assert(s =~= s.take(at).push(sep));
        assert(s[s.len() - 1] == sep);
    } else {
        let rest = s.drop_last();
        law_last_part(rest, sep);
        assert(at < rest.len()) by {
            lemma_separator_is_inside(rest, sep);
        }
        lemma_separator_is_inside(rest, sep);
        let (part, shorter) = (last_part(s, sep), last_part(rest, sep));
        assert(part =~= shorter.push(s.last()));
        if part.contains(sep) {
            let i = choose|i: int| 0 <= i < part.len() && part[i] == sep;
            if i < shorter.len() {
                assert(shorter[i] == sep);
            }
        }
        if at >= 0 {
            assert(rest == rest.take(at).push(sep) + shorter);
            assert(s =~= rest.push(s.last()));
            assert(s.take(at) =~= rest.take(at));
            assert(s =~= s.take(at).push(sep) + part);
            assert(s[at] == sep);
        } else {
            assert(part =~= s);
        }
    }
}

/// The last separator is inside a text, where there is one.
proof fn lemma_separator_is_inside(s: Seq<char>, sep: char)
    ensures
        -1 <= last_separator(s, sep) < s.len(),
    decreases s.len(),
{
    if s.len() > 0 && s.last() != sep {
        lemma_separator_is_inside(s.drop_last(), sep);
    }
}

/// A first character is taken off exactly where the text has it.
pub proof fn law_first_is_taken_off(s: Seq<char>, first: char)
    ensures
        stripped(seq![first] + s, first) == Some(s),
        forall|t: Seq<char>| #[trigger]
            stripped(t, first) is Some ==> t == seq![first] + stripped(t, first)->0,
{
    assert((seq![first] + s).drop_first() =~= s);
    assert forall|t: Seq<char>| #[trigger] stripped(t, first) is Some implies t == seq![first]
        + stripped(t, first)->0 by {
        assert(t =~= seq![first] + t.drop_first());
    }
}

/// Lowering changes the letters from A to Z alone, each to the one thirty-two places on, and
/// lowering twice is lowering once.
pub proof fn law_lowering(s: Seq<char>)
    ensures
        lowered(s).len() == s.len(),
        forall|i: int|
            0 <= i < s.len() ==> {
                &&& 'A' <= s[i] <= 'Z' ==> (#[trigger] lowered(s)[i]) as int == s[i] as int + 32
                &&& !('A' <= s[i] <= 'Z') ==> lowered(s)[i] == s[i]
            },
        lowered(lowered(s)) == lowered(s),
{
    assert(lowered(lowered(s)) =~= lowered(s));
}

/// A text is blank exactly where nothing in it is other than white space; no letter, digit or
/// dash is.
pub proof fn law_blank(s: Seq<char>, c: char)
    ensures
        blank(seq![]),
        blank(s.push(c)) <==> blank(s) && is_space(c),
        c == ' ' || c == '\t' || c == '\n' || c == '\r' ==> is_space(c),
        'a' <= c <= 'z' || 'A' <= c <= 'Z' || '0' <= c <= '9' || c == '-' ==> !is_space(c),
{
    let t = s.push(c);
    if blank(t) {
        assert(t[s.len() as int] == c);
        assert forall|i: int| 0 <= i < s.len() implies is_space(#[trigger] s[i]) by {
            assert(t[i] == s[i]);
        }
    }
    if blank(s) && is_space(c) {
        assert forall|i: int| 0 <= i < t.len() implies is_space(#[trigger] t[i]) by {
            if i < s.len() {
                assert(t[i] == s[i]);
            }
        }
    }
}

} // verus!
