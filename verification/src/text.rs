//! Reading and building text.
//!
//! Contracts speak of text as a sequence of characters. Messages, identifiers and
//! numbers are assembled from these helpers, so every produced string has an exact
//! statement.

use vstd::prelude::*;

verus! {

/// `String::push` of the standard library: the character is appended at the end.
pub assume_specification[ String::push ](s: &mut String, ch: char)
    ensures
        final(s)@ == old(s)@.push(ch),
;

/// The character of a decimal digit.
pub open spec fn digit_char(d: int) -> char {
    (48 + d) as char
}

/// The decimal digits of a natural number, without leading zeros.
pub open spec fn digits(n: nat) -> Seq<char>
    decreases n,
{
    if n < 10 {
        seq![digit_char(n as int)]
    } else {
        digits(n / 10).push(digit_char((n % 10) as int))
    }
}

/// `count` zeros.
pub open spec fn zeros(count: nat) -> Seq<char> {
    Seq::new(count, |i: int| '0')
}

/// The digits of `n`, padded on the left with zeros to at least `width` characters.
pub open spec fn padded(n: nat, width: nat) -> Seq<char> {
    let d = digits(n);
    if d.len() < width {
        zeros((width - d.len()) as nat) + d
    } else {
        d
    }
}

/// The text of a signed integer.
pub open spec fn int_text(n: int) -> Seq<char> {
    if n < 0 {
        seq!['-'] + digits((-n) as nat)
    } else {
        digits(n as nat)
    }
}

/// The digit character for a value below ten.
fn digit(d: u128) -> (c: char)
    requires
        d < 10,
    ensures
        c == digit_char(d as int),
{
    if d == 0 {
        '0'
    } else if d == 1 {
        '1'
    } else if d == 2 {
        '2'
    } else if d == 3 {
        '3'
    } else if d == 4 {
        '4'
    } else if d == 5 {
        '5'
    } else if d == 6 {
        '6'
    } else if d == 7 {
        '7'
    } else if d == 8 {
        '8'
    } else {
        '9'
    }
}

/// Appends the decimal digits of `n`.
pub fn push_digits(s: &mut String, n: u128)
    ensures
        final(s)@ == old(s)@ + digits(n as nat),
    decreases n,
{
    if n < 10 {
        s.push(digit(n));
        assert(s@ =~= old(s)@ + digits(n as nat));
    } else {
        push_digits(s, n / 10);
        s.push(digit(n % 10));
        assert(s@ =~= old(s)@ + digits(n as nat));
    }
}

/// The decimal text of `n`.
pub fn digits_text(n: u128) -> (r: String)
    ensures
        r@ == digits(n as nat),
{
    let mut s = String::new();
    push_digits(&mut s, n);
    assert(s@ =~= digits(n as nat));
    s
}

/// The decimal text of `n`, padded with zeros to at least `width` characters.
pub fn padded_text(n: u128, width: usize) -> (r: String)
    ensures
        r@ == padded(n as nat, width as nat),
{
    let d = digits_text(n);
    let len: usize = d.as_str().unicode_len();
    let mut s = String::new();
    let mut i: usize = len;
    while i < width
        invariant
            len <= i,
            len == d@.len(),
            i <= width || i == len,
            s@ == zeros((i - len) as nat),
        decreases width - i,
    {
        s.push('0');
        i = i + 1;
        assert(s@ =~= zeros((i - len) as nat));
    }
    s.append(d.as_str());
    assert(s@ =~= padded(n as nat, width as nat));
    s
}

/// The decimal text of a signed integer.
pub fn signed_text(n: i64) -> (r: String)
    ensures
        r@ == int_text(n as int),
{
    let mut s = String::new();
    if n < 0 {
        s.push('-');
        let magnitude: u128 = (-(n as i128)) as u128;
        push_digits(&mut s, magnitude);
        assert(s@ =~= int_text(n as int));
    } else {
        push_digits(&mut s, n as u128);
        assert(s@ =~= int_text(n as int));
    }
    s
}

/// The characters of a string slice.
pub fn chars_of(s: &str) -> (v: Vec<char>)
    ensures
        v@ == s@,
{
    let mut v: Vec<char> = Vec::new();
    for c in it: s.chars()
        invariant
            it.seq() == s@,
            v@ == s@.take(it.index()),
    {
        v.push(c);
        assert(v@ =~= s@.take(it.index() + 1));
    }
    assert(v@ =~= s@);
    v
}

/// A string made of the given characters.
pub fn string_of(chars: &Vec<char>) -> (s: String)
    ensures
        s@ == chars@,
{
    let mut s = String::new();
    let mut i: usize = 0;
    while i < chars.len()
        invariant
            i <= chars.len(),
            s@ == chars@.take(i as int),
        decreases chars.len() - i,
    {
        s.push(chars[i]);
        i = i + 1;
        assert(s@ =~= chars@.take(i as int));
    }
    assert(s@ =~= chars@);
    s
}

/// Whether two string slices hold the same characters.
pub fn same_text(a: &str, b: &str) -> (r: bool)
    ensures
        r == (a@ == b@),
{
    let x = a.to_owned();
    let y = b.to_owned();
    x == y
}

/// The concatenation of two texts.
pub fn joined(a: &str, b: &str) -> (r: String)
    ensures
        r@ == a@ + b@,
{
    let mut s = a.to_owned();
    s.append(b);
    s
}

/// The concatenation of three texts.
pub fn joined3(a: &str, b: &str, c: &str) -> (r: String)
    ensures
        r@ == a@ + b@ + c@,
{
    let mut s = a.to_owned();
    s.append(b);
    s.append(c);
    s
}

/// The concatenation of four texts.
pub fn joined4(a: &str, b: &str, c: &str, d: &str) -> (r: String)
    ensures
        r@ == a@ + b@ + c@ + d@,
{
    let mut s = joined3(a, b, c);
    s.append(d);
    s
}

/// The concatenation of five texts.
pub fn joined5(a: &str, b: &str, c: &str, d: &str, e: &str) -> (r: String)
    ensures
        r@ == a@ + b@ + c@ + d@ + e@,
{
    let mut s = joined4(a, b, c, d);
    s.append(e);
    s
}

/// Whether `needle` occurs in `hay` at position `at`.
pub open spec fn occurs_at(hay: Seq<char>, needle: Seq<char>, at: int) -> bool {
    0 <= at && at + needle.len() <= hay.len() && hay.subrange(at, at + needle.len()) == needle
}

/// Whether `needle` occurs anywhere in `hay`.
pub open spec fn occurs(hay: Seq<char>, needle: Seq<char>) -> bool {
    exists|at: int| occurs_at(hay, needle, at)
}

/// Whether `s` begins with `prefix`.
pub open spec fn begins_with(s: Seq<char>, prefix: Seq<char>) -> bool {
    prefix.len() <= s.len() && s.take(prefix.len() as int) == prefix
}

/// Whether the characters of `needle` stand in `hay` from `at` on.
fn matches_at(hay: &Vec<char>, needle: &Vec<char>, at: usize) -> (r: bool)
    requires
        at + needle.len() <= hay.len(),
    ensures
        r == occurs_at(hay@, needle@, at as int),
{
    let mut j: usize = 0;
    while j < needle.len()
        invariant
            j <= needle.len(),
            at + needle.len() <= hay.len(),
            forall|k: int| 0 <= k < j ==> hay@[at + k] == #[trigger] needle@[k],
        decreases needle.len() - j,
    {
        if hay[at + j] != needle[j] {
            assert(hay@.subrange(at as int, at + needle.len())[j as int] != needle@[j as int]);
            return false;
        }
        j = j + 1;
    }
    assert(hay@.subrange(at as int, at + needle.len()) =~= needle@);
    true
}

/// Whether `needle` occurs in `hay`.
pub fn contains_text(hay: &str, needle: &str) -> (r: bool)
    ensures
        r == occurs(hay@, needle@),
{
    let h = chars_of(hay);
    let n = chars_of(needle);
    if n.len() > h.len() {
        return false;
    }
    let last: usize = h.len() - n.len();
    let mut at: usize = 0;
    loop
        invariant
            at <= last,
            last + n.len() == h.len(),
            h@ == hay@,
            n@ == needle@,
            forall|k: int| 0 <= k < at ==> !occurs_at(h@, n@, k),
        decreases last - at,
    {
        if matches_at(&h, &n, at) {
            return true;
        }
        if at == last {
            return false;
        }
        at = at + 1;
    }
}

/// Whether `s` begins with `prefix`.
pub fn starts_with_text(s: &str, prefix: &str) -> (r: bool)
    ensures
        r == begins_with(s@, prefix@),
{
    let h = chars_of(s);
    let n = chars_of(prefix);
    if n.len() > h.len() {
        return false;
    }
    assert(h@.subrange(0, n@.len() as int) =~= s@.take(prefix@.len() as int));
    matches_at(&h, &n, 0)
}

/// The lower-case form of an ASCII letter; any other character unchanged.
pub open spec fn ascii_lower(c: char) -> char {
    if 'A' <= c && c <= 'Z' {
        ((c as int) + 32) as char
    } else {
        c
    }
}

/// Text with every ASCII upper-case letter lowered.
pub open spec fn lowered(s: Seq<char>) -> Seq<char> {
    s.map_values(|c: char| ascii_lower(c))
}

/// The lower-case form of one character.
fn lower_char(c: char) -> (r: char)
    ensures
        r == ascii_lower(c),
{
    if 'A' <= c && c <= 'Z' {
        ((c as u8) + 32) as char
    } else {
        c
    }
}

/// Text with every ASCII upper-case letter lowered.
pub fn lowered_text(s: &str) -> (r: String)
    ensures
        r@ == lowered(s@),
{
    let v = chars_of(s);
    let mut out = String::new();
    let mut i: usize = 0;
    while i < v.len()
        invariant
            i <= v.len(),
            v@ == s@,
            out@ == lowered(s@).take(i as int),
        decreases v.len() - i,
    {
        out.push(lower_char(v[i]));
        i = i + 1;
        assert(out@ =~= lowered(s@).take(i as int));
    }
    assert(out@ =~= lowered(s@));
    out
}

/// Whether a character is a decimal digit.
pub open spec fn is_digit(c: char) -> bool {
    '0' <= c && c <= '9'
}

/// Whether every character is a decimal digit.
pub open spec fn all_digits(s: Seq<char>) -> bool {
    forall|i: int| 0 <= i < s.len() ==> is_digit(#[trigger] s[i])
}

/// Whether every character of a text is a decimal digit, and it has at least so many.
pub fn has_digits(s: &str, width: usize) -> (r: bool)
    ensures
        r == (s@.len() >= width && all_digits(s@)),
{
    let v = chars_of(s);
    if v.len() < width {
        return false;
    }
    let mut i: usize = 0;
    while i < v.len()
        invariant
            i <= v.len(),
            v@ == s@,
            forall|k: int| 0 <= k < i ==> is_digit(#[trigger] s@[k]),
        decreases v.len() - i,
    {
        if !('0' <= v[i] && v[i] <= '9') {
            assert(!is_digit(s@[i as int]));
            return false;
        }
        i = i + 1;
    }
    true
}

/// The number that a run of decimal digits denotes.
pub open spec fn digits_value(s: Seq<char>) -> nat
    decreases s.len(),
{
    if s.len() == 0 {
        0
    } else {
        digits_value(s.drop_last()) * 10 + ((s.last() as int) - 48) as nat
    }
}

/// The number that a text denotes: one or more digits after an optional plus sign, of a
/// value up to `max`.
pub open spec fn parsed_number(s: Seq<char>, max: nat) -> Option<nat> {
    let body = if s.len() > 0 && s[0] == '+' {
        s.drop_first()
    } else {
        s
    };
    if body.len() > 0 && all_digits(body) && digits_value(body) <= max {
        Some(digits_value(body))
    } else {
        None
    }
}

/// The sixty-four bit integer that a text denotes: one or more digits after an optional
/// sign.
pub open spec fn parsed_integer(s: Seq<char>) -> Option<int> {
    if s.len() > 0 && s[0] == '-' {
        let body = s.drop_first();
        if body.len() > 0 && all_digits(body) && -digits_value(body) >= i64::MIN {
            Some(-digits_value(body))
        } else {
            None
        }
    } else {
        match parsed_number(s, i64::MAX as nat) {
            Some(n) => Some(n as int),
            None => None,
        }
    }
}

/// A leading run of digits denotes no more than the whole run.
proof fn lemma_prefix_value(s: Seq<char>, n: int)
    requires
        all_digits(s),
        0 <= n <= s.len(),
    ensures
        digits_value(s.take(n)) <= digits_value(s),
    decreases s.len(),
{
    if n < s.len() {
        let rest = s.drop_last();
        assert(all_digits(rest)) by {
            assert forall|i: int| 0 <= i < rest.len() implies is_digit(#[trigger] rest[i]) by {
                assert(rest[i] == s[i]);
            }
        }
        assert(rest.take(n) =~= s.take(n));
        lemma_prefix_value(rest, n);
        assert(is_digit(s[s.len() - 1]));
    } else {
        assert(s.take(n) =~= s);
    }
}

/// The decimal digits of a number are digits, at least one, and denote the number.
pub proof fn lemma_digits(n: nat)
    ensures
        digits(n).len() > 0,
        all_digits(digits(n)),
        digits_value(digits(n)) == n,
    decreases n,
{
    if n >= 10 {
        lemma_digits(n / 10);
        let d = digits(n);
        assert(d.drop_last() =~= digits(n / 10));
        assert forall|i: int| 0 <= i < d.len() implies is_digit(#[trigger] d[i]) by {
            if i < d.len() - 1 {
                assert(d[i] == digits(n / 10)[i]);
            }
        }
    } else {
        let d = digits(n);
        assert(d.drop_last() =~= Seq::<char>::empty());
        assert(digits_value(d.drop_last()) == 0);
    }
}

/// Leading zeros do not change what digits denote.
proof fn lemma_leading_zeros(count: nat, d: Seq<char>)
    requires
        all_digits(d),
    ensures
        all_digits(zeros(count) + d),
        digits_value(zeros(count) + d) == digits_value(d),
    decreases d.len() + count,
{
    let s = zeros(count) + d;
    assert forall|i: int| 0 <= i < s.len() implies is_digit(#[trigger] s[i]) by {
        if i >= count {
            assert(s[i] == d[i - count]);
        }
    }
    if d.len() > 0 {
        let rest = d.drop_last();
        assert(all_digits(rest)) by {
            assert forall|i: int| 0 <= i < rest.len() implies is_digit(#[trigger] rest[i]) by {
                assert(rest[i] == d[i]);
            }
        }
        lemma_leading_zeros(count, rest);
        assert(s.drop_last() =~= zeros(count) + rest);
    } else if count > 0 {
        assert(s =~= zeros(count));
        assert(s.drop_last() =~= zeros((count - 1) as nat) + d);
        lemma_leading_zeros((count - 1) as nat, d);
        assert(digits_value(d) == 0);
    } else {
        assert(s =~= d);
    }
}

/// Padded digits are digits and denote the number.
pub proof fn lemma_padded(n: nat, width: nat)
    ensures
        padded(n, width).len() > 0,
        padded(n, width).len() >= width,
        all_digits(padded(n, width)),
        digits_value(padded(n, width)) == n,
{
    lemma_digits(n);
    let d = digits(n);
    if d.len() < width {
        lemma_leading_zeros((width - d.len()) as nat, d);
    }
}

/// Padded digits parse back to the number.
pub proof fn lemma_parse_padded(n: nat, width: nat, max: nat)
    requires
        n <= max,
    ensures
        parsed_number(padded(n, width), max) == Some(n),
{
    lemma_padded(n, width);
    let p = padded(n, width);
    assert(is_digit(p[0]));
}

/// The value of a run of digits, if it is at most `max`.
fn digits_number(v: &Vec<char>, from: usize, max: u64) -> (r: Option<u64>)
    requires
        from <= v.len(),
    ensures
        r == ({
            let body = v@.subrange(from as int, v.len() as int);
            if body.len() > 0 && all_digits(body) && digits_value(body) <= max {
                Some(digits_value(body) as u64)
            } else {
                None
            }
        }),
{
    let ghost body = v@.subrange(from as int, v.len() as int);
    if from == v.len() {
        return None;
    }
    let mut value: u64 = 0;
    let mut i: usize = from;
    while i < v.len()
        invariant
            from <= i <= v.len(),
            body == v@.subrange(from as int, v.len() as int),
            all_digits(body.take(i - from)),
            value == digits_value(body.take(i - from)),
            value <= max,
        decreases v.len() - i,
    {
        let c = v[i];
        assert(body[i - from] == c);
        if !(c >= '0' && c <= '9') {
            assert(!is_digit(body[i - from]));
            return None;
        }
        let next: u128 = value as u128 * 10 + (c as u32 - 48) as u128;
        let ghost longer = body.take(i + 1 - from);
        assert(longer.drop_last() =~= body.take(i - from));
        assert(longer.last() == c);
        assert(all_digits(longer)) by {
            assert forall|j: int| 0 <= j < longer.len() implies is_digit(#[trigger] longer[j]) by {
                if j < i - from {
                    assert(longer[j] == body.take(i - from)[j]);
                }
            }
        }
        assert(next == digits_value(longer));
        if next > max as u128 {
            proof {
                if all_digits(body) {
                    lemma_prefix_value(body, i + 1 - from);
                }
            }
            return None;
        }
        value = next as u64;
        i = i + 1;
    }
    assert(body.take(i - from) =~= body);
    Some(value)
}

/// The number that a text denotes, if it is at most `max`.
pub fn parse_number(s: &str, max: u64) -> (r: Option<u64>)
    ensures
        match r {
            Some(n) => parsed_number(s@, max as nat) == Some(n as nat),
            None => parsed_number(s@, max as nat) is None,
        },
{
    let v = chars_of(s);
    if v.len() > 0 && v[0] == '+' {
        assert(v@.subrange(1, v.len() as int) =~= s@.drop_first());
        digits_number(&v, 1, max)
    } else {
        assert(v@.subrange(0, v.len() as int) =~= s@);
        digits_number(&v, 0, max)
    }
}

/// The sixty-four bit integer that a text denotes.
pub fn parse_integer(s: &str) -> (r: Option<i64>)
    ensures
        match r {
            Some(n) => parsed_integer(s@) == Some(n as int),
            None => parsed_integer(s@) is None,
        },
{
    let v = chars_of(s);
    if v.len() > 0 && v[0] == '-' {
        assert(v@.subrange(1, v.len() as int) =~= s@.drop_first());
        match digits_number(&v, 1, 9_223_372_036_854_775_808) {
            Some(n) => Some((-(n as i128)) as i64),
            None => None,
        }
    } else {
        match parse_number(s, 9_223_372_036_854_775_807) {
            Some(n) => Some(n as i64),
            None => None,
        }
    }
}

/// The position of the last separator, or -1.
pub open spec fn last_separator(s: Seq<char>, sep: char) -> int
    decreases s.len(),
{
    if s.len() == 0 {
        -1
    } else if s.last() == sep {
        s.len() - 1
    } else {
        last_separator(s.drop_last(), sep)
    }
}

/// The text after the last separator; all of it where there is none.
pub open spec fn last_part(s: Seq<char>, sep: char) -> Seq<char> {
    s.skip(last_separator(s, sep) + 1)
}

/// The text before the last separator, if there is one.
pub open spec fn without_last_part(s: Seq<char>, sep: char) -> Option<Seq<char>> {
    if last_separator(s, sep) >= 0 {
        Some(s.take(last_separator(s, sep)))
    } else {
        None
    }
}

/// What follows the last separator of a text that ends in a separator and a tail without
/// one is that tail.
pub proof fn lemma_last_part_of_join(head: Seq<char>, sep: char, tail: Seq<char>)
    requires
        !tail.contains(sep),
    ensures
        last_separator(head.push(sep) + tail, sep) == head.len(),
        last_part(head.push(sep) + tail, sep) == tail,
        without_last_part(head.push(sep) + tail, sep) == Some(head),
    decreases tail.len(),
{
    let s = head.push(sep) + tail;
    if tail.len() > 0 {
        let rest = tail.drop_last();
        assert(!rest.contains(sep)) by {
            if rest.contains(sep) {
                let i = choose|i: int| 0 <= i < rest.len() && rest[i] == sep;
                assert(tail[i] == sep);
            }
        }
        lemma_last_part_of_join(head, sep, rest);
        assert(s.drop_last() =~= head.push(sep) + rest);
        assert(s.last() == tail[tail.len() - 1]);
        assert(tail.contains(tail[tail.len() - 1]));
    } else {
        assert(s =~= head.push(sep));
        assert(s.last() == sep);
    }
    assert(s.skip(head.len() as int + 1) =~= tail);
    assert(s.take(head.len() as int) =~= head);
}

/// The position of the last separator among the first `upto` characters.
fn last_separator_before(v: &Vec<char>, upto: usize, sep: char) -> (r: Option<usize>)
    requires
        upto <= v.len(),
    ensures
        match r {
            Some(i) => last_separator(v@.take(upto as int), sep) == i && i < upto,
            None => last_separator(v@.take(upto as int), sep) == -1,
        },
{
    let mut i: usize = upto;
    while i > 0
        invariant
            i <= upto <= v.len(),
            last_separator(v@.take(upto as int), sep) == last_separator(v@.take(i as int), sep),
        decreases i,
    {
        assert(v@.take(i as int).drop_last() =~= v@.take(i - 1));
        if v[i - 1] == sep {
            return Some(i - 1);
        }
        i = i - 1;
    }
    assert(v@.take(0).len() == 0);
    None
}

/// The text after the last separator.
pub fn last_part_text(s: &str, sep: char) -> (r: String)
    ensures
        r@ == last_part(s@, sep),
{
    let v = chars_of(s);
    assert(v@.take(v.len() as int) =~= s@);
    let from: usize = match last_separator_before(&v, v.len(), sep) {
        Some(i) => i + 1,
        None => 0,
    };
    let r = s.substring_char(from, v.len()).to_owned();
    assert(r@ =~= last_part(s@, sep));
    r
}

/// The text before the last separator, if there is one.
pub fn without_last_part_text(s: &str, sep: char) -> (r: Option<String>)
    ensures
        match r {
            Some(t) => without_last_part(s@, sep) == Some(t@),
            None => without_last_part(s@, sep) is None,
        },
{
    let v = chars_of(s);
    assert(v@.take(v.len() as int) =~= s@);
    match last_separator_before(&v, v.len(), sep) {
        Some(i) => {
            let r = s.substring_char(0, i).to_owned();
            assert(r@ =~= s@.take(i as int));
            Some(r)
        },
        None => None,
    }
}

/// The text without the given first character, if it begins with it.
pub open spec fn stripped(s: Seq<char>, first: char) -> Option<Seq<char>> {
    if s.len() > 0 && s[0] == first {
        Some(s.drop_first())
    } else {
        None
    }
}

/// The text without the given first character, if it begins with it.
pub fn stripped_text(s: &str, first: char) -> (r: Option<String>)
    ensures
        match r {
            Some(t) => stripped(s@, first) == Some(t@),
            None => stripped(s@, first) is None,
        },
{
    let len: usize = s.unicode_len();
    if len > 0 && s.get_char(0) == first {
        let r = s.substring_char(1, len).to_owned();
        assert(r@ =~= s@.drop_first());
        Some(r)
    } else {
        None
    }
}

/// Whether a character is white space.
pub open spec fn is_space(c: char) -> bool {
    ||| '\u{9}' <= c <= '\u{d}'
    ||| c == ' '
    ||| c == '\u{85}'
    ||| c == '\u{a0}'
    ||| c == '\u{1680}'
    ||| '\u{2000}' <= c <= '\u{200a}'
    ||| c == '\u{2028}'
    ||| c == '\u{2029}'
    ||| c == '\u{202f}'
    ||| c == '\u{205f}'
    ||| c == '\u{3000}'
}

/// Whether a text holds nothing but white space.
pub open spec fn blank(s: Seq<char>) -> bool {
    forall|i: int| 0 <= i < s.len() ==> is_space(#[trigger] s[i])
}

/// Whether a text holds nothing but white space.
pub fn is_blank(s: &str) -> (r: bool)
    ensures
        r == blank(s@),
{
    let n: usize = s.unicode_len();
    let mut i: usize = 0;
    while i < n
        invariant
            n == s@.len(),
            i <= n,
            forall|j: int| 0 <= j < i ==> is_space(#[trigger] s@[j]),
        decreases n - i,
    {
        let c = s.get_char(i);
        let space = ('\u{9}' <= c && c <= '\u{d}') || c == ' ' || c == '\u{85}' || c == '\u{a0}'
            || c == '\u{1680}' || ('\u{2000}' <= c && c <= '\u{200a}') || c == '\u{2028}' || c
            == '\u{2029}' || c == '\u{202f}' || c == '\u{205f}' || c == '\u{3000}';
        if !space {
            assert(!is_space(s@[i as int]));
            return false;
        }
        i = i + 1;
    }
    true
}

} // verus!
