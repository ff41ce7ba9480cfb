//! Bytes as hexadecimal text.

use vstd::prelude::*;

verus! {

/// The character of a hexadecimal digit, in lower case.
pub open spec fn hex_char(d: int) -> char {
    if d < 10 {
        (d + '0' as int) as char
    } else {
        (d - 10 + 'a' as int) as char
    }
}

/// Bytes as text: two digits for each byte, the high one first.
pub open spec fn hex_text(bytes: Seq<u8>) -> Seq<char>
    decreases bytes.len(),
{
    if bytes.len() == 0 {
        seq![]
    } else {
        hex_text(bytes.drop_last()).push(hex_char(bytes.last() as int / 16)).push(
            hex_char(bytes.last() as int % 16),
        )
    }
}

/// The value of a hexadecimal digit, in lower or upper case.
pub open spec fn hex_value(c: char) -> Option<int> {
    if '0' <= c <= '9' {
        Some(c as int - '0' as int)
    } else if 'a' <= c <= 'f' {
        Some(c as int - 'a' as int + 10)
    } else if 'A' <= c <= 'F' {
        Some(c as int - 'A' as int + 10)
    } else {
        None
    }
}

/// The character of a hexadecimal digit.
fn hex_digit(d: u8) -> (c: char)
    requires
        d < 16,
    ensures
        c == hex_char(d as int),
{
    if d < 10 {
        (48 + d) as char
    } else {
        (87 + d) as char
    }
}

/// Bytes as text.
pub fn hex_of(bytes: &[u8]) -> (r: String)
    ensures
        r@ == hex_text(bytes@),
{
    let mut s = String::new();
    let mut i: usize = 0;
    assert(s@ =~= hex_text(bytes@.take(0)));
    while i < bytes.len()
        invariant
            i <= bytes@.len(),
            s@ == hex_text(bytes@.take(i as int)),
        decreases bytes@.len() - i,
    {
        let b: u8 = bytes[i];
        assert(bytes@.take(i + 1).drop_last() =~= bytes@.take(i as int));
        s.push(hex_digit(b / 16));
        s.push(hex_digit(b % 16));
        i = i + 1;
    }
    assert(bytes@.take(i as int) =~= bytes@);
    s
}

} // verus!
