use vstd::prelude::*;

verus! {

/// The characters of a string slice, in order.
pub fn chars_of(s: &str) -> (v: Vec<char>)
    ensures
        v@ == s@,
{
    let mut v: Vec<char> = Vec::new();
    for c in it: s.chars()
        invariant
            v@ == it.seq().take(it.index()),
            it.seq() == s@,
    {
        v.push(c);
    }
    v
}

/// Collects characters into an owned string (`FromIterator<char>` for `String`).
#[verifier::external_body]
pub fn string_from_chars(v: &Vec<char>) -> (s: String)
    ensures
        s@ == v@,
{
    v.iter().collect()
}

/// Appends the characters of a string slice to a character buffer.
pub fn push_str(out: &mut Vec<char>, s: &str)
    ensures
        final(out)@ == old(out)@ + s@,
{
    for c in it: s.chars()
        invariant
            out@ == old(out)@ + it.seq().take(it.index()),
            it.seq() == s@,
    {
        out.push(c);
    }
}

/// Appends every character of `src` to `out`.
pub fn push_chars(out: &mut Vec<char>, src: &Vec<char>)
    ensures
        final(out)@ == old(out)@ + src@,
{
    let mut i: usize = 0;
    while i < src.len()
        invariant
            i <= src.len(),
            out@ == old(out)@ + src@.take(i as int),
        decreases src.len() - i,
    {
        out.push(src[i]);
        i = i + 1;
        assert(src@.take(i as int) == src@.take((i - 1) as int).push(src@[i - 1]));
    }
    assert(src@.take(src.len() as int) == src@);
}

pub open spec fn is_digit(c: char) -> bool {
    '0' <= c && c <= '9'
}

pub open spec fn is_lower(c: char) -> bool {
    'a' <= c && c <= 'z'
}

pub open spec fn is_upper(c: char) -> bool {
    'A' <= c && c <= 'Z'
}

/// ASCII letters and digits (the POSIX `alnum` class).
pub open spec fn is_alnum(c: char) -> bool {
    is_digit(c) || is_lower(c) || is_upper(c)
}

/// ASCII hexadecimal digits, either case.
pub open spec fn is_hex(c: char) -> bool {
    is_digit(c) || ('a' <= c && c <= 'f') || ('A' <= c && c <= 'F')
}

/// The numeric value of a decimal digit.
pub open spec fn digit_value(c: char) -> int {
    (c as int) - ('0' as int)
}

/// The numeric value of a hexadecimal digit.
pub open spec fn hex_value(c: char) -> int {
    if is_digit(c) {
        digit_value(c)
    } else if 'a' <= c && c <= 'f' {
        (c as int) - ('a' as int) + 10
    } else {
        (c as int) - ('A' as int) + 10
    }
}

/// The character of a decimal digit.
pub open spec fn digit_char(d: int) -> char
    recommends
        0 <= d < 10,
{
    ((d + ('0' as int)) as u32) as char
}

/// The lowercase character of a hexadecimal digit.
pub open spec fn hex_char(d: int) -> char
    recommends
        0 <= d < 16,
{
    if d < 10 {
        digit_char(d)
    } else {
        ((d - 10 + ('a' as int)) as u32) as char
    }
}

/// The decimal representation of a natural number, without leading zeros.
pub open spec fn decimal(n: nat) -> Seq<char>
    decreases n,
{
    if n < 10 {
        seq![digit_char(n as int)]
    } else {
        decimal(n / 10).push(digit_char((n % 10) as int))
    }
}

/// Two lowercase hexadecimal digits of a byte.
pub open spec fn hex_byte(n: u8) -> Seq<char> {
    seq![hex_char(n as int / 16), hex_char(n as int % 16)]
}

/// The value of a sequence of decimal digits.
pub open spec fn decimal_value(d: Seq<char>) -> int
    decreases d.len(),
{
    if d.len() == 0 {
        0
    } else {
        decimal_value(d.drop_last()) * 10 + digit_value(d.last())
    }
}

/// ASCII lowercase of one character.
pub open spec fn lower_char(c: char) -> char {
    if is_upper(c) {
        (((c as int) + 32) as u32) as char
    } else {
        c
    }
}

/// ASCII lowercase of a character sequence.
pub open spec fn ascii_lower(s: Seq<char>) -> Seq<char> {
    s.map_values(|c: char| lower_char(c))
}

pub fn digit_to_char(d: u8) -> (c: char)
    requires
        d < 10,
    ensures
        c == digit_char(d as int),
{
    let v: u32 = (d as u32) + 48;
    assert(v == d as int + ('0' as int));
    proof {
        assert(('0' as int) == 48);
    }
    char_from_u32_ascii(v)
}

pub fn hex_to_char(d: u8) -> (c: char)
    requires
        d < 16,
    ensures
        c == hex_char(d as int),
{
    if d < 10 {
        digit_to_char(d)
    } else {
        let v: u32 = (d as u32) - 10 + 97;
        assert(('a' as int) == 97);
        char_from_u32_ascii(v)
    }
}

fn char_from_u32_ascii(v: u32) -> (c: char)
    requires
        v < 128,
    ensures
        c == (v as char),
{
    let b: u8 = v as u8;
    b as char
}

/// Appends the decimal representation of a byte.
pub fn push_decimal(out: &mut Vec<char>, n: u8)
    ensures
        final(out)@ == old(out)@ + decimal(n as nat),
{
    if n < 10 {
        out.push(digit_to_char(n));
        assert(decimal(n as nat) == seq![digit_char(n as int)]);
    } else if n < 100 {
        out.push(digit_to_char(n / 10));
        out.push(digit_to_char(n % 10));
        assert(decimal((n / 10) as nat) == seq![digit_char((n / 10) as int)]);
        assert(decimal(n as nat) == seq![digit_char((n / 10) as int), digit_char((n % 10) as int)]);
    } else {
        out.push(digit_to_char(n / 100));
        out.push(digit_to_char((n / 10) % 10));
        out.push(digit_to_char(n % 10));
        assert(decimal((n / 100) as nat) == seq![digit_char((n / 100) as int)]);
        assert((n / 10) / 10 == n / 100);
        assert(decimal((n / 10) as nat) == seq![digit_char((n / 100) as int), digit_char(((n / 10) % 10) as int)]);
        assert(decimal(n as nat) == seq![
            digit_char((n / 100) as int),
            digit_char(((n / 10) % 10) as int),
            digit_char((n % 10) as int),
        ]);
    }
}

/// Appends two lowercase hexadecimal digits of a byte.
pub fn push_hex_byte(out: &mut Vec<char>, n: u8)
    ensures
        final(out)@ == old(out)@ + hex_byte(n),
{
    out.push(hex_to_char(n / 16));
    out.push(hex_to_char(n % 16));
}


/// The decimal representation of an integer, with a leading minus sign when negative.
pub open spec fn signed_decimal(n: int) -> Seq<char> {
    if n < 0 {
        seq!['-'] + decimal((-n) as nat)
    } else {
        decimal(n as nat)
    }
}

/// Appends the decimal representation of an unsigned integer.
pub fn push_u64(out: &mut Vec<char>, n: u64)
    ensures
        final(out)@ == old(out)@ + decimal(n as nat),
    decreases n,
{
    if n >= 10 {
        push_u64(out, n / 10);
    }
    let d: u8 = (n % 10) as u8;
    out.push(digit_to_char(d));
}

/// Appends the decimal representation of a signed integer.
pub fn push_i64(out: &mut Vec<char>, n: i64)
    ensures
        final(out)@ == old(out)@ + signed_decimal(n as int),
{
    if n < 0 {
        out.push('-');
        let wide: i128 = 0i128 - (n as i128);
        let m: u64 = wide as u64;
        assert(m as int == -(n as int));
        push_u64(out, m);
        assert(out@ =~= old(out)@ + signed_decimal(n as int));
    } else {
        push_u64(out, n as u64);
    }
}

/// The decimal representation of a signed integer, as a string.
pub fn i64_to_string(n: i64) -> (s: String)
    ensures
        s@ == signed_decimal(n as int),
{
    let mut v: Vec<char> = Vec::new();
    push_i64(&mut v, n);
    assert(v@ == signed_decimal(n as int));
    string_from_chars(&v)
}

} // verus!
