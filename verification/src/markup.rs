use vstd::prelude::*;
use crate::chars::{decimal_value, digit_value, hex_value, is_digit, is_hex};
use crate::color::ColorTrue;
use crate::tags::{byte_digits, tag_at, TagKind, lemma_tag_end, lemma_run_end_bounds, run_end};

verus! {

/// The palette index named by a `|N|` tag that starts at `i` and ends at `end`.
pub open spec fn byte_value(s: Seq<char>, i: int, end: int) -> u8 {
    decimal_value(s.subrange(i + 1, end - 1)) as u8
}

/// The color named by a `|#RRGGBB|` tag that starts at `i`.
pub open spec fn true_value(s: Seq<char>, i: int) -> ColorTrue {
    ColorTrue {
        r: (hex_value(s[i + 2]) * 16 + hex_value(s[i + 3])) as u8,
        g: (hex_value(s[i + 4]) * 16 + hex_value(s[i + 5])) as u8,
        b: (hex_value(s[i + 6]) * 16 + hex_value(s[i + 7])) as u8,
    }
}

/// The name in a `|name|` tag that starts at `i` and ends at `end`.
pub open spec fn tag_name(s: Seq<char>, i: int, end: int) -> Seq<char> {
    s.subrange(i + 1, end - 1)
}

pub proof fn lemma_byte_value(s: Seq<char>, i: int)
    requires
        tag_at(s, i) matches Some((TagKind::Byte, _)),
    ensures
        ({
            let (_, end) = tag_at(s, i)->0;
            &&& decimal_value(s.subrange(i + 1, end - 1)) <= 255
            &&& forall|k: int| i + 1 <= k < end - 1 ==> #[trigger] is_digit(s[k])
        }),
{
    lemma_run_end_bounds(s, i + 1, false);
    let (_, end) = tag_at(s, i)->0;
    let d = s.subrange(i + 1, end - 1);
    assert forall|k: int| 0 <= k < d.len() implies #[trigger] is_digit(d[k]) by {
        assert(d[k] == s[i + 1 + k]);
    }
    assert(byte_digits(d));
    reveal_with_fuel(decimal_value, 4);
    if d.len() == 1 {
        assert(d.drop_last().len() == 0);
    } else if d.len() == 2 {
        assert(d.drop_last().drop_last().len() == 0);
        assert(d.drop_last().last() == d[0]);
    } else {
        assert(d.drop_last().drop_last().drop_last().len() == 0);
        assert(d.drop_last().drop_last().last() == d[0]);
        assert(d.drop_last().last() == d[1]);
    }
}

/// Reads the palette index of a `|N|` tag that starts at `i`.
pub fn parse_byte(s: &Vec<char>, i: usize, end: usize) -> (v: u8)
    requires
        tag_at(s@, i as int) == Some((TagKind::Byte, end as int)),
    ensures
        v == byte_value(s@, i as int, end as int),
        v as int == decimal_value(s@.subrange(i + 1, end - 1)),
{
    proof {
        lemma_byte_value(s@, i as int);
        lemma_tag_end(s@, i as int);
    }
    let ghost d = s@.subrange(i + 1, end - 1);
    let mut v: u32 = 0;
    let mut k = i + 1;
    while k < end - 1
        invariant
            i + 1 <= k <= end - 1,
            end <= s.len(),
            d == s@.subrange(i + 1, end - 1),
            decimal_value(d) <= 255,
            forall|m: int| i + 1 <= m < end - 1 ==> #[trigger] is_digit(s@[m]),
            v as int == decimal_value(s@.subrange(i + 1, k as int)),
            v <= 255,
        decreases end - 1 - k,
    {
        let c = s[k];
        proof {
            assert(is_digit(s@[k as int]));
            assert(('0' as int) == 48);
        }
        let dv: u32 = (c as u32) - 48;
        proof {
            let t = s@.subrange(i + 1, k + 1);
            assert(t.drop_last() == s@.subrange(i + 1, k as int));
            assert(t.last() == c);
            lemma_prefix_value_le(d, (k + 1 - (i + 1)) as int);
            assert(d.take(k + 1 - (i + 1)) == t);
        }
        v = v * 10 + dv;
        k = k + 1;
    }
    v as u8
}

/// A prefix of a digit string is worth no more than the whole.
pub proof fn lemma_prefix_value_le(d: Seq<char>, n: int)
    requires
        0 <= n <= d.len(),
        forall|k: int| 0 <= k < d.len() ==> #[trigger] is_digit(d[k]),
    ensures
        0 <= decimal_value(d.take(n)) <= decimal_value(d),
    decreases d.len(),
{
    if d.len() > 0 {
        let t = d.drop_last();
        assert forall|k: int| 0 <= k < t.len() implies #[trigger] is_digit(t[k]) by {
            assert(t[k] == d[k]);
        }
        assert(decimal_value(d) == decimal_value(t) * 10 + digit_value(d.last()));
        assert(is_digit(d[d.len() - 1]));
        if n == d.len() {
            assert(d.take(n) == d);
            lemma_prefix_value_le(t, t.len() as int);
            assert(t.take(t.len() as int) == t);
        } else {
            lemma_prefix_value_le(t, n);
            assert(t.take(n) == d.take(n));
            assert(is_digit(d[d.len() - 1]));
            lemma_prefix_value_le(t, t.len() as int);
            assert(t.take(t.len() as int) == t);
        }
    } else {
        assert(d.take(n).len() == 0);
    }
}

pub fn hex_digit(c: char) -> (v: u8)
    requires
        is_hex(c),
    ensures
        v as int == hex_value(c),
        v < 16,
{
    if '0' <= c && c <= '9' {
        ((c as u32) - 48) as u8
    } else if 'a' <= c && c <= 'f' {
        ((c as u32) - 97 + 10) as u8
    } else {
        ((c as u32) - 65 + 10) as u8
    }
}

/// Reads the color of a `|#RRGGBB|` tag that starts at `i`.
pub fn parse_true(s: &Vec<char>, i: usize) -> (c: ColorTrue)
    requires
        tag_at(s@, i as int) matches Some((TagKind::TrueColor, _)),
    ensures
        c == true_value(s@, i as int),
{
    proof {
        lemma_tag_end(s@, i as int);
        assert(i + 8 < s.len());
        assert(is_hex(s@[i + 2]) && is_hex(s@[i + 3]) && is_hex(s@[i + 4]));
        assert(is_hex(s@[i + 5]) && is_hex(s@[i + 6]) && is_hex(s@[i + 7]));
    }
    let r = hex_digit(s[i + 2]) * 16 + hex_digit(s[i + 3]);
    let g = hex_digit(s[i + 4]) * 16 + hex_digit(s[i + 5]);
    let b = hex_digit(s[i + 6]) * 16 + hex_digit(s[i + 7]);
    ColorTrue::new(r, g, b)
}

} // verus!
