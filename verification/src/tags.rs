use vstd::prelude::*;
use crate::chars::{chars_of, is_alnum, is_digit, is_hex, string_from_chars};

verus! {

/// The five kinds of markup tag in game text.
#[derive(Debug, Copy, Clone, PartialEq, Eq, Structural)]
pub enum TagKind {
    /// `||`, a literal pipe.
    Escape,
    /// `|N|` with N a palette index 0..=255.
    Byte,
    /// `|#RRGGBB|`, a 24-bit color.
    TrueColor,
    /// `|name|`, a named color.
    Name,
    /// `|-|`, closes the innermost color.
    Clear,
}

/// The end of the run of digits (`alnum == false`) or alphanumerics (`alnum == true`)
/// that starts at `j`.
pub open spec fn run_end(s: Seq<char>, j: int, alnum: bool) -> int
    decreases s.len() - j,
{
    if 0 <= j < s.len() && (if alnum {
        is_alnum(s[j])
    } else {
        is_digit(s[j])
    }) {
        run_end(s, j + 1, alnum)
    } else {
        j
    }
}

/// The digit strings that name a palette index: one or two digits, or three digits
/// that read 100..=199, 200..=249 or 250..=255.
pub open spec fn byte_digits(d: Seq<char>) -> bool {
    ||| d.len() == 1
    ||| d.len() == 2
    ||| d.len() == 3 && d[0] == '1'
    ||| d.len() == 3 && d[0] == '2' && '0' <= d[1] <= '4'
    ||| d.len() == 3 && d[0] == '2' && d[1] == '5' && '0' <= d[2] <= '5'
}

/// The tag that starts at `i`, with the index just past it. Where several tags could
/// start at `i`, they are tried in the order escape, palette index, true color, name,
/// clear.
pub open spec fn tag_at(s: Seq<char>, i: int) -> Option<(TagKind, int)> {
    if !(0 <= i < s.len() && s[i] == '|') {
        None
    } else if i + 1 < s.len() && s[i + 1] == '|' {
        Some((TagKind::Escape, i + 2))
    } else if run_end(s, i + 1, false) > i + 1 && run_end(s, i + 1, false) < s.len() && s[run_end(
        s,
        i + 1,
        false,
    )] == '|' && byte_digits(s.subrange(i + 1, run_end(s, i + 1, false))) {
        Some((TagKind::Byte, run_end(s, i + 1, false) + 1))
    } else if i + 8 < s.len() && s[i + 1] == '#' && (forall|k: int|
        i + 2 <= k < i + 8 ==> #[trigger] is_hex(s[k])) && s[i + 8] == '|' {
        Some((TagKind::TrueColor, i + 9))
    } else if run_end(s, i + 1, true) > i + 1 && run_end(s, i + 1, true) < s.len() && s[run_end(
        s,
        i + 1,
        true,
    )] == '|' {
        Some((TagKind::Name, run_end(s, i + 1, true) + 1))
    } else if i + 2 < s.len() && s[i + 1] == '-' && s[i + 2] == '|' {
        Some((TagKind::Clear, i + 3))
    } else {
        None
    }
}

/// The captured text of a tag: the whole tag for escapes and clears, the digits of a
/// palette index, the six hex digits of a true color, the name of a named color.
pub open spec fn group_range(kind: TagKind, i: int, end: int) -> (int, int) {
    match kind {
        TagKind::Escape | TagKind::Clear => (i, end),
        TagKind::TrueColor => (i + 2, end - 1),
        TagKind::Byte | TagKind::Name => (i + 1, end - 1),
    }
}

/// The start of the first tag at or after `pos`.
pub open spec fn first_tag_from(s: Seq<char>, pos: int) -> Option<int>
    decreases s.len() - pos,
{
    if pos < 0 || pos >= s.len() {
        None
    } else if tag_at(s, pos) is Some {
        Some(pos)
    } else {
        first_tag_from(s, pos + 1)
    }
}

proof fn lemma_run_end(s: Seq<char>, j: int, k: int, alnum: bool)
    requires
        0 <= j <= k <= s.len(),
        forall|m: int| j <= m < k ==> (if alnum {
            is_alnum(#[trigger] s[m])
        } else {
            is_digit(s[m])
        }),
        k == s.len() || !(if alnum {
            is_alnum(s[k])
        } else {
            is_digit(s[k])
        }),
    ensures
        run_end(s, j, alnum) == k,
    decreases k - j,
{
    if j < k {
        lemma_run_end(s, j + 1, k, alnum);
    }
}

pub proof fn lemma_run_end_bounds(s: Seq<char>, j: int, alnum: bool)
    requires
        0 <= j <= s.len(),
    ensures
        j <= run_end(s, j, alnum) <= s.len(),
        forall|m: int| j <= m < run_end(s, j, alnum) ==> (if alnum {
            is_alnum(#[trigger] s[m])
        } else {
            is_digit(s[m])
        }),
    decreases s.len() - j,
{
    if j < s.len() && (if alnum {
        is_alnum(s[j])
    } else {
        is_digit(s[j])
    }) {
        lemma_run_end_bounds(s, j + 1, alnum);
    }
}

/// The end of the run of digits or alphanumerics starting at `j`.
fn scan_run(s: &Vec<char>, j: usize, alnum: bool) -> (k: usize)
    requires
        j <= s.len(),
    ensures
        k == run_end(s@, j as int, alnum),
        j <= k <= s.len(),
{
    let mut k = j;
    while k < s.len() && run_char(s[k], alnum)
        invariant
            j <= k <= s.len(),
            forall|m: int| j <= m < k ==> (if alnum {
                is_alnum(#[trigger] s@[m])
            } else {
                is_digit(s@[m])
            }),
        decreases s.len() - k,
    {
        k = k + 1;
    }
    proof {
        lemma_run_end(s@, j as int, k as int, alnum);
    }
    k
}

fn run_char(c: char, alnum: bool) -> (b: bool)
    ensures
        b == (if alnum {
            is_alnum(c)
        } else {
            is_digit(c)
        }),
{
    if alnum {
        is_alnum_char(c)
    } else {
        is_digit_char(c)
    }
}

pub fn is_digit_char(c: char) -> (b: bool)
    ensures
        b == is_digit(c),
{
    '0' <= c && c <= '9'
}

pub fn is_alnum_char(c: char) -> (b: bool)
    ensures
        b == is_alnum(c),
{
    ('0' <= c && c <= '9') || ('a' <= c && c <= 'z') || ('A' <= c && c <= 'Z')
}

pub fn is_hex_char(c: char) -> (b: bool)
    ensures
        b == is_hex(c),
{
    ('0' <= c && c <= '9') || ('a' <= c && c <= 'f') || ('A' <= c && c <= 'F')
}

/// The tag that starts at `i`, with the index just past it.
pub fn tag_at_index(s: &Vec<char>, i: usize) -> (r: Option<(TagKind, usize)>)
    requires
        i < s.len(),
    ensures
        r matches Some((k, e)) ==> tag_at(s@, i as int) == Some((k, e as int)),
        r is None ==> tag_at(s@, i as int) is None,
{
    let n = s.len();
    if s[i] != '|' {
        return None;
    }
    if i + 1 < n && s[i + 1] == '|' {
        return Some((TagKind::Escape, i + 2));
    }
    let e = scan_run(s, i + 1, false);
    if e > i + 1 && e < n && s[e] == '|' {
        let len = e - (i + 1);
        let ok = len == 1 || len == 2 || (len == 3 && (s[i + 1] == '1' || (s[i + 1] == '2' && '0'
            <= s[i + 2] && s[i + 2] <= '4') || (s[i + 1] == '2' && s[i + 2] == '5' && '0' <= s[i
            + 3] && s[i + 3] <= '5')));
        proof {
            let d = s@.subrange(i + 1, e as int);
            assert(d.len() == len);
            if len == 3 {
                assert(d[0] == s@[i + 1] && d[1] == s@[i + 2] && d[2] == s@[i + 3]);
            }
            assert(ok == byte_digits(d));
        }
        if ok {
            return Some((TagKind::Byte, e + 1));
        }
    }
    if n - i > 8 && s[i + 1] == '#' && s[i + 8] == '|' {
        let mut k = i + 2;
        let mut all_hex = true;
        while k < i + 8
            invariant
                i + 2 <= k <= i + 8,
                i + 8 < n == s.len(),
                all_hex == (forall|m: int| i + 2 <= m < k ==> #[trigger] is_hex(s@[m])),
            decreases i + 8 - k,
        {
            if !is_hex_char(s[k]) {
                all_hex = false;
            }
            k = k + 1;
        }
        if all_hex {
            return Some((TagKind::TrueColor, i + 9));
        }
    }
    let a = scan_run(s, i + 1, true);
    if a > i + 1 && a < n && s[a] == '|' {
        return Some((TagKind::Name, a + 1));
    }
    if n - i > 2 && s[i + 1] == '-' && s[i + 2] == '|' {
        return Some((TagKind::Clear, i + 3));
    }
    None
}

/// A tag found in a message: its kind, where it starts and ends (character indices),
/// and its captured text.
#[derive(Debug, Clone)]
pub struct ColorCapture {
    pub kind: TagKind,
    pub start: usize,
    pub end: usize,
    pub text: String,
}

impl ColorCapture {
    /// The captured text, where the capture is of the given kind.
    pub fn name(&self, kind: TagKind) -> (r: Option<String>)
        ensures
            kind == self.kind ==> r == Some(self.text),
            kind != self.kind ==> r is None,
    {
        if kind == self.kind {
            Some(self.text.clone())
        } else {
            None
        }
    }
}

/// Finds the first markup tag in a message.
pub fn find_color_tag(message: &str) -> (r: Option<ColorCapture>)
    ensures
        r is None <==> first_tag_from(message@, 0) is None,
        r matches Some(c) ==> {
            &&& first_tag_from(message@, 0) == Some(c.start as int)
            &&& tag_at(message@, c.start as int) == Some((c.kind, c.end as int))
            &&& c.text@ == message@.subrange(
                group_range(c.kind, c.start as int, c.end as int).0,
                group_range(c.kind, c.start as int, c.end as int).1,
            )
        },
{
    let s = chars_of(message);
    let mut i: usize = 0;
    while i < s.len()
        invariant
            s@ == message@,
            i <= s.len(),
            first_tag_from(s@, 0) == first_tag_from(s@, i as int),
        decreases s.len() - i,
    {
        match tag_at_index(&s, i) {
            Some((kind, end)) => {
                proof {
                    lemma_tag_end(s@, i as int);
                }
                let (from, to) = match kind {
                    TagKind::Escape | TagKind::Clear => (i, end),
                    TagKind::TrueColor => (i + 2, end - 1),
                    TagKind::Byte | TagKind::Name => (i + 1, end - 1),
                };
                let text = slice_string(&s, from, to);
                return Some(ColorCapture { kind, start: i, end, text });
            },
            None => {
                i = i + 1;
            },
        }
    }
    None
}

/// The bounds of a tag: it is at least two characters long, lies inside the text, and
/// its captured text lies inside it.
pub proof fn lemma_tag_end(s: Seq<char>, i: int)
    requires
        tag_at(s, i) is Some,
    ensures
        ({
            let (kind, end) = tag_at(s, i)->0;
            &&& i + 2 <= end <= s.len()
            &&& i <= group_range(kind, i, end).0 <= group_range(kind, i, end).1 <= end
        }),
{
    lemma_run_end_bounds(s, i + 1, false);
    lemma_run_end_bounds(s, i + 1, true);
}

/// The characters `s[from..to]` as a string.
pub fn slice_string(s: &Vec<char>, from: usize, to: usize) -> (r: String)
    requires
        from <= to <= s.len(),
    ensures
        r@ == s@.subrange(from as int, to as int),
{
    let mut v: Vec<char> = Vec::new();
    let mut k = from;
    while k < to
        invariant
            from <= k <= to <= s.len(),
            v@ == s@.subrange(from as int, k as int),
        decreases to - k,
    {
        v.push(s[k]);
        k = k + 1;
    }
    string_from_chars(&v)
}

} // verus!
