use vstd::prelude::*;
use crate::chars::{chars_of, push_str, string_from_chars};
use crate::color::{hex_code, palette_rgb, Color256, ColorTrue};
use crate::color_names::{color_for_name, named_color};
use crate::markup::{byte_value, parse_byte, parse_true, tag_name, true_value};
use crate::tags::{lemma_tag_end, tag_at, tag_at_index, TagKind};
use crate::ws::{lemma_clear_at, lemma_true_tag_at, pipe_free, true_color_tag};

verus! {

/// The HTML that opens a colored span.
pub open spec fn span_open(c: ColorTrue) -> Seq<char> {
    "<span style=\"color: #"@ + hex_code(c) + ";\">"@
}

pub open spec fn span_close() -> Seq<char> {
    "</span>"@
}

/// `n` copies of a sequence.
pub open spec fn repeat(s: Seq<char>, n: nat) -> Seq<char>
    decreases n,
{
    if n == 0 {
        seq![]
    } else {
        repeat(s, (n - 1) as nat) + s
    }
}

/// The color a web tag opens, if any.
pub open spec fn web_tag_color(s: Seq<char>, i: int, kind: TagKind, end: int) -> Option<ColorTrue> {
    match kind {
        TagKind::Byte => Some(palette_rgb(byte_value(s, i, end))),
        TagKind::TrueColor => Some(true_value(s, i)),
        TagKind::Name => match named_color(tag_name(s, i, end)) {
            Some(index) => Some(palette_rgb(index)),
            None => None,
        },
        _ => None,
    }
}

/// What one tag writes to HTML, and the stack of open colors after it.
pub open spec fn web_tag(s: Seq<char>, i: int, kind: TagKind, end: int, stack: Seq<ColorTrue>) -> (
    Seq<char>,
    Seq<ColorTrue>,
) {
    match kind {
        TagKind::Escape => (seq!['|'], stack),
        TagKind::Clear => if stack.len() > 0 {
            (span_close(), stack.drop_last())
        } else {
            (seq![], stack)
        },
        _ => match web_tag_color(s, i, kind, end) {
            Some(c) => (span_open(c), stack.push(c)),
            None => (seq![], stack),
        },
    }
}

/// The HTML rendering of `s[pos..]` and the colors left open at the end.
pub open spec fn web_render(s: Seq<char>, pos: int, stack: Seq<ColorTrue>) -> (Seq<char>, Seq<ColorTrue>)
    decreases s.len() - pos,
{
    if pos < 0 || pos >= s.len() {
        (seq![], stack)
    } else {
        match tag_at(s, pos) {
            Some((kind, end)) => if end > pos {
                let (o, st) = web_tag(s, pos, kind, end, stack);
                let (o2, st2) = web_render(s, end, st);
                (o + o2, st2)
            } else {
                (seq![], stack)
            },
            None => {
                let (o2, st2) = web_render(s, pos + 1, stack);
                (seq![s[pos]] + o2, st2)
            },
        }
    }
}

/// Game text rendered as HTML: tags become spans, and spans left open are closed.
pub open spec fn colorize_web_spec(s: Seq<char>) -> Seq<char> {
    let (out, stack) = web_render(s, 0, seq![]);
    out + repeat(span_close(), stack.len())
}

struct WebReplacer {
    stack: Vec<ColorTrue>,
}

impl WebReplacer {
    fn new() -> (r: Self)
        ensures
            r.stack@ == Seq::<ColorTrue>::empty(),
    {
        WebReplacer { stack: Vec::new() }
    }

    fn replace_append(&mut self, s: &Vec<char>, i: usize, kind: TagKind, end: usize, dst: &mut Vec<char>)
        requires
            tag_at(s@, i as int) == Some((kind, end as int)),
        ensures
            ({
                let (o, st) = web_tag(s@, i as int, kind, end as int, old(self).stack@);
                &&& final(dst)@ == old(dst)@ + o
                &&& final(self).stack@ == st
            }),
    {
        proof {
            lemma_tag_end(s@, i as int);
        }
        let color = match kind {
            TagKind::Escape => {
                dst.push('|');
                return ;
            },
            TagKind::Clear => {
                if self.stack.len() > 0 {
                    self.stack.pop();
                    push_str(dst, "</span>");
                }
                return ;
            },
            TagKind::Byte => Some(ColorTrue::from_256(Color256::new(parse_byte(s, i, end)))),
            TagKind::TrueColor => Some(parse_true(s, i)),
            TagKind::Name => match color_for_name(s, i + 1, end - 1) {
                Some(index) => Some(ColorTrue::from_256(Color256::new(index))),
                None => None,
            },
        };
        if let Some(color) = color {
            self.stack.push(color);
            push_str(dst, "<span style=\"color: #");
            color.push_hex(dst);
            push_str(dst, ";\">");
        }
    }
}

/// Renders game text as HTML: tags become colored spans, and open spans are closed at
/// the end.
pub fn colorize_web(message: &str) -> (r: String)
    ensures
        r@ == colorize_web_spec(message@),
{
    let s = chars_of(message);
    let mut replacer = WebReplacer::new();
    let mut out: Vec<char> = Vec::new();
    let mut i: usize = 0;
    while i < s.len()
        invariant
            s@ == message@,
            i <= s.len(),
            ({
                let (o0, st0) = web_render(s@, 0, seq![]);
                let (oi, sti) = web_render(s@, i as int, replacer.stack@);
                &&& o0 == out@ + oi
                &&& st0 == sti
            }),
        decreases s.len() - i,
    {
        match tag_at_index(&s, i) {
            Some((kind, end)) => {
                proof {
                    lemma_tag_end(s@, i as int);
                }
                let ghost out_before = out@;
                let ghost st_before = replacer.stack@;
                replacer.replace_append(&s, i, kind, end, &mut out);
                proof {
                    let (o, st) = web_tag(s@, i as int, kind, end as int, st_before);
                    let (o2, st2) = web_render(s@, end as int, st);
                    assert(web_render(s@, i as int, st_before) == (o + o2, st2));
                    assert(out_before + (o + o2) == (out_before + o) + o2);
                }
                i = end;
            },
            None => {
                proof {
                    let (o2, st2) = web_render(s@, i + 1, replacer.stack@);
                    assert(out@ + (seq![s@[i as int]] + o2) == out@.push(s@[i as int]) + o2);
                }
                out.push(s[i]);
                i = i + 1;
            },
        }
    }
    let ghost rendered = out@;
    let mut open = replacer.stack.len();
    while open > 0
        invariant
            open <= replacer.stack@.len(),
            out@ == rendered + repeat(span_close(), (replacer.stack@.len() - open) as nat),
        decreases open,
    {
        push_str(&mut out, "</span>");
        open = open - 1;
        proof {
            assert(repeat(span_close(), (replacer.stack@.len() - open) as nat) == repeat(
                span_close(),
                (replacer.stack@.len() - open - 1) as nat,
            ) + span_close());
        }
    }
    proof {
        assert(rendered + Seq::<char>::empty() == rendered);
    }
    string_from_chars(&out)
}

} // verus!

verus! {

proof fn lemma_web_plain_run(s: Seq<char>, pos: int, k: int, stack: Seq<ColorTrue>)
    requires
        0 <= pos <= k <= s.len(),
        forall|m: int| pos <= m < k ==> s[m] != '|',
    ensures
        web_render(s, pos, stack).0 == s.subrange(pos, k) + web_render(s, k, stack).0,
        web_render(s, pos, stack).1 == web_render(s, k, stack).1,
    decreases k - pos,
{
    if pos < k {
        assert(tag_at(s, pos) is None);
        lemma_web_plain_run(s, pos + 1, k, stack);
        assert(seq![s[pos]] + s.subrange(pos + 1, k) =~= s.subrange(pos, k));
        assert(seq![s[pos]] + (s.subrange(pos + 1, k) + web_render(s, k, stack).0)
            =~= s.subrange(pos, k) + web_render(s, k, stack).0);
    } else {
        assert(s.subrange(pos, k) + web_render(s, k, stack).0 =~= web_render(s, k, stack).0);
    }
}

/// Colored spans nest in HTML, and a clear tag closes only the innermost: in
/// `|#A|x|#B|y|-|z` (x, y and z without pipes) z stays inside the span of color A, which
/// is closed at the end.
pub proof fn clear_tag_closes_the_inner_span(ta: Seq<char>, x: Seq<char>, tb: Seq<char>, y: Seq<char>,
    z: Seq<char>)
    requires
        true_color_tag(ta),
        true_color_tag(tb),
        pipe_free(x),
        pipe_free(y),
        pipe_free(z),
    ensures
        colorize_web_spec(ta + x + tb + y + "|-|"@ + z) == span_open(true_value(ta, 0)) + x
            + span_open(true_value(tb, 0)) + y + span_close() + z + span_close(),
{
    reveal_strlit("|-|");
    let c = "|-|"@;
    let s = ta + x + tb + y + c + z;
    let p1: int = 9 + x.len() as int;
    let p2: int = p1 + 9 + y.len();
    let p3: int = p2 + 3;
    let a = true_value(ta, 0);
    let b = true_value(tb, 0);
    assert(s.len() == p3 + z.len());
    assert(s.subrange(0, 9) =~= ta);
    lemma_true_tag_at(s, 0, ta);
    assert forall|m: int| 9 <= m < p1 implies s[m] != '|' by {
        assert(s[m] == x[m - 9]);
    }
    lemma_web_plain_run(s, 9, p1, seq![a]);
    assert(s.subrange(9, p1) =~= x);
    assert(s.subrange(p1, p1 + 9) =~= tb);
    lemma_true_tag_at(s, p1, tb);
    assert forall|m: int| p1 + 9 <= m < p2 implies s[m] != '|' by {
        assert(s[m] == y[m - p1 - 9]);
    }
    lemma_web_plain_run(s, p1 + 9, p2, seq![a, b]);
    assert(s.subrange(p1 + 9, p2) =~= y);
    assert(s[p2] == '|' && s[p2 + 1] == '-' && s[p2 + 2] == '|');
    lemma_clear_at(s, p2);
    assert(seq![a, b].drop_last() =~= seq![a]);
    assert forall|m: int| p3 <= m < s.len() implies s[m] != '|' by {
        assert(s[m] == z[m - p3]);
    }
    lemma_web_plain_run(s, p3, s.len() as int, seq![a]);
    assert(s.subrange(p3, s.len() as int) =~= z);
    let e = web_render(s, s.len() as int, seq![a]);
    assert(e.0 =~= Seq::<char>::empty() && e.1 == seq![a]);
    let r3 = web_render(s, p3, seq![a]);
    assert(r3.0 =~= z && r3.1 == seq![a]);
    let r2 = web_render(s, p2, seq![a, b]);
    assert(r2.0 == span_close() + r3.0 && r2.1 == seq![a]);
    let q2 = web_render(s, p1 + 9, seq![a, b]);
    assert(q2.0 == y + r2.0 && q2.1 == seq![a]);
    assert(seq![a].push(b) =~= seq![a, b]);
    let r1 = web_render(s, p1, seq![a]);
    assert(r1.0 == span_open(b) + q2.0 && r1.1 == seq![a]);
    let q1 = web_render(s, 9, seq![a]);
    assert(q1.0 == x + r1.0 && q1.1 == seq![a]);
    let r0 = web_render(s, 0, seq![]);
    assert(seq![].push(a) =~= seq![a]);
    assert(r0.0 == span_open(a) + q1.0 && r0.1 == seq![a]);
    assert(repeat(span_close(), 0) =~= Seq::<char>::empty());
    assert(repeat(span_close(), 1) =~= span_close());
    assert(colorize_web_spec(s) =~= span_open(a) + x + span_open(b) + y + span_close() + z + span_close());
}

} // verus!
