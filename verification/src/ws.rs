use vstd::prelude::*;
use crate::chars::{chars_of, is_hex, string_from_chars};
use crate::color::{palette_rgb, Color256, ColorTrue};
use crate::color_names::color_for_name;
use crate::markup::{parse_byte, parse_true, true_value};
use crate::tags::{lemma_tag_end, run_end, tag_at, tag_at_index, TagKind};
use crate::web_color::web_tag_color;
use crate::session::{Output, OutputItem};

verus! {

/// One piece of a message sent to a web client: a color that starts, the end of the
/// innermost color, or plain text.
#[derive(Debug, PartialEq, Eq)]
pub enum WsMessageSegment {
    ColorStart { color: ColorTrue },
    ColorEnd,
    Text { text: String },
}

/// A segment with its text as a character sequence.
pub enum SegmentView {
    ColorStart(ColorTrue),
    ColorEnd,
    Text(Seq<char>),
}

impl View for WsMessageSegment {
    type V = SegmentView;

    open spec fn view(&self) -> SegmentView {
        match self {
            WsMessageSegment::ColorStart { color } => SegmentView::ColorStart(*color),
            WsMessageSegment::ColorEnd => SegmentView::ColorEnd,
            WsMessageSegment::Text { text } => SegmentView::Text(text@),
        }
    }
}

impl WsMessageSegment {
    pub fn color(color: ColorTrue) -> (r: Self)
        ensures
            r@ == SegmentView::ColorStart(color),
    {
        WsMessageSegment::ColorStart { color }
    }

    pub fn end_color() -> (r: Self)
        ensures
            r@ == SegmentView::ColorEnd,
    {
        WsMessageSegment::ColorEnd
    }

    pub fn text(text: &str) -> (r: Self)
        ensures
            r@ == SegmentView::Text(text@),
    {
        WsMessageSegment::Text { text: string_from_chars(&chars_of(text)) }
    }
}

/// A text segment for pending text, if there is any.
pub open spec fn flush(pending: Seq<char>) -> Seq<SegmentView> {
    if pending.len() > 0 {
        seq![SegmentView::Text(pending)]
    } else {
        seq![]
    }
}

/// `n` color ends.
pub open spec fn ends(n: nat) -> Seq<SegmentView>
    decreases n,
{
    if n == 0 {
        seq![]
    } else {
        ends((n - 1) as nat).push(SegmentView::ColorEnd)
    }
}

/// What one tag contributes to the segments, and the number of open colors after it.
pub open spec fn ws_tag(s: Seq<char>, i: int, kind: TagKind, end: int, open: nat) -> (
    Seq<SegmentView>,
    nat,
) {
    match kind {
        TagKind::Escape => (seq![SegmentView::Text(seq!['|'])], open),
        TagKind::Clear => if open > 0 {
            (seq![SegmentView::ColorEnd], (open - 1) as nat)
        } else {
            (seq![], open)
        },
        _ => match web_tag_color(s, i, kind, end) {
            Some(c) => (seq![SegmentView::ColorStart(c)], open + 1),
            None => (seq![], open),
        },
    }
}

/// The segments of `s[pos..]`, where `pending` is text not yet emitted and `open` the
/// number of open colors. Text between tags becomes one segment; every open color is
/// ended at the end of the message.
pub open spec fn ws_render(s: Seq<char>, pos: int, open: nat, pending: Seq<char>) -> Seq<SegmentView>
    decreases s.len() - pos,
{
    if pos < 0 || pos >= s.len() {
        flush(pending) + ends(open)
    } else {
        match tag_at(s, pos) {
            Some((kind, end)) => if end > pos {
                let (segs, open2) = ws_tag(s, pos, kind, end, open);
                flush(pending) + segs + ws_render(s, end, open2, seq![])
            } else {
                seq![]
            },
            None => ws_render(s, pos + 1, open, pending.push(s[pos])),
        }
    }
}

pub open spec fn segments_view(v: Seq<WsMessageSegment>) -> Seq<SegmentView> {
    v.map_values(|x: WsMessageSegment| x@)
}

fn push_segment(vec: &mut Vec<WsMessageSegment>, seg: WsMessageSegment)
    ensures
        segments_view(final(vec)@) == segments_view(old(vec)@).push(seg@),
{
    let ghost v = seg@;
    vec.push(seg);
    assert(segments_view(vec@) =~= segments_view(old(vec)@).push(v));
}

/// Splits game text into the segments that a web client renders.
pub fn colorize_web(message: &str) -> (r: Vec<WsMessageSegment>)
    ensures
        segments_view(r@) == ws_render(message@, 0, 0, seq![]),
{
    let s = chars_of(message);
    let mut vec: Vec<WsMessageSegment> = Vec::new();
    let mut open: usize = 0;
    let mut next_start: usize = 0;
    let mut i: usize = 0;
    assert(segments_view(vec@) =~= Seq::<SegmentView>::empty());
    assert(s@.subrange(0, 0) =~= Seq::<char>::empty());
    while i < s.len()
        invariant
            s@ == message@,
            next_start <= i <= s.len(),
            open <= i,
            ws_render(s@, 0, 0, seq![]) == segments_view(vec@) + ws_render(
                s@,
                i as int,
                open as nat,
                s@.subrange(next_start as int, i as int),
            ),
        decreases s.len() - i,
    {
        match tag_at_index(&s, i) {
            Some((kind, end)) => {
                proof {
                    lemma_tag_end(s@, i as int);
                }
                let ghost v0 = segments_view(vec@);
                let ghost pending = s@.subrange(next_start as int, i as int);
                if i > next_start {
                    let text = crate::tags::slice_string(&s, next_start, i);
                    push_segment(&mut vec, WsMessageSegment::Text { text });
                }
                assert(segments_view(vec@) == v0 + flush(pending));
                let ghost v1 = segments_view(vec@);
                let ghost open0 = open as nat;
                let ghost (segs, open2) = ws_tag(s@, i as int, kind, end as int, open as nat);
                match kind {
                    TagKind::Escape => {
                        let mut pipe: Vec<char> = Vec::new();
                        pipe.push('|');
                        push_segment(&mut vec, WsMessageSegment::Text { text: string_from_chars(&pipe) });
                        assert(segments_view(vec@) =~= v1 + segs);
                    },
                    TagKind::Clear => {
                        if open > 0 {
                            open = open - 1;
                            push_segment(&mut vec, WsMessageSegment::ColorEnd);
                        }
                    },
                    _ => {
                        let color = match kind {
                            TagKind::Byte => Some(ColorTrue::from_256(Color256::new(parse_byte(&s, i, end)))),
                            TagKind::TrueColor => Some(parse_true(&s, i)),
                            _ => match color_for_name(&s, i + 1, end - 1) {
                                Some(index) => Some(ColorTrue::from_256(Color256::new(index))),
                                None => None,
                            },
                        };
                        assert(color == web_tag_color(s@, i as int, kind, end as int));
                        if let Some(color) = color {
                            open = open + 1;
                            push_segment(&mut vec, WsMessageSegment::ColorStart { color });
                        }
                        assert(segments_view(vec@) =~= v1 + segs);
                    },
                }
                proof {
                    assert(segments_view(vec@) =~= v1 + segs);
                    assert(open == open2);
                    let rest = ws_render(s@, end as int, open2, seq![]);
                    assert(ws_render(s@, i as int, open0, pending) == flush(pending) + segs + rest);
                    assert(v0 + (flush(pending) + segs + rest) == (v0 + flush(pending) + segs) + rest);
                    assert(s@.subrange(end as int, end as int) == Seq::<char>::empty());
                }
                i = end;
                next_start = end;
            },
            None => {
                proof {
                    assert(s@.subrange(next_start as int, i + 1) == s@.subrange(next_start as int, i as int).push(s@[i as int]));
                }
                i = i + 1;
            },
        }
    }
    let ghost v0 = segments_view(vec@);
    if next_start < s.len() {
        let text = crate::tags::slice_string(&s, next_start, s.len());
        push_segment(&mut vec, WsMessageSegment::Text { text });
    }
    let ghost v1 = segments_view(vec@);
    assert(v1 == v0 + flush(s@.subrange(next_start as int, s.len() as int)));
    let total = open;
    while open > 0
        invariant
            open <= total,
            segments_view(vec@) == v1 + ends((total - open) as nat),
        decreases open,
    {
        push_segment(&mut vec, WsMessageSegment::ColorEnd);
        open = open - 1;
    }
    vec
}


/// What is sent to a web client for one piece of game output.
pub enum WsResponse {
    Game { segments: Vec<WsMessageSegment>, is_prompt: bool, is_sensitive: bool },
}

/// Whether a flag is unset; unset flags are left out of what web clients are sent.
pub fn is_false(value: &bool) -> (b: bool)
    ensures
        b == !*value,
{
    !*value
}

impl WsResponse {
    /// A line of output, or a prompt with its sensitivity, split into segments.
    pub fn from_output(value: Output) -> (r: WsResponse)
        ensures
            ({
                let WsResponse::Game { segments, is_prompt, is_sensitive } = r;
                match value@ {
                    OutputItem::Message(m) => segments_view(segments@) == ws_render(m, 0, 0, seq![])
                        && !is_prompt && !is_sensitive,
                    OutputItem::Prompt { format, sensitive } => segments_view(segments@) == ws_render(format, 0, 0, seq![])
                        && is_prompt && is_sensitive == sensitive,
                }
            }),
    {
        let (is_prompt, message, sensitive) = match value {
            Output::Message(message) => (false, message, false),
            Output::Prompt { format, sensitive } => (true, format, sensitive),
        };
        let segments = colorize_web(message.as_str());
        WsResponse::Game { segments, is_prompt, is_sensitive: sensitive }
    }
}


/// How many colors segments start, less how many they end.
pub open spec fn color_balance(segs: Seq<SegmentView>) -> int
    decreases segs.len(),
{
    if segs.len() == 0 {
        0
    } else {
        color_balance(segs.drop_last()) + match segs.last() {
            SegmentView::ColorStart(_) => 1int,
            SegmentView::ColorEnd => -1int,
            SegmentView::Text(_) => 0int,
        }
    }
}

proof fn lemma_balance_concat(a: Seq<SegmentView>, b: Seq<SegmentView>)
    ensures
        color_balance(a + b) == color_balance(a) + color_balance(b),
    decreases b.len(),
{
    if b.len() == 0 {
        assert(a + b =~= a);
    } else {
        assert((a + b).drop_last() =~= a + b.drop_last());
        assert((a + b).last() == b.last());
        lemma_balance_concat(a, b.drop_last());
    }
}

proof fn lemma_balance_ends(n: nat)
    ensures
        color_balance(ends(n)) == -(n as int),
    decreases n,
{
    if n > 0 {
        lemma_balance_ends((n - 1) as nat);
        assert(ends(n).drop_last() =~= ends((n - 1) as nat));
    }
}

proof fn lemma_render_balance(s: Seq<char>, pos: int, open: nat, pending: Seq<char>)
    requires
        0 <= pos,
    ensures
        color_balance(ws_render(s, pos, open, pending)) == -(open as int),
    decreases s.len() - pos,
{
    if pos >= s.len() {
        lemma_balance_ends(open);
        lemma_balance_concat(flush(pending), ends(open));
        reveal_with_fuel(color_balance, 2);
    } else {
        match tag_at(s, pos) {
            Some((kind, end)) => {
                lemma_tag_end(s, pos);
                let (segs, open2) = ws_tag(s, pos, kind, end, open);
                lemma_render_balance(s, end, open2, seq![]);
                let rest = ws_render(s, end, open2, seq![]);
                lemma_balance_concat(flush(pending) + segs, rest);
                lemma_balance_concat(flush(pending), segs);
                reveal_with_fuel(color_balance, 2);
            },
            None => {
                lemma_render_balance(s, pos + 1, open, pending.push(s[pos]));
            },
        }
    }
}

/// Every color a message starts for a web client is ended: the segments hold as many
/// color starts as color ends.
pub proof fn web_colors_balanced(s: Seq<char>)
    ensures
        color_balance(ws_render(s, 0, 0, seq![])) == 0,
{
    lemma_render_balance(s, 0, 0, seq![]);
}


proof fn lemma_plain_segments(s: Seq<char>, pos: int, pending: Seq<char>)
    requires
        0 <= pos <= s.len(),
        forall|i: int| 0 <= i < s.len() ==> s[i] != '|',
    ensures
        ws_render(s, pos, 0, pending) == flush(pending + s.skip(pos)),
    decreases s.len() - pos,
{
    if pos < s.len() {
        assert(tag_at(s, pos) is None);
        lemma_plain_segments(s, pos + 1, pending.push(s[pos]));
        assert(pending.push(s[pos]) + s.skip(pos + 1) =~= pending + s.skip(pos));
    } else {
        assert(pending + s.skip(pos) =~= pending);
        assert(flush(pending) + ends(0) =~= flush(pending));
    }
}

/// Text without tags (no `|` at all) reaches a web client as one text segment, or as
/// nothing when it is empty.
pub proof fn plain_text_one_segment(s: Seq<char>)
    requires
        forall|i: int| 0 <= i < s.len() ==> s[i] != '|',
    ensures
        ws_render(s, 0, 0, seq![]) == if s.len() > 0 {
            seq![SegmentView::Text(s)]
        } else {
            Seq::<SegmentView>::empty()
        },
{
    lemma_plain_segments(s, 0, seq![]);
    assert(Seq::<char>::empty() + s.skip(0) =~= s);
}

} // verus!

verus! {

/// A clear tag ends the innermost open color only: with colors open it sends one color
/// end and leaves one color fewer open; with none open it sends nothing.
pub proof fn clear_tag_ends_one_color(s: Seq<char>, i: int, end: int, open: nat, pending: Seq<char>)
    requires
        0 <= i,
        tag_at(s, i) == Some((TagKind::Clear, end)),
    ensures
        open > 0 ==> ws_render(s, i, open, pending)
            == flush(pending) + seq![SegmentView::ColorEnd] + ws_render(s, end, (open - 1) as nat, seq![]),
        open == 0 ==> ws_render(s, i, open, pending) == flush(pending) + ws_render(s, end, 0, seq![]),
{
    lemma_tag_end(s, i);
    if open == 0 {
        assert(flush(pending) + Seq::<SegmentView>::empty() =~= flush(pending));
    }
}

/// A `|#RRGGBB|` tag on its own.
pub open spec fn true_color_tag(t: Seq<char>) -> bool {
    &&& t.len() == 9
    &&& t[0] == '|'
    &&& t[1] == '#'
    &&& forall|k: int| 2 <= k < 8 ==> #[trigger] is_hex(t[k])
    &&& t[8] == '|'
}

/// Whether no character of a text is a pipe.
pub open spec fn pipe_free(t: Seq<char>) -> bool {
    forall|k: int| 0 <= k < t.len() ==> t[k] != '|'
}

proof fn lemma_plain_run(s: Seq<char>, pos: int, k: int, open: nat, pending: Seq<char>)
    requires
        0 <= pos <= k <= s.len(),
        forall|m: int| pos <= m < k ==> s[m] != '|',
    ensures
        ws_render(s, pos, open, pending) == ws_render(s, k, open, pending + s.subrange(pos, k)),
    decreases k - pos,
{
    if pos < k {
        assert(tag_at(s, pos) is None);
        lemma_plain_run(s, pos + 1, k, open, pending.push(s[pos]));
        assert(pending.push(s[pos]) + s.subrange(pos + 1, k) =~= pending + s.subrange(pos, k));
    } else {
        assert(pending + s.subrange(pos, k) =~= pending);
    }
}

pub(crate) proof fn lemma_true_tag_at(s: Seq<char>, p: int, t: Seq<char>)
    requires
        true_color_tag(t),
        0 <= p,
        p + 9 <= s.len(),
        s.subrange(p, p + 9) == t,
    ensures
        tag_at(s, p) == Some((TagKind::TrueColor, p + 9)),
        web_tag_color(s, p, TagKind::TrueColor, p + 9) == Some(true_value(t, 0)),
{
    assert forall|k: int| 0 <= k < 9 implies s[p + k] == t[k] by {
        assert(s.subrange(p, p + 9)[k] == s[p + k]);
    }
    assert(s[p] == '|' && s[p + 1] == '#' && s[p + 8] == '|');
    assert(run_end(s, p + 1, false) == p + 1);
    assert forall|k: int| p + 2 <= k < p + 8 implies #[trigger] is_hex(s[k]) by {
        assert(s[p + (k - p)] == t[k - p]);
        assert(is_hex(t[k - p]));
    }
    assert(s[p + 2] == t[2] && s[p + 3] == t[3] && s[p + 4] == t[4]);
    assert(s[p + 5] == t[5] && s[p + 6] == t[6] && s[p + 7] == t[7]);
}

pub(crate) proof fn lemma_clear_at(s: Seq<char>, p: int)
    requires
        0 <= p,
        p + 3 <= s.len(),
        s[p] == '|',
        s[p + 1] == '-',
        s[p + 2] == '|',
    ensures
        tag_at(s, p) == Some((TagKind::Clear, p + 3)),
{
    assert(run_end(s, p + 1, false) == p + 1);
    assert(run_end(s, p + 1, true) == p + 1);
}

/// Colors nest for a web client, and a clear tag ends only the innermost one: in
/// `|#A|x|#B|y|-|z` (x, y and z without pipes) the text x is in color A, y in color B,
/// and z, after the clear tag, back in color A, which ends with the message.
pub proof fn clear_tag_returns_to_the_outer_color(ta: Seq<char>, x: Seq<char>, tb: Seq<char>, y: Seq<char>,
    z: Seq<char>)
    requires
        true_color_tag(ta),
        true_color_tag(tb),
        pipe_free(x),
        pipe_free(y),
        pipe_free(z),
    ensures
        ws_render(ta + x + tb + y + "|-|"@ + z, 0, 0, seq![]) == seq![SegmentView::ColorStart(true_value(ta, 0))]
            + flush(x) + seq![SegmentView::ColorStart(true_value(tb, 0))] + flush(y) + seq![SegmentView::ColorEnd]
            + flush(z) + seq![SegmentView::ColorEnd],
{
    reveal_strlit("|-|");
    let c = "|-|"@;
    let s = ta + x + tb + y + c + z;
    let p1: int = 9 + x.len() as int;
    let p2: int = p1 + 9 + y.len();
    let p3: int = p2 + 3;
    assert(s.len() == p3 + z.len());
    // the first tag
    assert(s.subrange(0, 9) =~= ta);
    lemma_true_tag_at(s, 0, ta);
    let r1 = ws_render(s, 9, 1, seq![]);
    assert(ws_render(s, 0, 0, seq![]) == flush(seq![]) + seq![SegmentView::ColorStart(true_value(ta, 0))] + r1);
    // the text x
    assert forall|m: int| 9 <= m < p1 implies s[m] != '|' by {
        assert(s[m] == x[m - 9]);
    }
    lemma_plain_run(s, 9, p1, 1, seq![]);
    assert(s.subrange(9, p1) =~= x);
    assert(Seq::<char>::empty() + x =~= x);
    // the second tag
    assert(s.subrange(p1, p1 + 9) =~= tb);
    lemma_true_tag_at(s, p1, tb);
    let r2 = ws_render(s, p1 + 9, 2, seq![]);
    assert(ws_render(s, p1, 1, x) == flush(x) + seq![SegmentView::ColorStart(true_value(tb, 0))] + r2);
    // the text y
    assert forall|m: int| p1 + 9 <= m < p2 implies s[m] != '|' by {
        assert(s[m] == y[m - p1 - 9]);
    }
    lemma_plain_run(s, p1 + 9, p2, 2, seq![]);
    assert(s.subrange(p1 + 9, p2) =~= y);
    assert(Seq::<char>::empty() + y =~= y);
    // the clear tag
    assert(s[p2] == '|' && s[p2 + 1] == '-' && s[p2 + 2] == '|');
    lemma_clear_at(s, p2);
    let r3 = ws_render(s, p3, 1, seq![]);
    assert(ws_render(s, p2, 2, y) == flush(y) + seq![SegmentView::ColorEnd] + r3);
    // the text z
    assert forall|m: int| p3 <= m < s.len() implies s[m] != '|' by {
        assert(s[m] == z[m - p3]);
    }
    lemma_plain_run(s, p3, s.len() as int, 1, seq![]);
    assert(s.subrange(p3, s.len() as int) =~= z);
    assert(Seq::<char>::empty() + z =~= z);
    assert(ws_render(s, s.len() as int, 1, z) == flush(z) + ends(1));
    assert(ends(0) =~= Seq::<SegmentView>::empty());
    assert(ends(1) =~= seq![SegmentView::ColorEnd]);
    assert(ws_render(s, 0, 0, seq![]) =~= seq![SegmentView::ColorStart(true_value(ta, 0))]
        + flush(x) + seq![SegmentView::ColorStart(true_value(tb, 0))] + flush(y) + seq![SegmentView::ColorEnd]
        + flush(z) + seq![SegmentView::ColorEnd]);
}

/// An escaped pipe reaches a web client as a text segment of one pipe, apart from the
/// text around it: `x||y` (x and y without pipes) is x, a pipe, and y.
pub proof fn escaped_pipe_is_one_pipe(x: Seq<char>, y: Seq<char>)
    requires
        pipe_free(x),
        pipe_free(y),
    ensures
        ws_render(x + seq!['|', '|'] + y, 0, 0, seq![]) == flush(x) + seq![SegmentView::Text(seq!['|'])] + flush(y),
{
    let s = x + seq!['|', '|'] + y;
    let p: int = x.len() as int;
    assert forall|m: int| 0 <= m < p implies s[m] != '|' by {
        assert(s[m] == x[m]);
    }
    lemma_plain_run(s, 0, p, 0, seq![]);
    assert(s.subrange(0, p) =~= x);
    assert(Seq::<char>::empty() + x =~= x);
    assert(s[p] == '|' && s[p + 1] == '|');
    assert(tag_at(s, p) == Some((TagKind::Escape, p + 2)));
    assert(ws_render(s, p, 0, x) == flush(x) + seq![SegmentView::Text(seq!['|'])] + ws_render(s, p + 2, 0, seq![]));
    assert forall|m: int| p + 2 <= m < s.len() implies s[m] != '|' by {
        assert(s[m] == y[m - p - 2]);
    }
    lemma_plain_run(s, p + 2, s.len() as int, 0, seq![]);
    assert(s.subrange(p + 2, s.len() as int) =~= y);
    assert(Seq::<char>::empty() + y =~= y);
    assert(ws_render(s, s.len() as int, 0, y) == flush(y) + ends(0));
    assert(ends(0) =~= Seq::<SegmentView>::empty());
    assert(ws_render(s, 0, 0, seq![]) =~= flush(x) + seq![SegmentView::Text(seq!['|'])] + flush(y));
}

} // verus!
