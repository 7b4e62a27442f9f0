use vstd::prelude::*;
use crate::types::escape_pipes;
use crate::chars::{chars_of, string_from_chars};
use crate::color::{
    clear_color, color_escape, color_wf, push_clear_color, supported_256, supported_true, Color,
    Color256, ColorSupport,
};
use crate::color_names::{color_for_name, named_color};
use crate::markup::{byte_value, parse_byte, parse_true, tag_name, true_value};
use crate::tags::{lemma_tag_end, tag_at, tag_at_index, TagKind};
use crate::ws::{lemma_clear_at, lemma_true_tag_at, pipe_free, true_color_tag};

verus! {

/// What one tag writes to a telnet client, and the color stack and closed flag after it.
///
/// Each color tag that is shown pushes its color; a true-color or named tag that cannot
/// be shown pushes `None`; a palette tag that cannot be shown pushes nothing. A clear tag
/// pops the innermost entry and resumes the color below it, or resets the terminal and
/// marks the text closed when nothing is left.
pub open spec fn telnet_tag(
    support: ColorSupport,
    s: Seq<char>,
    i: int,
    kind: TagKind,
    end: int,
    stack: Seq<Option<Color>>,
    closed: bool,
) -> (Seq<char>, Seq<Option<Color>>, bool) {
    match kind {
        TagKind::Escape => (seq!['|'], stack, closed),
        TagKind::Byte => match supported_256(support, Color256(byte_value(s, i, end))) {
            Some(c) => (color_escape(c), stack.push(Some(c)), false),
            None => (seq![], stack, closed),
        },
        TagKind::TrueColor => match supported_true(support, true_value(s, i)) {
            Some(c) => (color_escape(c), stack.push(Some(c)), false),
            None => (seq![], stack.push(None), closed),
        },
        TagKind::Name => match named_color(tag_name(s, i, end)) {
            Some(index) => match supported_256(support, Color256(index)) {
                Some(c) => (color_escape(c), stack.push(Some(c)), false),
                None => (seq![], stack.push(None), closed),
            },
            None => (seq![], stack.push(None), closed),
        },
        TagKind::Clear => if support != ColorSupport::NoColor && stack.len() > 0 {
            let rest = stack.drop_last();
            if rest.len() > 0 {
                match rest.last() {
                    Some(c) => (color_escape(c), rest, closed),
                    None => (seq![], rest, closed),
                }
            } else {
                (clear_color(), rest, true)
            }
        } else {
            (seq![], stack, closed)
        },
    }
}

/// The telnet rendering of `s[pos..]`: every tag is replaced by what it writes, and all
/// other characters are copied. Returns the output, and the color stack and closed flag
/// at the end.
pub open spec fn telnet_render(
    support: ColorSupport,
    s: Seq<char>,
    pos: int,
    stack: Seq<Option<Color>>,
    closed: bool,
) -> (Seq<char>, Seq<Option<Color>>, bool)
    decreases s.len() - pos,
{
    if pos < 0 || pos >= s.len() {
        (seq![], stack, closed)
    } else {
        match tag_at(s, pos) {
            Some((kind, end)) => if end > pos {
                let (o, st, c) = telnet_tag(support, s, pos, kind, end, stack, closed);
                let (o2, st2, c2) = telnet_render(support, s, end, st, c);
                (o + o2, st2, c2)
            } else {
                (seq![], stack, closed)
            },
            None => {
                let (o2, st2, c2) = telnet_render(support, s, pos + 1, stack, closed);
                (seq![s[pos]] + o2, st2, c2)
            },
        }
    }
}

/// The start of the first tag at or after `pos`, as the single-replacement scan sees it.
pub open spec fn telnet_render_first(
    support: ColorSupport,
    s: Seq<char>,
    pos: int,
    stack: Seq<Option<Color>>,
    closed: bool,
) -> (Seq<char>, Seq<Option<Color>>, bool)
    decreases s.len() - pos,
{
    if pos < 0 || pos >= s.len() {
        (seq![], stack, closed)
    } else {
        match tag_at(s, pos) {
            Some((kind, end)) => if end > pos && end <= s.len() {
                let (o, st, c) = telnet_tag(support, s, pos, kind, end, stack, closed);
                (o + s.subrange(end, s.len() as int), st, c)
            } else {
                (seq![], stack, closed)
            },
            None => {
                let (o2, st2, c2) = telnet_render_first(support, s, pos + 1, stack, closed);
                (seq![s[pos]] + o2, st2, c2)
            },
        }
    }
}

/// Game text rendered for a telnet client: tags become terminal escape sequences, and
/// a reset is appended where a color is left open at the end.
pub open spec fn colorize_telnet_spec(s: Seq<char>, support: ColorSupport) -> Seq<char> {
    let (out, _, closed) = telnet_render(support, s, 0, seq![], true);
    if closed {
        out
    } else {
        out + clear_color()
    }
}

/// Rewrites color tags into terminal escape sequences for one client.
pub struct TelnetReplacer {
    color_support: ColorSupport,
    stack: Vec<Option<Color>>,
    closed: bool,
}

impl TelnetReplacer {
    pub closed spec fn support(&self) -> ColorSupport {
        self.color_support
    }

    /// The open colors, innermost last; `None` stands for a tag that showed no color.
    pub closed spec fn stack(&self) -> Seq<Option<Color>> {
        self.stack@
    }

    /// Whether no color is left open.
    pub closed spec fn is_closed(&self) -> bool {
        self.closed
    }

    pub open spec fn wf(&self) -> bool {
        forall|k: int| 0 <= k < self.stack().len() ==> (#[trigger] self.stack()[k] matches Some(
            c,
        ) ==> color_wf(c))
    }

    pub fn new(color_support: ColorSupport) -> (r: Self)
        ensures
            r.support() == color_support,
            r.stack() == Seq::<Option<Color>>::empty(),
            r.is_closed(),
            r.wf(),
    {
        TelnetReplacer { color_support, stack: Vec::new(), closed: true }
    }

    /// Whether no color is left open.
    pub fn closed(&self) -> (b: bool)
        ensures
            b == self.is_closed(),
    {
        self.closed
    }

    /// Writes what the tag of the given kind that spans `s[i..end]` shows, and updates
    /// the color stack.
    pub fn replace_append(&mut self, s: &Vec<char>, i: usize, kind: TagKind, end: usize, dst: &mut Vec<char>)
        requires
            old(self).wf(),
            tag_at(s@, i as int) == Some((kind, end as int)),
        ensures
            final(self).wf(),
            final(self).support() == old(self).support(),
            ({
                let (o, st, c) = telnet_tag(
                    old(self).support(),
                    s@,
                    i as int,
                    kind,
                    end as int,
                    old(self).stack(),
                    old(self).is_closed(),
                );
                &&& final(dst)@ == old(dst)@ + o
                &&& final(self).stack() == st
                &&& final(self).is_closed() == c
            }),
    {
        proof {
            lemma_tag_end(s@, i as int);
        }
        match kind {
            TagKind::Escape => {
                dst.push('|');
            },
            TagKind::Byte => {
                let v = parse_byte(s, i, end);
                if let Some(color) = self.color_support.supported_from_256(Color256::new(v)) {
                    self.stack.push(Some(color));
                    color.push_escape(dst);
                    self.closed = false;
                }
            },
            TagKind::TrueColor => {
                let t = parse_true(s, i);
                if let Some(color) = self.color_support.supported_from_true(t) {
                    self.stack.push(Some(color));
                    color.push_escape(dst);
                    self.closed = false;
                } else {
                    self.stack.push(None);
                }
            },
            TagKind::Name => {
                if let Some(index) = color_for_name(s, i + 1, end - 1) {
                    if let Some(color) = self.color_support.supported_from_256(Color256::new(index)) {
                        self.stack.push(Some(color));
                        color.push_escape(dst);
                        self.closed = false;
                    } else {
                        self.stack.push(None);
                    }
                } else {
                    self.stack.push(None);
                }
            },
            TagKind::Clear => {
                if self.color_support.supports_color() && self.stack.len() > 0 {
                    self.stack.pop();
                    let n = self.stack.len();
                    if n > 0 {
                        if let Some(color) = self.stack[n - 1] {
                            assert(self.stack@[n - 1] matches Some(c) ==> color_wf(c));
                            color.push_escape(dst);
                        }
                    } else {
                        self.closed = true;
                        push_clear_color(dst);
                    }
                }
            },
        }
    }

    /// Rewrites every tag of a message.
    pub fn replace_all(&mut self, message: &str) -> (r: String)
        requires
            old(self).wf(),
        ensures
            final(self).wf(),
            final(self).support() == old(self).support(),
            ({
                let (o, st, c) = telnet_render(
                    old(self).support(),
                    message@,
                    0,
                    old(self).stack(),
                    old(self).is_closed(),
                );
                &&& r@ == o
                &&& final(self).stack() == st
                &&& final(self).is_closed() == c
            }),
    {
        let s = chars_of(message);
        let ghost support = self.color_support;
        let ghost st0 = self.stack@;
        let ghost c0 = self.closed;
        let mut out: Vec<char> = Vec::new();
        let mut i: usize = 0;
        while i < s.len()
            invariant
                s@ == message@,
                i <= s.len(),
                self.wf(),
                self.color_support == support,
                ({
                    let (o0, sta, ca) = telnet_render(support, s@, 0, st0, c0);
                    let (oi, sti, ci) = telnet_render(support, s@, i as int, self.stack@, self.closed);
                    &&& o0 == out@ + oi
                    &&& sta == sti
                    &&& ca == ci
                }),
            decreases s.len() - i,
        {
            match tag_at_index(&s, i) {
                Some((kind, end)) => {
                    proof {
                        lemma_tag_end(s@, i as int);
                    }
                    let ghost out_before = out@;
                    let ghost st_before = self.stack@;
                    let ghost c_before = self.closed;
                    self.replace_append(&s, i, kind, end, &mut out);
                    proof {
                        let (o, st, c) = telnet_tag(support, s@, i as int, kind, end as int, st_before, c_before);
                        let (o2, st2, c2) = telnet_render(support, s@, end as int, st, c);
                        assert(telnet_render(support, s@, i as int, st_before, c_before) == (o + o2, st2, c2));
                        assert(out_before + (o + o2) == (out_before + o) + o2);
                    }
                    i = end;
                },
                None => {
                    proof {
                        let (o2, st2, c2) = telnet_render(support, s@, i + 1, self.stack@, self.closed);
                        assert(telnet_render(support, s@, i as int, self.stack@, self.closed) == (seq![s@[i as int]] + o2, st2, c2));
                        assert(out@ + (seq![s@[i as int]] + o2) == out@.push(s@[i as int]) + o2);
                    }
                    out.push(s[i]);
                    i = i + 1;
                },
            }
        }
        proof {
            assert(out@ + Seq::<char>::empty() == out@);
        }
        string_from_chars(&out)
    }

    /// Rewrites the first tag of a message, copying the rest.
    pub fn replace(&mut self, message: &str) -> (r: String)
        requires
            old(self).wf(),
        ensures
            final(self).wf(),
            final(self).support() == old(self).support(),
            ({
                let (o, st, c) = telnet_render_first(
                    old(self).support(),
                    message@,
                    0,
                    old(self).stack(),
                    old(self).is_closed(),
                );
                &&& r@ == o
                &&& final(self).stack() == st
                &&& final(self).is_closed() == c
            }),
    {
        let s = chars_of(message);
        let ghost support = self.color_support;
        let ghost st0 = self.stack@;
        let ghost c0 = self.closed;
        let mut out: Vec<char> = Vec::new();
        let mut i: usize = 0;
        while i < s.len()
            invariant
                s@ == message@,
                i <= s.len(),
                self.wf(),
                self.color_support == support,
                support == old(self).support(),
                st0 == old(self).stack(),
                c0 == old(self).is_closed(),
                self.stack@ == st0,
                self.closed == c0,
                ({
                    let (o0, sta, ca) = telnet_render_first(support, s@, 0, st0, c0);
                    let (oi, sti, ci) = telnet_render_first(support, s@, i as int, st0, c0);
                    &&& o0 == out@ + oi
                    &&& sta == sti
                    &&& ca == ci
                }),
            decreases s.len() - i,
        {
            match tag_at_index(&s, i) {
                Some((kind, end)) => {
                    proof {
                        lemma_tag_end(s@, i as int);
                    }
                    let ghost out_before = out@;
                    self.replace_append(&s, i, kind, end, &mut out);
                    let ghost st_after = self.stack@;
                    let ghost c_after = self.closed;
                    let mut k = end;
                    while k < s.len()
                        invariant
                            end <= k <= s.len(),
                            s@ == message@,
                            self.wf(),
                            self.color_support == support,
                            support == old(self).support(),
                            st0 == old(self).stack(),
                            c0 == old(self).is_closed(),
                            self.stack@ == st_after,
                            self.closed == c_after,
                            (st_after, c_after) == ({
                                let (o, st, c) = telnet_tag(support, s@, i as int, kind, end as int, st0, c0);
                                (st, c)
                            }),
                            tag_at(s@, i as int) == Some((kind, end as int)),
                            i < end,
                            ({
                                let (o0, sta, ca) = telnet_render_first(support, s@, 0, st0, c0);
                                let (oi, sti, ci) = telnet_render_first(support, s@, i as int, st0, c0);
                                &&& o0 == out_before + oi
                                &&& sta == sti
                                &&& ca == ci
                            }),
                            out@ == out_before + telnet_tag(support, s@, i as int, kind, end as int, st0, c0).0
                                + s@.subrange(end as int, k as int),
                        decreases s.len() - k,
                    {
                        out.push(s[k]);
                        k = k + 1;
                    }
                    proof {
                        let (o, st, c) = telnet_tag(support, s@, i as int, kind, end as int, st0, c0);
                        assert(out_before + (o + s@.subrange(end as int, s.len() as int)) == out@);
                    }
                    return string_from_chars(&out);
                },
                None => {
                    proof {
                        let (o2, st2, c2) = telnet_render_first(support, s@, i + 1, st0, c0);
                        assert(out@ + (seq![s@[i as int]] + o2) == out@.push(s@[i as int]) + o2);
                    }
                    out.push(s[i]);
                    i = i + 1;
                },
            }
        }
        proof {
            assert(out@ + Seq::<char>::empty() == out@);
        }
        string_from_chars(&out)
    }
}

/// Renders game text for a telnet client with the given color support: tags become
/// escape sequences, and a color left open at the end is reset.
pub fn colorize_telnet(message: &str, color_support: ColorSupport) -> (r: String)
    ensures
        r@ == colorize_telnet_spec(message@, color_support),
{
    let mut replacer = TelnetReplacer::new(color_support);
    let rendered = replacer.replace_all(message);
    let mut out = chars_of(rendered.as_str());
    if !replacer.closed() {
        push_clear_color(&mut out);
    }
    string_from_chars(&out)
}


proof fn lemma_plain_render(support: ColorSupport, s: Seq<char>, pos: int, stack: Seq<Option<Color>>, closed: bool)
    requires
        0 <= pos <= s.len(),
        forall|i: int| 0 <= i < s.len() ==> s[i] != '|',
    ensures
        telnet_render(support, s, pos, stack, closed) == (s.skip(pos), stack, closed),
    decreases s.len() - pos,
{
    if pos < s.len() {
        assert(tag_at(s, pos) is None);
        lemma_plain_render(support, s, pos + 1, stack, closed);
        assert(seq![s[pos]] + s.skip(pos + 1) =~= s.skip(pos));
    } else {
        assert(s.skip(pos) =~= Seq::<char>::empty());
    }
}

/// Text without tags (no `|` at all) is sent to a telnet client as it is, whatever the
/// client's color support.
pub proof fn plain_text_unchanged(s: Seq<char>, support: ColorSupport)
    requires
        forall|i: int| 0 <= i < s.len() ==> s[i] != '|',
    ensures
        colorize_telnet_spec(s, support) == s,
{
    lemma_plain_render(support, s, 0, seq![], true);
    assert(s.skip(0) =~= s);
}

/// `s` with every pipe doubled, built from the front.
pub open spec fn escape_front(s: Seq<char>) -> Seq<char>
    decreases s.len(),
{
    if s.len() == 0 {
        seq![]
    } else {
        (if s[0] == '|' { seq!['|', '|'] } else { seq![s[0]] }) + escape_front(s.drop_first())
    }
}

proof fn escape_concat(a: Seq<char>, b: Seq<char>)
    ensures
        escape_pipes(a + b) == escape_pipes(a) + escape_pipes(b),
    decreases b.len(),
{
    if b.len() == 0 {
        assert(a + b =~= a);
        assert(escape_pipes(b) =~= Seq::<char>::empty());
        assert(escape_pipes(a) + escape_pipes(b) =~= escape_pipes(a));
    } else {
        assert((a + b).drop_last() =~= a + b.drop_last());
        assert((a + b).last() == b.last());
        escape_concat(a, b.drop_last());
        let tail = if b.last() == '|' { seq!['|', '|'] } else { seq![b.last()] };
        assert(escape_pipes(a) + escape_pipes(b.drop_last()) + tail =~= escape_pipes(a) + (escape_pipes(b.drop_last()) + tail));
    }
}

proof fn escape_front_is_escape(s: Seq<char>)
    ensures
        escape_front(s) == escape_pipes(s),
    decreases s.len(),
{
    if s.len() > 0 {
        escape_front_is_escape(s.drop_first());
        assert(s =~= seq![s[0]] + s.drop_first());
        escape_concat(seq![s[0]], s.drop_first());
        assert(seq![s[0]].drop_last() =~= Seq::<char>::empty());
        assert(escape_pipes(Seq::<char>::empty()) =~= Seq::<char>::empty());
        assert(escape_pipes(seq![s[0]]) =~= (if s[0] == '|' { seq!['|', '|'] } else { seq![s[0]] }));
    }
}

proof fn render_escaped(support: ColorSupport, x: Seq<char>, pos: int, t: Seq<char>, stack: Seq<Option<Color>>, closed: bool)
    requires
        0 <= pos <= x.len(),
        x.subrange(pos, x.len() as int) == escape_front(t),
    ensures
        telnet_render(support, x, pos, stack, closed) == (t, stack, closed),
    decreases t.len(),
{
    let rest = x.subrange(pos, x.len() as int);
    if t.len() == 0 {
        assert(rest.len() == 0);
        assert(t =~= Seq::<char>::empty());
    } else {
        let head = if t[0] == '|' { seq!['|', '|'] } else { seq![t[0]] };
        assert(rest =~= head + escape_front(t.drop_first()));
        if t[0] == '|' {
            assert(x[pos] == rest[0] && x[pos + 1] == rest[1]);
            assert(x.subrange(pos + 2, x.len() as int) =~= rest.subrange(2, rest.len() as int));
            assert(rest.subrange(2, rest.len() as int) =~= escape_front(t.drop_first()));
            render_escaped(support, x, pos + 2, t.drop_first(), stack, closed);
            assert(seq!['|'] + t.drop_first() =~= t);
        } else {
            assert(rest[0] == t[0]);
            assert(x[pos] == rest[0]);
            assert(x.subrange(pos + 1, x.len() as int) =~= rest.subrange(1, rest.len() as int));
            assert(rest.subrange(1, rest.len() as int) =~= escape_front(t.drop_first()));
            render_escaped(support, x, pos + 1, t.drop_first(), stack, closed);
            assert(seq![x[pos]] + t.drop_first() =~= t);
        }
    }
}

/// Text with every pipe doubled renders for telnet as the text itself, whatever the
/// client's color support: no tag is read in it, and each doubled pipe shows as one.
pub proof fn escaped_text_renders_as_itself(s: Seq<char>, support: ColorSupport)
    ensures
        colorize_telnet_spec(escape_pipes(s), support) == s,
{
    escape_front_is_escape(s);
    let x = escape_pipes(s);
    assert(x.subrange(0, x.len() as int) =~= x);
    render_escaped(support, x, 0, s, seq![], true);
}

/// The text of a list of web segments, in order: colors dropped.
pub open spec fn segments_text(v: Seq<crate::ws::SegmentView>) -> Seq<char>
    decreases v.len(),
{
    if v.len() == 0 {
        seq![]
    } else {
        segments_text(v.drop_last()) + match v.last() {
            crate::ws::SegmentView::Text(t) => t,
            _ => seq![],
        }
    }
}

proof fn segments_text_concat(a: Seq<crate::ws::SegmentView>, b: Seq<crate::ws::SegmentView>)
    ensures
        segments_text(a + b) == segments_text(a) + segments_text(b),
    decreases b.len(),
{
    if b.len() == 0 {
        assert(a + b =~= a);
        assert(segments_text(a) + Seq::<char>::empty() =~= segments_text(a));
    } else {
        assert((a + b).drop_last() =~= a + b.drop_last());
        segments_text_concat(a, b.drop_last());
        let tail = match b.last() {
            crate::ws::SegmentView::Text(t) => t,
            _ => seq![],
        };
        assert(segments_text(a) + segments_text(b.drop_last()) + tail =~= segments_text(a) + (segments_text(b.drop_last()) + tail));
    }
}

proof fn ends_have_no_text(n: nat)
    ensures
        segments_text(crate::ws::ends(n)) == Seq::<char>::empty(),
    decreases n,
{
    if n > 0 {
        ends_have_no_text((n - 1) as nat);
        assert(crate::ws::ends(n).drop_last() =~= crate::ws::ends((n - 1) as nat));
    }
}

proof fn flush_text(p: Seq<char>)
    ensures
        segments_text(crate::ws::flush(p)) == p,
{
    if p.len() > 0 {
        one_segment_text(crate::ws::SegmentView::Text(p));
    } else {
        assert(p =~= Seq::<char>::empty());
    }
}

proof fn one_segment_text(x: crate::ws::SegmentView)
    ensures
        segments_text(seq![x]) == match x {
            crate::ws::SegmentView::Text(t) => t,
            _ => seq![],
        },
{
    assert(seq![x].drop_last() =~= Seq::<crate::ws::SegmentView>::empty());
    assert(segments_text(Seq::<crate::ws::SegmentView>::empty()) == Seq::<char>::empty());
    match x {
        crate::ws::SegmentView::Text(t) => assert(Seq::<char>::empty() + t =~= t),
        _ => assert(Seq::<char>::empty() + Seq::<char>::empty() =~= Seq::<char>::empty()),
    }
}

proof fn plain_render_is_web_text(s: Seq<char>, pos: int, open: nat, pending: Seq<char>, stack: Seq<Option<Color>>, closed: bool)
    requires
        0 <= pos,
    ensures
        pending + telnet_render(ColorSupport::NoColor, s, pos, stack, closed).0
            == segments_text(crate::ws::ws_render(s, pos, open, pending)),
        telnet_render(ColorSupport::NoColor, s, pos, stack, closed).2 == closed,
    decreases s.len() - pos,
{
    if pos >= s.len() {
        segments_text_concat(crate::ws::flush(pending), crate::ws::ends(open));
        flush_text(pending);
        ends_have_no_text(open);
        assert(pending + Seq::<char>::empty() =~= pending);
    } else {
        match tag_at(s, pos) {
            Some((kind, end)) => {
                lemma_tag_end(s, pos);
                let (o, st, c) = telnet_tag(ColorSupport::NoColor, s, pos, kind, end, stack, closed);
                let (segs, open2) = crate::ws::ws_tag(s, pos, kind, end, open);
                plain_render_is_web_text(s, end, open2, seq![], st, c);
                let rest = crate::ws::ws_render(s, end, open2, seq![]);
                segments_text_concat(crate::ws::flush(pending) + segs, rest);
                segments_text_concat(crate::ws::flush(pending), segs);
                flush_text(pending);
                assert(segments_text(segs) == o) by {
                    if kind == TagKind::Escape {
                        one_segment_text(crate::ws::SegmentView::Text(seq!['|']));
                    } else if kind == TagKind::Clear {
                        if open > 0 {
                            one_segment_text(crate::ws::SegmentView::ColorEnd);
                        }
                    } else {
                        match crate::web_color::web_tag_color(s, pos, kind, end) {
                            Some(cc) => one_segment_text(crate::ws::SegmentView::ColorStart(cc)),
                            None => {},
                        }
                    }
                }
                let t2 = telnet_render(ColorSupport::NoColor, s, end, st, c).0;
                assert(Seq::<char>::empty() + t2 =~= t2);
                assert(pending + (o + t2) =~= pending + o + t2);
            },
            None => {
                plain_render_is_web_text(s, pos + 1, open, pending.push(s[pos]), stack, closed);
                let t2 = telnet_render(ColorSupport::NoColor, s, pos + 1, stack, closed).0;
                assert(pending + (seq![s[pos]] + t2) =~= pending.push(s[pos]) + t2);
            },
        }
    }
}

/// Without color support, telnet shows exactly the text of the web segments of the same
/// message, in order: every tag drops out, and each doubled pipe shows as one.
pub proof fn plain_telnet_is_web_text(s: Seq<char>)
    ensures
        colorize_telnet_spec(s, ColorSupport::NoColor) == segments_text(crate::ws::ws_render(s, 0, 0, seq![])),
{
    plain_render_is_web_text(s, 0, 0, seq![], seq![], true);
    let t = telnet_render(ColorSupport::NoColor, s, 0, seq![], true).0;
    assert(Seq::<char>::empty() + t =~= t);
}

} // verus!

verus! {

proof fn lemma_telnet_run(support: ColorSupport, s: Seq<char>, pos: int, k: int, stack: Seq<Option<Color>>,
    closed: bool)
    requires
        0 <= pos <= k <= s.len(),
        forall|m: int| pos <= m < k ==> s[m] != '|',
    ensures
        telnet_render(support, s, pos, stack, closed).0 == s.subrange(pos, k) + telnet_render(support, s, k, stack, closed).0,
        telnet_render(support, s, pos, stack, closed).1 == telnet_render(support, s, k, stack, closed).1,
        telnet_render(support, s, pos, stack, closed).2 == telnet_render(support, s, k, stack, closed).2,
    decreases k - pos,
{
    if pos < k {
        assert(tag_at(s, pos) is None);
        lemma_telnet_run(support, s, pos + 1, k, stack, closed);
        assert(seq![s[pos]] + s.subrange(pos + 1, k) =~= s.subrange(pos, k));
        assert(seq![s[pos]] + (s.subrange(pos + 1, k) + telnet_render(support, s, k, stack, closed).0)
            =~= s.subrange(pos, k) + telnet_render(support, s, k, stack, closed).0);
    } else {
        assert(s.subrange(pos, k) + telnet_render(support, s, k, stack, closed).0
            =~= telnet_render(support, s, k, stack, closed).0);
    }
}

proof fn lemma_telnet_true_step(support: ColorSupport, s: Seq<char>, p: int, t: Seq<char>, stack: Seq<Option<Color>>,
    closed: bool)
    requires
        support != ColorSupport::NoColor,
        true_color_tag(t),
        0 <= p,
        p + 9 <= s.len(),
        s.subrange(p, p + 9) == t,
    ensures
        ({
            let c = supported_true(support, true_value(t, 0))->0;
            let r = telnet_render(support, s, p + 9, stack.push(Some(c)), false);
            telnet_render(support, s, p, stack, closed) == (color_escape(c) + r.0, r.1, r.2)
        }),
{
    lemma_true_tag_at(s, p, t);
    assert(true_value(s, p) == true_value(t, 0)) by {
        assert(s[p + 2] == t[2] && s[p + 3] == t[3] && s[p + 4] == t[4]);
        assert(s[p + 5] == t[5] && s[p + 6] == t[6] && s[p + 7] == t[7]);
    }
}

proof fn lemma_telnet_clear_step(support: ColorSupport, s: Seq<char>, p: int, stack: Seq<Option<Color>>, closed: bool)
    requires
        support != ColorSupport::NoColor,
        0 <= p,
        p + 3 <= s.len(),
        s[p] == '|',
        s[p + 1] == '-',
        s[p + 2] == '|',
        stack.len() >= 2,
        stack.drop_last().last() is Some,
    ensures
        ({
            let rest = stack.drop_last();
            let r = telnet_render(support, s, p + 3, rest, closed);
            telnet_render(support, s, p, stack, closed) == (color_escape(rest.last()->0) + r.0, r.1, r.2)
        }),
{
    lemma_clear_at(s, p);
}

/// Colors nest on a telnet client, and a clear tag ends only the innermost: in
/// `|#A|x|#B|y|-|z` (x, y and z without pipes) the clear tag resumes color A for z, and
/// the terminal is reset at the end.
#[verifier::rlimit(80)]
#[verifier::spinoff_prover]
pub proof fn clear_tag_resumes_the_outer_color(support: ColorSupport, ta: Seq<char>, x: Seq<char>, tb: Seq<char>,
    y: Seq<char>, z: Seq<char>)
    requires
        support != ColorSupport::NoColor,
        true_color_tag(ta),
        true_color_tag(tb),
        pipe_free(x),
        pipe_free(y),
        pipe_free(z),
    ensures
        ({
            let ca = supported_true(support, true_value(ta, 0))->0;
            let cb = supported_true(support, true_value(tb, 0))->0;
            colorize_telnet_spec(ta + x + tb + y + "|-|"@ + z, support) == color_escape(ca) + x + color_escape(cb) + y
                + color_escape(ca) + z + clear_color()
        }),
{
    reveal_strlit("|-|");
    let c = "|-|"@;
    let s = ta + x + tb + y + c + z;
    let p1: int = 9 + x.len() as int;
    let p2: int = p1 + 9 + y.len();
    let p3: int = p2 + 3;
    let ca = supported_true(support, true_value(ta, 0))->0;
    let cb = supported_true(support, true_value(tb, 0))->0;
    let sa: Seq<Option<Color>> = seq![Some(ca)];
    let sab: Seq<Option<Color>> = seq![Some(ca), Some(cb)];
    assert(s.len() == p3 + z.len());
    assert(s.subrange(0, 9) =~= ta);
    lemma_telnet_true_step(support, s, 0, ta, seq![], true);
    assert(Seq::<Option<Color>>::empty().push(Some(ca)) =~= sa);
    assert forall|m: int| 9 <= m < p1 implies s[m] != '|' by {
        assert(s[m] == x[m - 9]);
    }
    lemma_telnet_run(support, s, 9, p1, sa, false);
    assert(s.subrange(9, p1) =~= x);
    assert(s.subrange(p1, p1 + 9) =~= tb);
    lemma_telnet_true_step(support, s, p1, tb, sa, false);
    assert(sa.push(Some(cb)) =~= sab);
    assert forall|m: int| p1 + 9 <= m < p2 implies s[m] != '|' by {
        assert(s[m] == y[m - p1 - 9]);
    }
    lemma_telnet_run(support, s, p1 + 9, p2, sab, false);
    assert(s.subrange(p1 + 9, p2) =~= y);
    assert(s[p2] == '|' && s[p2 + 1] == '-' && s[p2 + 2] == '|');
    assert(sab.drop_last() =~= sa);
    lemma_telnet_clear_step(support, s, p2, sab, false);
    assert forall|m: int| p3 <= m < s.len() implies s[m] != '|' by {
        assert(s[m] == z[m - p3]);
    }
    lemma_telnet_run(support, s, p3, s.len() as int, sa, false);
    assert(s.subrange(p3, s.len() as int) =~= z);
    let e = telnet_render(support, s, s.len() as int, sa, false);
    assert(e.0 =~= Seq::<char>::empty() && !e.2);
    let r3 = telnet_render(support, s, p3, sa, false);
    assert(r3.0 =~= z && !r3.2);
    let r2 = telnet_render(support, s, p2, sab, false);
    assert(r2.0 == color_escape(ca) + r3.0 && !r2.2);
    let q2 = telnet_render(support, s, p1 + 9, sab, false);
    assert(q2.0 == y + r2.0 && !q2.2);
    let r1 = telnet_render(support, s, p1, sa, false);
    assert(r1.0 == color_escape(cb) + q2.0 && !r1.2);
    let q1 = telnet_render(support, s, 9, sa, false);
    assert(q1.0 == x + r1.0 && !q1.2);
    let r0 = telnet_render(support, s, 0, seq![], true);
    assert(r0.0 == color_escape(ca) + q1.0 && !r0.2);
    assert(colorize_telnet_spec(s, support) =~= color_escape(ca) + x + color_escape(cb) + y + color_escape(ca) + z
        + clear_color());
}

} // verus!
