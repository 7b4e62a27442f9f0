use vstd::prelude::*;
use std::collections::VecDeque;
use crate::chars::{chars_of, push_str};
use crate::color::ColorSupport;

use crate::tags::{tag_at, tag_at_index, TagKind};
use crate::telnet_color::{colorize_telnet, colorize_telnet_spec};
use crate::text::strings_view;

verus! {

/// One piece of what the engine sends a client: a line of text, or a prompt.
pub enum Output {
    Message(String),
    Prompt { format: String, sensitive: bool },
}

/// A piece of output as plain values.
pub enum OutputItem {
    Message(Seq<char>),
    Prompt { format: Seq<char>, sensitive: bool },
}

impl View for Output {
    type V = OutputItem;

    open spec fn view(&self) -> OutputItem {
        match self {
            Output::Message(m) => OutputItem::Message(m@),
            Output::Prompt { format, sensitive } => OutputItem::Prompt { format: format@, sensitive: *sensitive },
        }
    }
}

/// What the engine sends a client.
pub enum EngineResponse {
    Output(VecDeque<Output>),
}

pub open spec fn items_view(s: Seq<Output>) -> Seq<OutputItem> {
    s.map_values(|o: Output| o@)
}

impl View for EngineResponse {
    type V = Seq<OutputItem>;

    open spec fn view(&self) -> Seq<OutputItem> {
        match self {
            EngineResponse::Output(q) => items_view(q@),
        }
    }
}

/// The standard prompt.
pub open spec fn standard_prompt(sensitive: bool) -> OutputItem {
    OutputItem::Prompt { format: "> "@, sensitive }
}

/// Each message as a line of output.
pub open spec fn message_items(messages: Seq<Seq<char>>) -> Seq<OutputItem> {
    messages.map_values(|m: Seq<char>| OutputItem::Message(m))
}

fn push_messages(q: &mut VecDeque<Output>, messages: Vec<String>)
    ensures
        items_view(final(q)@) == items_view(old(q)@) + message_items(strings_view(messages@)),
{
    let ghost start = items_view(q@);
    let mut rest = messages;
    let ghost all = strings_view(rest@);
    let total = rest.len();
    let mut i: usize = 0;
    while rest.len() > 0
        invariant
            all.len() == total,
            i + rest.len() == all.len(),
            strings_view(rest@) == all.skip(i as int),
            items_view(q@) == start + message_items(all.take(i as int)),
        decreases rest.len(),
    {
        let ghost before = rest@;
        let ghost qb = q@;
        let m = rest.remove(0);
        let ghost mv = m@;
        q.push_back(Output::Message(m));
        proof {
            assert(mv == all[i as int]) by {
                assert(strings_view(before)[0] == all.skip(i as int)[0]);
            }
            assert(strings_view(rest@) =~= all.skip(i + 1)) by {
                assert forall|k: int| 0 <= k < rest.len() implies strings_view(rest@)[k] == all.skip(i + 1)[k] by {
                    assert(rest@[k] == before[k + 1]);
                    assert(strings_view(before)[k + 1] == all.skip(i as int)[k + 1]);
                }
            }
            assert(all.take(i + 1) == all.take(i as int).push(all[i as int]));
            assert(items_view(q@) =~= items_view(qb).push(OutputItem::Message(mv)));
            assert(message_items(all.take(i + 1)) =~= message_items(all.take(i as int)).push(OutputItem::Message(mv)));
        }
        i = i + 1;
    }
    assert(all.take(all.len() as int) == all);
}

impl EngineResponse {
    /// The messages, each a line, followed by the standard prompt.
    pub fn from_messages_prompt(messages: Vec<String>, sensitive: bool) -> (r: EngineResponse)
        ensures
            r@ == message_items(strings_view(messages@)).push(standard_prompt(sensitive)),
    {
        let mut q: VecDeque<Output> = VecDeque::new();
        assert(items_view(q@) =~= Seq::<OutputItem>::empty());
        push_messages(&mut q, messages);
        let ghost before = q@;
        q.push_back(Output::Prompt { format: "> ".to_owned(), sensitive });
        assert(items_view(q@) =~= items_view(before).push(standard_prompt(sensitive)));
        EngineResponse::Output(q)
    }

    /// The messages, each a line, with no prompt.
    pub fn from_messages(messages: Vec<String>) -> (r: EngineResponse)
        ensures
            r@ == message_items(strings_view(messages@)),
    {
        let mut q: VecDeque<Output> = VecDeque::new();
        assert(items_view(q@) =~= Seq::<OutputItem>::empty());
        push_messages(&mut q, messages);
        EngineResponse::Output(q)
    }

    /// One piece of output; anything but a prompt is followed by the standard prompt.
    pub fn from_output(value: Output) -> (r: EngineResponse)
        ensures
            r@ == if value@ is Prompt {
                seq![value@]
            } else {
                seq![value@, standard_prompt(false)]
            },
    {
        let is_prompt = matches!(value, Output::Prompt { .. });
        let ghost vv = value@;
        let mut q: VecDeque<Output> = VecDeque::new();
        q.push_back(value);
        if !is_prompt {
            q.push_back(Output::Prompt { format: "> ".to_owned(), sensitive: false });
        }
        assert(items_view(q@) =~= if vv is Prompt {
            seq![vv]
        } else {
            seq![vv, standard_prompt(false)]
        });
        EngineResponse::Output(q)
    }
}

/// A byte typed by a telnet client, applied to the line being typed: ASCII text is
/// kept, a backspace removes the last character, other control characters and bytes
/// outside ASCII are dropped.
pub open spec fn type_byte(line: Seq<char>, b: u8) -> Seq<char> {
    if b >= 128 {
        line
    } else if b < 32 || b == 127 {
        if b == 8 && line.len() > 0 {
            line.drop_last()
        } else {
            line
        }
    } else {
        line.push(b as char)
    }
}

/// Bytes typed by a telnet client, applied in order to the line being typed.
pub open spec fn type_bytes(line: Seq<char>, bytes: Seq<u8>) -> Seq<char>
    decreases bytes.len(),
{
    if bytes.len() == 0 {
        line
    } else {
        type_byte(type_bytes(line, bytes.drop_last()), bytes.last())
    }
}

/// Where the first carriage return and line feed pair of `data` starts, if any.
#[verifier::opaque]
pub open spec fn first_crlf(data: Seq<u8>) -> Option<int> {
    if exists|p: int| 0 <= p && p + 1 < data.len() && data[p] == 13u8 && #[trigger] data[p + 1] == 10u8 {
        Some(choose|p: int| 0 <= p && p + 1 < data.len() && data[p] == 13u8 && #[trigger] data[p + 1] == 10u8
            && forall|q: int| 0 <= q < p ==> !(data[q] == 13u8 && #[trigger] data[q + 1] == 10u8))
    } else {
        None
    }
}

/// The lines a chunk of data completes, given the line being typed, and the line left
/// being typed after it. Each carriage return and line feed ends a line.
#[verifier::opaque]
pub open spec fn receive_lines(line: Seq<char>, data: Seq<u8>) -> (Seq<Seq<char>>, Seq<char>)
    decreases data.len(),
{
    match first_crlf(data) {
        Some(p) => if 0 <= p && p + 2 <= data.len() {
            let done = type_bytes(line, data.take(p));
            let (more, left) = receive_lines(Seq::empty(), data.skip(p + 2));
            (seq![done] + more, left)
        } else {
            (Seq::empty(), line)
        },
        None => (Seq::empty(), type_bytes(line, data)),
    }
}

proof fn lemma_crlf_found(line: Seq<char>, rest: Seq<u8>, k: int)
    requires
        0 <= k,
        k + 1 < rest.len(),
        rest[k] == 13u8,
        rest[k + 1] == 10u8,
        forall|q: int| 0 <= q < k ==> !(rest[q] == 13u8 && #[trigger] rest[q + 1] == 10u8),
    ensures
        receive_lines(line, rest) == (
            seq![type_bytes(line, rest.take(k))] + receive_lines(Seq::empty(), rest.skip(k + 2)).0,
            receive_lines(Seq::empty(), rest.skip(k + 2)).1,
        ),
{
    reveal(first_crlf);
    reveal(receive_lines);
    let c = first_crlf(rest);
    assert(rest[k] == 13u8 && rest[k + 1] == 10u8);
    assert(c is Some);
    let cp = c->0;
    assert(0 <= cp && cp + 1 < rest.len() && rest[cp] == 13u8 && rest[cp + 1] == 10u8);
    if cp < k {
        assert(!(rest[cp] == 13u8 && rest[cp + 1] == 10u8));
    }
    if cp > k {
        assert(!(rest[k] == 13u8 && rest[k + 1] == 10u8));
    }
    assert(cp == k);
}

proof fn lemma_crlf_none(line: Seq<char>, rest: Seq<u8>)
    requires
        forall|q: int| 0 <= q && q + 1 < rest.len() ==> !(rest[q] == 13u8 && #[trigger] rest[q + 1] == 10u8),
    ensures
        receive_lines(line, rest) == (Seq::<Seq<char>>::empty(), type_bytes(line, rest)),
{
    reveal(first_crlf);
    reveal(receive_lines);
    assert(first_crlf(rest) is None);
}

/// What to do once a frame from a telnet client has been handled.
pub enum FrameAction {
    /// Hand these completed lines to the engine.
    Deliver(Vec<String>),
    /// Negotiation has finished: tell the engine the client is ready.
    Ready,
    /// Negotiation goes on: send the next configuration frames.
    Configure,
}

/// The input side of a telnet connection: the line being typed, the completed lines not
/// yet handed to the engine, and whether negotiation has finished.
pub struct TelnetInput {
    line: Vec<char>,
    inputs: Vec<String>,
    ready: bool,
}

impl TelnetInput {
    pub closed spec fn typing(&self) -> Seq<char> {
        self.line@
    }

    pub closed spec fn waiting(&self) -> Seq<Seq<char>> {
        strings_view(self.inputs@)
    }

    pub closed spec fn is_ready(&self) -> bool {
        self.ready
    }

    pub fn new() -> (t: TelnetInput)
        ensures
            t.typing() == Seq::<char>::empty(),
            t.waiting() == Seq::<Seq<char>>::empty(),
            !t.is_ready(),
    {
        let t = TelnetInput { line: Vec::new(), inputs: Vec::new(), ready: false };
        assert(t.waiting() =~= Seq::<Seq<char>>::empty());
        t
    }

    fn type_range(&mut self, data: &[u8], from: usize, to: usize)
        requires
            from <= to <= data@.len(),
        ensures
            final(self).typing() == type_bytes(old(self).typing(), data@.subrange(from as int, to as int)),
            final(self).waiting() == old(self).waiting(),
            final(self).is_ready() == old(self).is_ready(),
    {
        let mut i = from;
        while i < to
            invariant
                from <= i <= to <= data@.len(),
                self.typing() == type_bytes(old(self).typing(), data@.subrange(from as int, i as int)),
                self.waiting() == old(self).waiting(),
                self.is_ready() == old(self).is_ready(),
            decreases to - i,
        {
            let b = data[i];
            proof {
                assert(data@.subrange(from as int, i + 1).drop_last() == data@.subrange(from as int, i as int));
                assert(data@.subrange(from as int, i + 1).last() == b);
            }
            if b < 128 {
                if b < 32 || b == 127 {
                    if b == 8 && self.line.len() > 0 {
                        self.line.pop();
                    }
                } else {
                    self.line.push(b as char);
                }
            }
            i = i + 1;
        }
    }

    /// Handles a chunk of data from the client: each carriage return and line feed
    /// completes the line being typed, which then waits for the engine.
    pub fn receive(&mut self, data: &[u8])
        ensures
            final(self).waiting() == old(self).waiting() + receive_lines(old(self).typing(), data@).0,
            final(self).typing() == receive_lines(old(self).typing(), data@).1,
            final(self).is_ready() == old(self).is_ready(),
    {
        let n = data.len();
        let mut start: usize = 0;
        proof {
            assert(data@.skip(0) == data@);
        }
        while start < n
            invariant
                start <= n == data@.len(),
                self.waiting() + receive_lines(self.typing(), data@.skip(start as int)).0
                    == old(self).waiting() + receive_lines(old(self).typing(), data@).0,
                receive_lines(self.typing(), data@.skip(start as int)).1 == receive_lines(old(self).typing(), data@).1,
                self.is_ready() == old(self).is_ready(),
            decreases n - start,
        {
            let ghost rest = data@.skip(start as int);
            let ghost line0 = self.typing();
            let ghost w0 = self.waiting();
            let mut p = start;
            while p < n - 1 && !(data[p] == 13 && data[p + 1] == 10)
                invariant
                    start <= p <= n == data@.len(),
                    n > 0,
                    forall|q: int| start <= q < p ==> !(data@[q] == 13u8 && #[trigger] data@[q + 1] == 10u8),
                decreases n - p,
            {
                p = p + 1;
            }
            if p < n - 1 {
                let ghost k = p - start;
                proof {
                    assert forall|q: int| 0 <= q < k implies !(rest[q] == 13u8 && #[trigger] rest[q + 1] == 10u8) by {
                        assert(rest[q] == data@[start + q]);
                        assert(rest[q + 1] == data@[start + q + 1]);
                    }
                    lemma_crlf_found(line0, rest, k);
                    assert(rest.take(k) =~= data@.subrange(start as int, p as int));
                    assert(rest.skip(k + 2) =~= data@.skip(p + 2));
                }
                self.type_range(data, start, p);
                let mut done: Vec<char> = Vec::new();
                std::mem::swap(&mut done, &mut self.line);
                let ghost dv = done@;
                let s = crate::chars::string_from_chars(&done);
                self.inputs.push(s);
                proof {
                    assert(self.waiting() =~= w0.push(dv));
                    assert(self.typing() =~= Seq::<char>::empty());
                    let more = receive_lines(Seq::empty(), data@.skip(p + 2)).0;
                    assert(w0.push(dv) + more =~= w0 + (seq![dv] + more));
                }
                start = p + 2;
            } else {
                proof {
                    assert forall|q: int| 0 <= q && q + 1 < rest.len() implies !(rest[q] == 13u8 && #[trigger] rest[q + 1] == 10u8) by {
                        assert(rest[q] == data@[start + q]);
                        assert(rest[q + 1] == data@[start + q + 1]);
                    }
                    lemma_crlf_none(line0, rest);
                    assert(rest =~= data@.subrange(start as int, n as int));
                }
                self.type_range(data, start, n);
                proof {
                    lemma_crlf_none(self.typing(), data@.skip(n as int));
                    assert(data@.skip(n as int) =~= Seq::<u8>::empty());
                    assert(type_bytes(self.typing(), Seq::<u8>::empty()) == self.typing());
                    assert(self.waiting() + Seq::<Seq<char>>::empty() =~= self.waiting());
                    assert(w0 + Seq::<Seq<char>>::empty() =~= w0);
                }
                start = n;
            }
        }
        proof {
            lemma_crlf_none(self.typing(), data@.skip(n as int));
            assert(data@.skip(n as int) =~= Seq::<u8>::empty());
            assert(type_bytes(self.typing(), Seq::<u8>::empty()) == self.typing());
            assert(self.waiting() + Seq::<Seq<char>>::empty() =~= self.waiting());
        }
    }

    /// Decides what follows a handled frame: once ready, the waiting lines go to the
    /// engine; otherwise the client becomes ready when negotiation has finished, and
    /// negotiation goes on when it has not.
    pub fn after_frame(&mut self, configured: bool) -> (a: FrameAction)
        ensures
            old(self).is_ready() ==> (a matches FrameAction::Deliver(v) && strings_view(v@) == old(self).waiting())
                && final(self).waiting() == Seq::<Seq<char>>::empty() && final(self).is_ready(),
            !old(self).is_ready() && configured ==> a is Ready && final(self).is_ready()
                && final(self).waiting() == old(self).waiting(),
            !old(self).is_ready() && !configured ==> a is Configure && !final(self).is_ready()
                && final(self).waiting() == old(self).waiting(),
            final(self).typing() == old(self).typing(),
    {
        if self.ready {
            let mut v: Vec<String> = Vec::new();
            std::mem::swap(&mut v, &mut self.inputs);
            assert(self.waiting() =~= Seq::<Seq<char>>::empty());
            FrameAction::Deliver(v)
        } else if configured {
            self.ready = true;
            FrameAction::Ready
        } else {
            FrameAction::Configure
        }
    }
}

/// Text sent to telnet clients is drawn in this color unless it says otherwise.
pub open spec fn gray_prefix() -> Seq<char> {
    "|Gray69|"@
}

/// What a telnet client is sent for a message: the message drawn in the standard gray,
/// rendered for the client's color support, as ASCII bytes. Nothing is sent where the
/// rendering is not ASCII.
pub open spec fn telnet_bytes(message: Seq<char>, support: ColorSupport) -> Option<Seq<u8>> {
    let out = colorize_telnet_spec(gray_prefix() + message, support);
    if forall|i: int| 0 <= i < out.len() ==> (#[trigger] out[i] as u32) < 128 {
        Some(out.map_values(|c: char| (c as u32) as u8))
    } else {
        None
    }
}

/// Renders a message for a telnet client.
pub fn render_for_telnet(message: &str, support: ColorSupport) -> (r: Option<Vec<u8>>)
    ensures
        match telnet_bytes(message@, support) {
            Some(b) => r matches Some(v) && v@ == b,
            None => r is None,
        },
{
    let mut text: Vec<char> = Vec::new();
    push_str(&mut text, "|Gray69|");
    push_str(&mut text, message);
    assert(text@ == gray_prefix() + message@);
    let joined = crate::chars::string_from_chars(&text);
    let rendered = colorize_telnet(joined.as_str(), support);
    let out = chars_of(rendered.as_str());
    let mut bytes: Vec<u8> = Vec::new();
    let mut i: usize = 0;
    while i < out.len()
        invariant
            i <= out.len(),
            out@ == colorize_telnet_spec(gray_prefix() + message@, support),
            bytes@ == out@.take(i as int).map_values(|c: char| (c as u32) as u8),
            forall|k: int| 0 <= k < i ==> (#[trigger] out@[k] as u32) < 128,
        decreases out.len() - i,
    {
        let c = out[i];
        if (c as u32) >= 128 {
            return None;
        }
        bytes.push((c as u32) as u8);
        assert(out@.take(i + 1).map_values(|c: char| (c as u32) as u8)
            =~= out@.take(i as int).map_values(|c: char| (c as u32) as u8).push((c as u32) as u8));
        i = i + 1;
    }
    assert(out@.take(out.len() as int) == out@);
    Some(bytes)
}

/// Whether a carriage return and line feed pair starts at `p`.
pub open spec fn crlf_at(data: Seq<u8>, p: int) -> bool {
    0 <= p && p + 1 < data.len() && data[p] == 13u8 && data[p + 1] == 10u8
}

proof fn type_bytes_concat(line: Seq<char>, x: Seq<u8>, y: Seq<u8>)
    ensures
        type_bytes(line, x + y) == type_bytes(type_bytes(line, x), y),
    decreases y.len(),
{
    if y.len() == 0 {
        assert(x + y =~= x);
    } else {
        assert((x + y).drop_last() =~= x + y.drop_last());
        assert((x + y).last() == y.last());
        type_bytes_concat(line, x, y.drop_last());
    }
}

proof fn first_pair(data: Seq<u8>, p: int)
    requires
        crlf_at(data, p),
    ensures
        exists|k: int| 0 <= k <= p && crlf_at(data, k) && forall|q: int| 0 <= q < k ==> !#[trigger] crlf_at(data, q),
    decreases p,
{
    if exists|q: int| 0 <= q < p && #[trigger] crlf_at(data, q) {
        let q = choose|q: int| 0 <= q < p && #[trigger] crlf_at(data, q);
        first_pair(data, q);
    } else {
        assert(forall|q: int| 0 <= q < p ==> !#[trigger] crlf_at(data, q));
    }
}

#[verifier::rlimit(40)]
proof fn framing_with_pair(line: Seq<char>, a: Seq<u8>, b: Seq<u8>)
    requires
        exists|p: int| #[trigger] crlf_at(a, p),
        !(a.len() > 0 && b.len() > 0 && a.last() == 13u8 && b[0] == 10u8),
    ensures
        ({
            let (l1, t1) = receive_lines(line, a);
            let (l2, t2) = receive_lines(t1, b);
            receive_lines(line, a + b) == (l1 + l2, t2)
        }),
    decreases a.len(), 0int,
{
    let ab = a + b;
    let p0 = choose|p: int| #[trigger] crlf_at(a, p);
    first_pair(a, p0);
    let k = choose|k: int| 0 <= k <= p0 && crlf_at(a, k) && forall|q: int| 0 <= q < k ==> !#[trigger] crlf_at(a, q);
    assert forall|q: int| 0 <= q < k implies !(a[q] == 13u8 && #[trigger] a[q + 1] == 10u8) by {
        assert(!crlf_at(a, q));
    }
    lemma_crlf_found(line, a, k);
    assert forall|q: int| 0 <= q < k implies !(ab[q] == 13u8 && #[trigger] ab[q + 1] == 10u8) by {
        assert(ab[q] == a[q] && ab[q + 1] == a[q + 1]);
        assert(!crlf_at(a, q));
    }
    assert(ab[k] == a[k] && ab[k + 1] == a[k + 1]);
    lemma_crlf_found(line, ab, k);
    let rest = a.skip(k + 2);
    assert(ab.take(k) =~= a.take(k));
    assert(ab.skip(k + 2) =~= rest + b);
    if rest.len() > 0 {
        assert(rest.last() == a.last());
    }
    lines_ignore_framing(Seq::empty(), rest, b);
    let (m1, u1) = receive_lines(Seq::<char>::empty(), rest);
    let (m2, u2) = receive_lines(u1, b);
    assert(seq![type_bytes(line, a.take(k))] + (m1 + m2) =~= seq![type_bytes(line, a.take(k))] + m1 + m2);
}

#[verifier::rlimit(40)]
proof fn framing_without_pair(line: Seq<char>, a: Seq<u8>, b: Seq<u8>)
    requires
        forall|p: int| !#[trigger] crlf_at(a, p),
        !(a.len() > 0 && b.len() > 0 && a.last() == 13u8 && b[0] == 10u8),
    ensures
        ({
            let (l1, t1) = receive_lines(line, a);
            let (l2, t2) = receive_lines(t1, b);
            receive_lines(line, a + b) == (l1 + l2, t2)
        }),
{
    let ab = a + b;
    assert forall|q: int| 0 <= q && q + 1 < a.len() implies !(a[q] == 13u8 && #[trigger] a[q + 1] == 10u8) by {
        assert(!crlf_at(a, q));
    }
    lemma_crlf_none(line, a);
    let t1 = type_bytes(line, a);
    type_bytes_concat(line, a, b);
    if exists|p: int| #[trigger] crlf_at(b, p) {
        let p0 = choose|p: int| #[trigger] crlf_at(b, p);
        first_pair(b, p0);
        let k = choose|k: int| 0 <= k <= p0 && crlf_at(b, k) && forall|q: int| 0 <= q < k ==> !#[trigger] crlf_at(b, q);
        assert forall|q: int| 0 <= q < k implies !(b[q] == 13u8 && #[trigger] b[q + 1] == 10u8) by {
            assert(!crlf_at(b, q));
        }
        lemma_crlf_found(t1, b, k);
        let n = a.len() as int;
        assert forall|q: int| 0 <= q < n + k implies !(ab[q] == 13u8 && #[trigger] ab[q + 1] == 10u8) by {
            if q + 1 < n {
                assert(!crlf_at(a, q));
            } else if q + 1 == n {
                assert(ab[q] == a.last() && ab[q + 1] == b[0]);
            } else {
                assert(ab[q] == b[q - n] && ab[q + 1] == b[q - n + 1]);
                assert(!crlf_at(b, q - n));
            }
        }
        assert(ab[n + k] == b[k] && ab[n + k + 1] == b[k + 1]);
        lemma_crlf_found(line, ab, n + k);
        assert(ab.take(n + k) =~= a + b.take(k));
        type_bytes_concat(line, a, b.take(k));
        assert(ab.skip(n + k + 2) =~= b.skip(k + 2));
        assert(Seq::<Seq<char>>::empty() + (seq![type_bytes(t1, b.take(k))] + receive_lines(Seq::<char>::empty(), b.skip(k + 2)).0)
            =~= seq![type_bytes(t1, b.take(k))] + receive_lines(Seq::<char>::empty(), b.skip(k + 2)).0);
    } else {
        assert forall|q: int| 0 <= q && q + 1 < b.len() implies !(b[q] == 13u8 && #[trigger] b[q + 1] == 10u8) by {
            assert(!crlf_at(b, q));
        }
        lemma_crlf_none(t1, b);
        let n = a.len() as int;
        assert forall|q: int| 0 <= q && q + 1 < ab.len() implies !(ab[q] == 13u8 && #[trigger] ab[q + 1] == 10u8) by {
            if q + 1 < n {
                assert(!crlf_at(a, q));
            } else if q + 1 == n {
                assert(ab[q] == a.last() && ab[q + 1] == b[0]);
            } else {
                assert(ab[q] == b[q - n] && ab[q + 1] == b[q - n + 1]);
                assert(!crlf_at(b, q - n));
            }
        }
        lemma_crlf_none(line, ab);
        assert(Seq::<Seq<char>>::empty() + Seq::<Seq<char>>::empty() =~= Seq::<Seq<char>>::empty());
    }
}

/// Lines read from a stream do not depend on how the stream is cut into frames, as long
/// as no cut falls between a carriage return and the line feed that follows it.
pub proof fn lines_ignore_framing(line: Seq<char>, a: Seq<u8>, b: Seq<u8>)
    requires
        !(a.len() > 0 && b.len() > 0 && a.last() == 13u8 && b[0] == 10u8),
    ensures
        ({
            let (l1, t1) = receive_lines(line, a);
            let (l2, t2) = receive_lines(t1, b);
            receive_lines(line, a + b) == (l1 + l2, t2)
        }),
    decreases a.len(), 1int,
{
    if exists|p: int| #[trigger] crlf_at(a, p) {
        framing_with_pair(line, a, b);
    } else {
        framing_without_pair(line, a, b);
    }
}

} // verus!
