use vstd::prelude::*;
use crate::chars::{chars_of, string_from_chars};

verus! {

/// A game entity, by its id bits.
#[derive(Debug, Copy, Clone, PartialEq, Eq, Structural)]
pub struct EntityId(pub u64);

/// A connected client, by number.
#[derive(Debug, Copy, Clone, PartialEq, Eq, Structural)]
pub struct ClientId(pub usize);

impl ClientId {
    pub fn id(&self) -> (r: usize)
        ensures
            r == self.0,
    {
        self.0
    }
}

/// Whether messages end in a prompt, and whether the input it asks for is secret.
#[derive(Debug, Copy, Clone, PartialEq, Eq, Structural)]
pub enum SendPrompt {
    NoPrompt,
    Prompt,
    Sensitive,
}

/// Something that happened to a client.
#[derive(Debug, Clone)]
pub enum ClientEvent<'a> {
    Advance,
    Disconnect,
    Input(&'a str),
    PasswordHash(Option<String>),
    PasswordVerification(Option<bool>),
    Ready,
}

/// Lines to send to a client, with the kind of prompt that follows them.
pub struct ClientOutput {
    pub prompt: SendPrompt,
    pub messages: Vec<String>,
}

/// Lines to send, as character sequences.
pub struct OutputView {
    pub prompt: SendPrompt,
    pub messages: Seq<Seq<char>>,
}

pub open spec fn lines_view(v: Seq<String>) -> Seq<Seq<char>> {
    v.map_values(|s: String| s@)
}

impl View for ClientOutput {
    type V = OutputView;

    open spec fn view(&self) -> OutputView {
        OutputView { prompt: self.prompt, messages: lines_view(self.messages@) }
    }
}

pub open spec fn outputs_view(v: Seq<ClientOutput>) -> Seq<OutputView> {
    v.map_values(|o: ClientOutput| o@)
}

/// An owned copy of a string slice.
pub fn owned(s: &str) -> (r: String)
    ensures
        r@ == s@,
{
    string_from_chars(&chars_of(s))
}

/// Output of one line.
pub fn one_line(prompt: SendPrompt, line: &str) -> (o: ClientOutput)
    ensures
        o@ == (OutputView { prompt, messages: seq![line@] }),
{
    let mut messages: Vec<String> = Vec::new();
    messages.push(owned(line));
    let o = ClientOutput { prompt, messages };
    assert(o@.messages =~= seq![line@]);
    o
}

/// Output of two lines.
pub fn two_lines(prompt: SendPrompt, first: &str, second: &str) -> (o: ClientOutput)
    ensures
        o@ == (OutputView { prompt, messages: seq![first@, second@] }),
{
    let mut messages: Vec<String> = Vec::new();
    messages.push(owned(first));
    messages.push(owned(second));
    let o = ClientOutput { prompt, messages };
    assert(o@.messages =~= seq![first@, second@]);
    o
}

pub fn push_output(v: &mut Vec<ClientOutput>, o: ClientOutput)
    ensures
        outputs_view(final(v)@) == outputs_view(old(v)@).push(o@),
{
    let ghost ov = o@;
    v.push(o);
    assert(outputs_view(v@) =~= outputs_view(old(v)@).push(ov));
}

} // verus!

verus! {

/// Whether two strings are equal, character by character.
pub fn same_text(a: &str, b: &str) -> (r: bool)
    ensures
        r == (a@ == b@),
{
    let x = chars_of(a);
    let y = chars_of(b);
    if x.len() != y.len() {
        return false;
    }
    let mut i: usize = 0;
    while i < x.len()
        invariant
            x.len() == y.len(),
            x@ == a@,
            y@ == b@,
            i <= x.len(),
            forall|k: int| 0 <= k < i ==> x@[k] == y@[k],
        decreases x.len() - i,
    {
        if x[i] != y[i] {
            assert(x@[i as int] != y@[i as int]);
            return false;
        }
        i = i + 1;
    }
    assert(x@ =~= y@);
    true
}

} // verus!

verus! {

/// Output of three lines.
pub fn three_lines(prompt: SendPrompt, first: &str, second: &str, third: &str) -> (o: ClientOutput)
    ensures
        o@ == (OutputView { prompt, messages: seq![first@, second@, third@] }),
{
    let mut messages: Vec<String> = Vec::new();
    messages.push(owned(first));
    messages.push(owned(second));
    messages.push(owned(third));
    let o = ClientOutput { prompt, messages };
    assert(o@.messages =~= seq![first@, second@, third@]);
    o
}

} // verus!
