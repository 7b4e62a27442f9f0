use vstd::prelude::*;
use crate::chars::{chars_of, push_chars, push_str, string_from_chars};

verus! {

/// The strings of a list joined by a separator.
pub open spec fn join(words: Seq<Seq<char>>, sep: Seq<char>) -> Seq<char>
    decreases words.len(),
{
    if words.len() == 0 {
        seq![]
    } else if words.len() == 1 {
        words[0]
    } else {
        join(words.drop_last(), sep) + sep + words.last()
    }
}

/// A list in prose: `a`, `a and b`, `a, b, and c`.
pub open spec fn word_list_spec(words: Seq<Seq<char>>) -> Seq<char> {
    if words.len() == 0 {
        seq![]
    } else if words.len() == 1 {
        words[0]
    } else if words.len() == 2 {
        words[0] + " and "@ + words[1]
    } else {
        join(words.drop_last(), ", "@) + ", and "@ + words.last()
    }
}

pub open spec fn strings_view(words: Seq<String>) -> Seq<Seq<char>> {
    words.map_values(|w: String| w@)
}

/// Joins `words[..n]` with a separator.
fn join_prefix(words: &Vec<String>, n: usize, sep: &str) -> (r: Vec<char>)
    requires
        n <= words.len(),
    ensures
        r@ == join(strings_view(words@).take(n as int), sep@),
{
    let ghost ws = strings_view(words@);
    let mut out: Vec<char> = Vec::new();
    let mut i: usize = 0;
    while i < n
        invariant
            i <= n <= words.len(),
            ws == strings_view(words@),
            out@ == join(ws.take(i as int), sep@),
        decreases n - i,
    {
        let ghost before = out@;
        if i > 0 {
            push_str(&mut out, sep);
        }
        let w = chars_of(words[i].as_str());
        push_chars(&mut out, &w);
        proof {
            let t = ws.take(i + 1);
            assert(t.drop_last() == ws.take(i as int));
            assert(t.last() == words@[i as int]@);
            if i == 0 {
                assert(ws.take(0) =~= Seq::<Seq<char>>::empty());
                assert(t.len() == 1);
                assert(out@ =~= Seq::<char>::empty() + w@);
            }
        }
        i = i + 1;
    }
    out
}

/// Joins all the strings of a list with a separator (`[String]::join`).
pub fn join_words(words: &Vec<String>, sep: &str) -> (r: String)
    ensures
        r@ == join(strings_view(words@), sep@),
{
    let out = join_prefix(words, words.len(), sep);
    assert(strings_view(words@).take(words.len() as int) == strings_view(words@));
    string_from_chars(&out)
}

/// Lists words in prose: nothing, one word, `a and b`, or `a, b, and c`.
pub fn word_list(words: Vec<String>) -> (r: String)
    ensures
        r@ == word_list_spec(strings_view(words@)),
{
    let ghost ws = strings_view(words@);
    let n = words.len();
    if n == 0 {
        String::new()
    } else if n == 1 {
        words[0].clone()
    } else if n == 2 {
        let mut out = chars_of(words[0].as_str());
        push_str(&mut out, " and ");
        let w1 = chars_of(words[1].as_str());
        push_chars(&mut out, &w1);
        string_from_chars(&out)
    } else {
        let mut out = join_prefix(&words, n - 1, ", ");
        proof {
            assert(ws.take(n - 1) == ws.drop_last());
        }
        push_str(&mut out, ", and ");
        let last = chars_of(words[n - 1].as_str());
        push_chars(&mut out, &last);
        string_from_chars(&out)
    }
}

/// Unicode white space (the `White_Space` property).
pub open spec fn is_whitespace(c: char) -> bool {
    ||| '\t' <= c <= '\r'
    ||| c == ' '
    ||| c == '\u{85}'
    ||| c == '\u{a0}'
    ||| c == '\u{1680}'
    ||| '\u{2000}' <= c <= '\u{200a}'
    ||| c == '\u{2028}'
    ||| c == '\u{2029}'
    ||| c == '\u{202f}'
    ||| c == '\u{205f}'
    ||| c == '\u{3000}'
}

pub fn is_whitespace_char(c: char) -> (b: bool)
    ensures
        b == is_whitespace(c),
{
    ('\t' <= c && c <= '\r') || c == ' ' || c == '\u{85}' || c == '\u{a0}' || c == '\u{1680}' || (
    '\u{2000}' <= c && c <= '\u{200a}') || c == '\u{2028}' || c == '\u{2029}' || c == '\u{202f}'
        || c == '\u{205f}' || c == '\u{3000}'
}

/// The number of white space characters that `s` starts with.
pub open spec fn leading_ws(s: Seq<char>) -> int
    decreases s.len(),
{
    if s.len() > 0 && is_whitespace(s[0]) {
        1 + leading_ws(s.drop_first())
    } else {
        0
    }
}

/// The index of the first white space character at or after `k`.
pub open spec fn next_ws(s: Seq<char>, k: int) -> Option<int>
    decreases s.len() - k,
{
    if k < 0 || k >= s.len() {
        None
    } else if is_whitespace(s[k]) {
        Some(k)
    } else {
        next_ws(s, k + 1)
    }
}

/// The next token of `rest`, and how many characters it consumes: leading white space
/// is skipped, the token runs to the next white space, which is consumed too. When no
/// white space follows, the rest is the last token (empty where `rest` is all white
/// space); an empty `rest` has no token.
pub open spec fn next_token(rest: Seq<char>) -> Option<(Seq<char>, int)> {
    let k = leading_ws(rest);
    match next_ws(rest, k) {
        Some(j) => Some((rest.subrange(k, j), j + 1)),
        None => if rest.len() > 0 {
            Some((rest.subrange(k, rest.len() as int), rest.len() as int))
        } else {
            None
        },
    }
}

pub proof fn lemma_leading_ws(s: Seq<char>, k: int)
    requires
        0 <= k <= s.len(),
        forall|m: int| 0 <= m < k ==> #[trigger] is_whitespace(s[m]),
        k == s.len() || !is_whitespace(s[k]),
    ensures
        leading_ws(s) == k,
    decreases k,
{
    if k > 0 {
        let t = s.drop_first();
        assert forall|m: int| 0 <= m < k - 1 implies #[trigger] is_whitespace(t[m]) by {
            assert(t[m] == s[m + 1]);
        }
        if k - 1 < t.len() {
            assert(t[k - 1] == s[k]);
        }
        lemma_leading_ws(t, k - 1);
    }
}

proof fn lemma_next_ws(s: Seq<char>, k: int, j: int)
    requires
        0 <= k <= j <= s.len(),
        forall|m: int| k <= m < j ==> !is_whitespace(#[trigger] s[m]),
    ensures
        j < s.len() && is_whitespace(s[j]) ==> next_ws(s, k) == Some(j),
        j == s.len() ==> next_ws(s, k) is None,
    decreases j - k,
{
    if k < j {
        lemma_next_ws(s, k + 1, j);
    }
}

/// Splits input into white-space separated tokens.
pub struct Tokenizer<'a> {
    input: &'a str,
    chars: Vec<char>,
    offset: usize,
}

impl<'a> Tokenizer<'a> {
    /// The characters not yet consumed.
    pub closed spec fn rest_view(&self) -> Seq<char> {
        self.chars@.subrange(self.offset as int, self.chars@.len() as int)
    }

    pub closed spec fn wf(&self) -> bool {
        &&& self.chars@ == self.input@
        &&& self.offset <= self.chars@.len()
    }

    pub fn new(input: &'a str) -> (t: Self)
        ensures
            t.wf(),
            t.rest_view() == input@,
    {
        let chars = chars_of(input);
        let t = Tokenizer { input, chars, offset: 0 };
        assert(t.chars@.subrange(0, t.chars@.len() as int) == t.chars@);
        t
    }

    /// The input not yet consumed.
    pub fn rest(&self) -> (r: &'a str)
        requires
            self.wf(),
        ensures
            r@ == self.rest_view(),
    {
        self.input.substring_char(self.offset, self.chars.len())
    }

    /// The next token, if any.
    pub fn next(&mut self) -> (r: Option<&'a str>)
        requires
            old(self).wf(),
        ensures
            final(self).wf(),
            match next_token(old(self).rest_view()) {
                Some((token, used)) => r matches Some(t) && t@ == token
                    && final(self).rest_view() == old(self).rest_view().subrange(
                    used,
                    old(self).rest_view().len() as int,
                ),
                None => r is None && final(self).rest_view() == old(self).rest_view(),
            },
    {
        let ghost rest = self.rest_view();
        let n = self.chars.len();
        let start = self.offset;
        let mut k = start;
        while k < n && is_whitespace_char(self.chars[k])
            invariant
                start <= k <= n == self.chars.len(),
                forall|m: int| start <= m < k ==> #[trigger] is_whitespace(self.chars@[m]),
            decreases n - k,
        {
            k = k + 1;
        }
        proof {
            assert forall|m: int| 0 <= m < k - start implies #[trigger] is_whitespace(rest[m]) by {
                assert(rest[m] == self.chars@[start + m]);
            }
            if k < n {
                assert(rest[k - start] == self.chars@[k as int]);
            }
            lemma_leading_ws(rest, k - start);
        }
        let mut j = k;
        while j < n && !is_whitespace_char(self.chars[j])
            invariant
                k <= j <= n == self.chars.len(),
                forall|m: int| k <= m < j ==> !is_whitespace(#[trigger] self.chars@[m]),
            decreases n - j,
        {
            j = j + 1;
        }
        proof {
            assert forall|m: int| k - start <= m < j - start implies !is_whitespace(#[trigger] rest[m]) by {
                assert(rest[m] == self.chars@[start + m]);
            }
            if j < n {
                assert(rest[j - start] == self.chars@[j as int]);
            }
            lemma_next_ws(rest, k - start, j - start);
        }
        if j < n {
            let token = self.input.substring_char(k, j);
            self.offset = j + 1;
            proof {
                assert(token@ == rest.subrange(k - start, j - start));
                assert(self.rest_view() == rest.subrange(j - start + 1, rest.len() as int));
            }
            Some(token)
        } else if start < n {
            let token = self.input.substring_char(k, n);
            self.offset = n;
            proof {
                assert(token@ == rest.subrange(k - start, rest.len() as int));
                assert(self.rest_view() =~= rest.subrange(rest.len() as int, rest.len() as int));
            }
            Some(token)
        } else {
            None
        }
    }
}

} // verus!

verus! {

/// The number of white space characters that `s` ends with.
pub open spec fn trailing_ws(s: Seq<char>) -> int
    decreases s.len(),
{
    if s.len() > 0 && is_whitespace(s.last()) {
        1 + trailing_ws(s.drop_last())
    } else {
        0
    }
}

/// `s` without leading and trailing white space.
pub open spec fn trim_spec(s: Seq<char>) -> Seq<char> {
    if leading_ws(s) >= s.len() {
        seq![]
    } else {
        s.subrange(leading_ws(s), s.len() - trailing_ws(s))
    }
}

proof fn lemma_trailing_ws(s: Seq<char>, k: int)
    requires
        0 <= k <= s.len(),
        forall|m: int| s.len() - k <= m < s.len() ==> #[trigger] is_whitespace(s[m]),
        k == s.len() || !is_whitespace(s[s.len() - k - 1]),
    ensures
        trailing_ws(s) == k,
    decreases k,
{
    if k > 0 {
        let t = s.drop_last();
        assert forall|m: int| t.len() - (k - 1) <= m < t.len() implies #[trigger] is_whitespace(t[m]) by {
            assert(t[m] == s[m]);
        }
        if k - 1 < t.len() {
            assert(t[t.len() - (k - 1) - 1] == s[s.len() - k - 1]);
        }
        lemma_trailing_ws(t, k - 1);
    }
}

/// The string without leading and trailing white space.
pub fn trim(s: &str) -> (r: &str)
    ensures
        r@ == trim_spec(s@),
{
    let chars = chars_of(s);
    let n = chars.len();
    let mut k: usize = 0;
    while k < n && is_whitespace_char(chars[k])
        invariant
            k <= n == chars.len(),
            forall|m: int| 0 <= m < k ==> #[trigger] is_whitespace(chars@[m]),
        decreases n - k,
    {
        k = k + 1;
    }
    proof {
        lemma_leading_ws(chars@, k as int);
    }
    if k == n {
        return s.substring_char(n, n);
    }
    let mut e: usize = n;
    while e > k && is_whitespace_char(chars[e - 1])
        invariant
            k < n == chars.len(),
            k <= e <= n,
            forall|m: int| e <= m < n ==> #[trigger] is_whitespace(chars@[m]),
        decreases e,
    {
        e = e - 1;
    }
    proof {
        assert(!is_whitespace(chars@[k as int]));
        lemma_trailing_ws(chars@, (n - e) as int);
    }
    s.substring_char(k, e)
}

} // verus!

verus! {

/// The white-space separated words of a text, in order (`str::split_whitespace`).
pub open spec fn ws_words(s: Seq<char>) -> Seq<Seq<char>>
    decreases s.len(),
{
    if s.len() == 0 {
        seq![]
    } else {
        let prev = ws_words(s.drop_last());
        let c = s.last();
        if is_whitespace(c) {
            prev
        } else if s.len() >= 2 && !is_whitespace(s[s.len() - 2]) {
            prev.update(prev.len() - 1, prev.last().push(c))
        } else {
            prev.push(seq![c])
        }
    }
}

proof fn lemma_ws_words_nonempty(s: Seq<char>)
    requires
        s.len() > 0,
        !is_whitespace(s.last()),
    ensures
        ws_words(s).len() > 0,
    decreases s.len(),
{
    if s.len() >= 2 && !is_whitespace(s[s.len() - 2]) {
        assert(s.drop_last().last() == s[s.len() - 2]);
        lemma_ws_words_nonempty(s.drop_last());
    }
}

/// The pieces of a text between the separators, in order; a text holds one more piece
/// than separators, empty ones included (`str::split` on a character).
pub open spec fn split_on(s: Seq<char>, sep: char) -> Seq<Seq<char>>
    decreases s.len(),
{
    if s.len() == 0 {
        seq![seq![]]
    } else {
        let prev = split_on(s.drop_last(), sep);
        if s.last() == sep {
            prev.push(seq![])
        } else {
            prev.update(prev.len() - 1, prev.last().push(s.last()))
        }
    }
}

proof fn lemma_split_on_len(s: Seq<char>, sep: char)
    ensures
        split_on(s, sep).len() >= 1,
    decreases s.len(),
{
    if s.len() > 0 {
        lemma_split_on_len(s.drop_last(), sep);
    }
}

/// Each piece of `split_on(s, ' ')` without its leading and trailing white space.
pub open spec fn trimmed_pieces(s: Seq<char>) -> Seq<Seq<char>> {
    split_on(s, ' ').map_values(|p: Seq<char>| trim_spec(p))
}

/// The white-space separated words of a text.
pub fn split_whitespace(s: &str) -> (v: Vec<String>)
    ensures
        strings_view(v@) == ws_words(s@),
{
    let chars = chars_of(s);
    let mut words: Vec<String> = Vec::new();
    let mut cur: Vec<char> = Vec::new();
    let mut in_word = false;
    let mut i: usize = 0;
    while i < chars.len()
        invariant
            i <= chars.len(),
            chars@ == s@,
            in_word == (i > 0 && !is_whitespace(chars@[i - 1])),
            !in_word ==> cur@.len() == 0,
            in_word ==> strings_view(words@).push(cur@) == ws_words(chars@.take(i as int)),
            !in_word ==> strings_view(words@) == ws_words(chars@.take(i as int)),
        decreases chars.len() - i,
    {
        let c = chars[i];
        let ghost t = chars@.take(i + 1);
        proof {
            assert(t.drop_last() =~= chars@.take(i as int));
            assert(t.last() == c);
            if i >= 1 {
                assert(t[t.len() - 2] == chars@[i - 1]);
            }
        }
        let ghost before = strings_view(words@);
        let ghost raw = words@;
        if is_whitespace_char(c) {
            if in_word {
                let w = string_from_chars(&cur);
                words.push(w);
                proof {
                    raw.lemma_push_map_commute(|x: String| x@, w);
                    assert(strings_view(words@) =~= before.push(cur@));
                }
                cur = Vec::new();
                in_word = false;
            }
        } else {
            let ghost old_cur = cur@;
            cur.push(c);
            proof {
                if in_word {
                    assert(before.push(old_cur).update(before.len() as int, old_cur.push(c)) =~= before.push(cur@));
                } else {
                    assert(cur@ =~= seq![c]);
                }
            }
            in_word = true;
        }
        i = i + 1;
    }
    assert(chars@.take(chars.len() as int) =~= chars@);
    if in_word {
        let ghost before = strings_view(words@);
        let ghost raw = words@;
        let w = string_from_chars(&cur);
        words.push(w);
        proof {
            raw.lemma_push_map_commute(|x: String| x@, w);
        }
    }
    words
}

/// The pieces of a text between the separators.
pub fn split_char(s: &str, sep: char) -> (v: Vec<String>)
    ensures
        strings_view(v@) == split_on(s@, sep),
{
    let chars = chars_of(s);
    let mut words: Vec<String> = Vec::new();
    let mut cur: Vec<char> = Vec::new();
    let mut i: usize = 0;
    while i < chars.len()
        invariant
            i <= chars.len(),
            chars@ == s@,
            strings_view(words@).push(cur@) == split_on(chars@.take(i as int), sep),
        decreases chars.len() - i,
    {
        let c = chars[i];
        let ghost t = chars@.take(i + 1);
        proof {
            assert(t.drop_last() =~= chars@.take(i as int));
            assert(t.last() == c);
        }
        let ghost before = strings_view(words@);
        let ghost raw = words@;
        let ghost old_cur = cur@;
        if c == sep {
            let w = string_from_chars(&cur);
            words.push(w);
            proof {
                raw.lemma_push_map_commute(|x: String| x@, w);
                assert(strings_view(words@).push(Seq::<char>::empty()) =~= before.push(old_cur).push(seq![]));
            }
            cur = Vec::new();
        } else {
            cur.push(c);
            proof {
                assert(before.push(old_cur).update(before.len() as int, old_cur.push(c)) =~= before.push(cur@));
            }
        }
        i = i + 1;
    }
    assert(chars@.take(chars.len() as int) =~= chars@);
    let ghost before = strings_view(words@);
        let ghost raw = words@;
    let w = string_from_chars(&cur);
    words.push(w);
    proof {
        raw.lemma_push_map_commute(|x: String| x@, w);
    }
    words
}

/// The pieces of a text between spaces, each trimmed of white space.
pub fn split_spaces_trimmed(s: &str) -> (v: Vec<String>)
    ensures
        strings_view(v@) == trimmed_pieces(s@),
{
    let pieces = split_char(s, ' ');
    let ghost ps = strings_view(pieces@);
    let mut out: Vec<String> = Vec::new();
    let mut i: usize = 0;
    while i < pieces.len()
        invariant
            i <= pieces.len(),
            ps == strings_view(pieces@),
            ps == split_on(s@, ' '),
            strings_view(out@) == ps.take(i as int).map_values(|p: Seq<char>| trim_spec(p)),
        decreases pieces.len() - i,
    {
        let ghost before = strings_view(out@);
        let ghost raw = out@;
        let t = trim(pieces[i].as_str());
        let w = string_from_chars(&chars_of(t));
        out.push(w);
        proof {
            raw.lemma_push_map_commute(|x: String| x@, w);
            assert(ps.take(i + 1).map_values(|p: Seq<char>| trim_spec(p)) =~= ps.take(i as int).map_values(
                |p: Seq<char>| trim_spec(p),
            ).push(trim_spec(ps[i as int])));
        }
        i = i + 1;
    }
    assert(ps.take(pieces.len() as int) =~= ps);
    out
}

} // verus!

verus! {

/// Every word of `ws_words(s)` is non-empty and holds no white space.
pub proof fn ws_words_are_words(s: Seq<char>)
    ensures
        forall|k: int| 0 <= k < ws_words(s).len() ==> (#[trigger] ws_words(s)[k]).len() > 0 && forall|m: int|
            0 <= m < ws_words(s)[k].len() ==> !is_whitespace(#[trigger] ws_words(s)[k][m]),
    decreases s.len(),
{
    if s.len() > 0 {
        ws_words_are_words(s.drop_last());
        let prev = ws_words(s.drop_last());
        let c = s.last();
        if !is_whitespace(c) && s.len() >= 2 && !is_whitespace(s[s.len() - 2]) {
            assert(s.drop_last().last() == s[s.len() - 2]);
            lemma_ws_words_nonempty(s.drop_last());
            let w = prev.last().push(c);
            assert forall|m: int| 0 <= m < w.len() implies !is_whitespace(#[trigger] w[m]) by {
                if m < w.len() - 1 {
                    assert(w[m] == prev[prev.len() - 1][m]);
                }
            }
        }
    }
}

proof fn lemma_join_extend_last(ws: Seq<Seq<char>>, sep: Seq<char>, c: char)
    requires
        ws.len() >= 1,
    ensures
        join(ws.update(ws.len() - 1, ws.last().push(c)), sep) == join(ws, sep).push(c),
{
    let u = ws.update(ws.len() - 1, ws.last().push(c));
    assert(u.drop_last() =~= ws.drop_last());
    if ws.len() == 1 {
        assert(u[0] == ws[0].push(c));
    } else {
        assert(join(u, sep) == join(ws.drop_last(), sep) + sep + ws.last().push(c));
        assert(join(ws.drop_last(), sep) + sep + ws.last().push(c) =~= (join(ws.drop_last(), sep) + sep + ws.last()).push(c));
    }
}

/// Joining the pieces of a text, split at a separator, with that separator gives the text
/// back.
pub proof fn split_then_join(s: Seq<char>, sep: char)
    ensures
        join(split_on(s, sep), seq![sep]) == s,
    decreases s.len(),
{
    if s.len() == 0 {
        assert(split_on(s, sep) =~= seq![Seq::<char>::empty()]);
        assert(s =~= Seq::<char>::empty());
    } else {
        split_then_join(s.drop_last(), sep);
        lemma_split_on_len(s.drop_last(), sep);
        let prev = split_on(s.drop_last(), sep);
        if s.last() == sep {
            let n = prev.push(seq![]);
            assert(n.drop_last() =~= prev);
            assert(join(n, seq![sep]) == join(prev, seq![sep]) + seq![sep] + Seq::<char>::empty());
            assert(s =~= s.drop_last() + seq![sep] + Seq::<char>::empty());
        } else {
            lemma_join_extend_last(prev, seq![sep], s.last());
            assert(s =~= s.drop_last().push(s.last()));
        }
    }
}

/// The tokens a tokenizer hands out for a text, in order, until it hands out none.
pub open spec fn tokens(rest: Seq<char>) -> Seq<Seq<char>>
    decreases rest.len(),
{
    match next_token(rest) {
        Some((t, used)) => if 0 < used <= rest.len() {
            seq![t] + tokens(rest.subrange(used, rest.len() as int))
        } else {
            seq![]
        },
        None => seq![],
    }
}

/// Whether the tokenizer meets a rest that is nothing but white space, and hands out an
/// empty token for it: the text is one white space character, or ends with two.
pub open spec fn ends_in_blank(s: Seq<char>) -> bool {
    &&& s.len() > 0
    &&& is_whitespace(s.last())
    &&& (s.len() == 1 || is_whitespace(s[s.len() - 2]))
}

proof fn leading_ws_facts(s: Seq<char>)
    ensures
        0 <= leading_ws(s) <= s.len(),
        forall|m: int| 0 <= m < leading_ws(s) ==> #[trigger] is_whitespace(s[m]),
        leading_ws(s) < s.len() ==> !is_whitespace(s[leading_ws(s)]),
    decreases s.len(),
{
    if s.len() > 0 && is_whitespace(s[0]) {
        leading_ws_facts(s.drop_first());
        assert forall|m: int| 0 <= m < leading_ws(s) implies #[trigger] is_whitespace(s[m]) by {
            if m > 0 {
                assert(s[m] == s.drop_first()[m - 1]);
            }
        }
        if leading_ws(s) < s.len() {
            assert(s[leading_ws(s)] == s.drop_first()[leading_ws(s) - 1]);
        }
    }
}

proof fn next_ws_facts(s: Seq<char>, k: int)
    requires
        0 <= k <= s.len(),
    ensures
        next_ws(s, k) matches Some(j) ==> k <= j < s.len() && is_whitespace(s[j])
            && forall|m: int| k <= m < j ==> !is_whitespace(#[trigger] s[m]),
        next_ws(s, k) is None ==> forall|m: int| k <= m < s.len() ==> !is_whitespace(#[trigger] s[m]),
    decreases s.len() - k,
{
    if k < s.len() && !is_whitespace(s[k]) {
        next_ws_facts(s, k + 1);
    }
}

proof fn ws_words_blank(s: Seq<char>)
    requires
        forall|m: int| 0 <= m < s.len() ==> #[trigger] is_whitespace(s[m]),
    ensures
        ws_words(s) == Seq::<Seq<char>>::empty(),
    decreases s.len(),
{
    if s.len() > 0 {
        assert forall|m: int| 0 <= m < s.drop_last().len() implies #[trigger] is_whitespace(s.drop_last()[m]) by {
            assert(s.drop_last()[m] == s[m]);
        }
        ws_words_blank(s.drop_last());
        assert(is_whitespace(s[s.len() - 1]));
    }
}

proof fn ws_words_one_word(w: Seq<char>)
    requires
        w.len() > 0,
        forall|m: int| 0 <= m < w.len() ==> !is_whitespace(#[trigger] w[m]),
    ensures
        ws_words(w) == seq![w],
    decreases w.len(),
{
    let c = w.last();
    assert(!is_whitespace(w[w.len() - 1]));
    if w.len() == 1 {
        assert(ws_words(w.drop_last()) =~= Seq::<Seq<char>>::empty());
        assert(w =~= seq![c]);
    } else {
        assert forall|m: int| 0 <= m < w.drop_last().len() implies !is_whitespace(#[trigger] w.drop_last()[m]) by {
            assert(w.drop_last()[m] == w[m]);
        }
        ws_words_one_word(w.drop_last());
        assert(!is_whitespace(w[w.len() - 2]));
        assert(w.drop_last().push(c) =~= w);
        assert(seq![w.drop_last()].update(0, w.drop_last().push(c)) =~= seq![w]);
    }
}

proof fn ws_words_split(a: Seq<char>, b: Seq<char>)
    requires
        a.len() > 0,
        is_whitespace(a.last()),
    ensures
        ws_words(a + b) == ws_words(a) + ws_words(b),
    decreases b.len(),
{
    if b.len() == 0 {
        assert(a + b =~= a);
        assert(ws_words(a) + ws_words(b) =~= ws_words(a));
    } else {
        let ab = a + b;
        assert(ab.drop_last() =~= a + b.drop_last());
        assert(ab.last() == b.last());
        ws_words_split(a, b.drop_last());
        let c = b.last();
        if !is_whitespace(c) {
            if b.len() >= 2 {
                assert(ab[ab.len() - 2] == b[b.len() - 2]);
                assert(b.drop_last().last() == b[b.len() - 2]);
                if !is_whitespace(b[b.len() - 2]) {
                    lemma_ws_words_nonempty(b.drop_last());
                    let pa = ws_words(a);
                    let pb = ws_words(b.drop_last());
                    assert((pa + pb).update((pa + pb).len() - 1, (pa + pb).last().push(c))
                        =~= pa + pb.update(pb.len() - 1, pb.last().push(c)));
                } else {
                    assert((ws_words(a) + ws_words(b.drop_last())).push(seq![c]) =~= ws_words(a) + ws_words(b.drop_last()).push(seq![c]));
                }
            } else {
                assert(ab[ab.len() - 2] == a.last());
                assert(b.drop_last() =~= Seq::<char>::empty());
                assert((ws_words(a) + ws_words(b.drop_last())).push(seq![c]) =~= ws_words(a) + ws_words(b.drop_last()).push(seq![c]));
            }
        }
    }
}

/// The tokenizer hands out exactly the white-space separated words of a text, unless the
/// text is one white space character or ends with two, where it hands out an empty token
/// at the end as well.
pub proof fn tokens_are_words(s: Seq<char>)
    ensures
        !ends_in_blank(s) ==> tokens(s) == ws_words(s),
    decreases s.len(),
{
    if !ends_in_blank(s) && s.len() > 0 {
        leading_ws_facts(s);
        let k = leading_ws(s);
        next_ws_facts(s, k);
        let lead = s.subrange(0, k);
        assert forall|m: int| 0 <= m < lead.len() implies #[trigger] is_whitespace(lead[m]) by {
            assert(lead[m] == s[m]);
        }
        ws_words_blank(lead);
        match next_ws(s, k) {
            Some(j) => {
                let word = s.subrange(k, j);
                let rest = s.subrange(j + 1, s.len() as int);
                assert(j > k);
                assert forall|m: int| 0 <= m < word.len() implies !is_whitespace(#[trigger] word[m]) by {
                    assert(word[m] == s[k + m]);
                }
                ws_words_one_word(word);
                let front = s.subrange(0, j + 1);
                assert(front.drop_last() =~= lead + word);
                assert(front.last() == s[j]);
                if k > 0 {
                    ws_words_split(lead, word);
                    assert(ws_words(lead) + ws_words(word) =~= seq![word]);
                } else {
                    assert(lead + word =~= word);
                }
                assert(ws_words(front) == seq![word]);
                assert(s =~= front + rest);
                ws_words_split(front, rest);
                if rest.len() > 0 {
                    assert(rest.last() == s.last());
                    if rest.len() >= 2 {
                        assert(rest[rest.len() - 2] == s[s.len() - 2]);
                    } else {
                        assert(s[s.len() - 2] == s[j]);
                    }
                }
                tokens_are_words(rest);
            },
            None => {
                if k == s.len() {
                    assert(is_whitespace(s[s.len() - 1]));
                    if s.len() >= 2 {
                        assert(is_whitespace(s[s.len() - 2]));
                    }
                    assert(false);
                }
                let word = s.subrange(k, s.len() as int);
                assert forall|m: int| 0 <= m < word.len() implies !is_whitespace(#[trigger] word[m]) by {
                    assert(word[m] == s[k + m]);
                }
                ws_words_one_word(word);
                if k > 0 {
                    assert(s =~= lead + word);
                    ws_words_split(lead, word);
                    assert(ws_words(lead) + ws_words(word) =~= seq![word]);
                } else {
                    assert(s =~= word);
                }
                let after = s.subrange(s.len() as int, s.len() as int);
                assert(after =~= Seq::<char>::empty());
                assert(tokens(after) == Seq::<Seq<char>>::empty());
                assert(seq![word] + Seq::<Seq<char>>::empty() =~= seq![word]);
            },
        }
    }
}

} // verus!
