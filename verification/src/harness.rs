use vstd::prelude::*;
use crate::chars::{chars_of, string_from_chars};
use crate::client::same_text;
use crate::text::{strings_view, trim, trim_spec};

verus! {

/// Whether `needle` occurs in `hay` as a run of consecutive characters.
pub open spec fn occurs_in(hay: Seq<char>, needle: Seq<char>) -> bool {
    exists|i: int| 0 <= i && i + needle.len() <= hay.len() && #[trigger] hay.subrange(i, i + needle.len()) == needle
}

fn occurs_at(h: &Vec<char>, n: &Vec<char>, i: usize) -> (b: bool)
    requires
        i + n.len() <= h.len(),
    ensures
        b == (h@.subrange(i as int, i + n.len()) == n@),
{
    let mut k: usize = 0;
    while k < n.len()
        invariant
            i + n.len() <= h.len(),
            k <= n.len(),
            forall|m: int| 0 <= m < k ==> h@[i + m] == n@[m],
        decreases n.len() - k,
    {
        if h[i + k] != n[k] {
            assert(h@.subrange(i as int, i + n.len())[k as int] != n@[k as int]);
            return false;
        }
        k = k + 1;
    }
    assert(h@.subrange(i as int, i + n.len()) =~= n@);
    true
}

/// Whether `needle` occurs in `hay`.
pub fn contains_text(hay: &str, needle: &str) -> (b: bool)
    ensures
        b == occurs_in(hay@, needle@),
{
    let h = chars_of(hay);
    let n = chars_of(needle);
    if n.len() > h.len() {
        return false;
    }
    let last = h.len() - n.len();
    let mut i: usize = 0;
    loop
        invariant
            h@ == hay@,
            n@ == needle@,
            last == h.len() - n.len(),
            i <= last,
            forall|j: int| 0 <= j < i ==> #[trigger] h@.subrange(j, j + n.len()) != n@,
        decreases last - i,
    {
        if occurs_at(&h, &n, i) {
            assert(h@.subrange(i as int, i + n.len()) == n@);
            return true;
        }
        if i == last {
            assert(!occurs_in(hay@, needle@)) by {
                if occurs_in(hay@, needle@) {
                    let j = choose|j: int| 0 <= j && j + needle@.len() <= hay@.len() && #[trigger] hay@.subrange(j, j + needle@.len()) == needle@;
                    assert(j <= last);
                    if j < i {
                        assert(h@.subrange(j, j + n.len()) != n@);
                    }
                }
            }
            return false;
        }
        i = i + 1;
    }
}

/// A test on one line of output: it must hold a text, must not hold it, or may be
/// anything.
pub enum Match {
    Include(String),
    Exclude(String),
    Blank,
}

pub enum MatchView {
    Include(Seq<char>),
    Exclude(Seq<char>),
    Blank,
}

impl View for Match {
    type V = MatchView;

    open spec fn view(&self) -> MatchView {
        match self {
            Match::Include(s) => MatchView::Include(s@),
            Match::Exclude(s) => MatchView::Exclude(s@),
            Match::Blank => MatchView::Blank,
        }
    }
}

pub open spec fn matches_view(s: Seq<Match>) -> Seq<MatchView> {
    s.map_values(|m: Match| m@)
}

impl Match {
    pub fn including(value: String) -> (m: Match)
        ensures
            m@ == MatchView::Include(value@),
    {
        Match::Include(value)
    }

    pub fn exclude(value: String) -> (m: Match)
        ensures
            m@ == MatchView::Exclude(value@),
    {
        Match::Exclude(value)
    }
}

/// How a list of tests is held against the lines of output between two prompts.
pub enum Matcher {
    /// One test per line, in order, and as many lines as tests.
    Exact(Vec<Match>),
    /// Each text is found in a later line than the text before it.
    Ordered(Vec<Match>),
    /// Each test is held against the output as a whole.
    Unordered(Vec<Match>),
}

/// Whether one line passes one test.
pub open spec fn line_passes(m: MatchView, line: Seq<char>) -> bool {
    match m {
        MatchView::Include(v) => occurs_in(line, v),
        MatchView::Exclude(v) => !occurs_in(line, v),
        MatchView::Blank => true,
    }
}

/// Whether every line passes the test at its position, and there are as many lines as
/// tests.
pub open spec fn exact_passes(ms: Seq<MatchView>, lines: Seq<Seq<char>>) -> bool {
    &&& ms.len() == lines.len()
    &&& forall|i: int| 0 <= i < ms.len() ==> #[trigger] line_passes(ms[i], lines[i])
}

/// The first line that holds a text.
pub open spec fn first_holding(lines: Seq<Seq<char>>, v: Seq<char>) -> Option<int> {
    if exists|j: int| 0 <= j < lines.len() && #[trigger] occurs_in(lines[j], v) {
        Some(choose|j: int| 0 <= j < lines.len() && #[trigger] occurs_in(lines[j], v)
            && forall|k: int| 0 <= k < j ==> !#[trigger] occurs_in(lines[k], v))
    } else {
        None
    }
}

/// Whether the texts are found in order: each in a line after the line that held the
/// text before it.
pub open spec fn ordered_passes(ms: Seq<MatchView>, lines: Seq<Seq<char>>) -> bool
    decreases ms.len(),
{
    if ms.len() == 0 {
        true
    } else {
        match ms[0] {
            MatchView::Include(v) => match first_holding(lines, v) {
                Some(j) => if 0 <= j < lines.len() {
                    ordered_passes(ms.drop_first(), lines.skip(j + 1))
                } else {
                    false
                },
                None => false,
            },
            _ => ordered_passes(ms.drop_first(), lines),
        }
    }
}

/// Whether every text to include is in some line and no text to exclude is in any.
pub open spec fn unordered_passes(ms: Seq<MatchView>, lines: Seq<Seq<char>>) -> bool {
    forall|i: int| 0 <= i < ms.len() ==> match #[trigger] ms[i] {
        MatchView::Include(v) => exists|j: int| 0 <= j < lines.len() && #[trigger] occurs_in(lines[j], v),
        MatchView::Exclude(v) => forall|j: int| 0 <= j < lines.len() ==> !#[trigger] occurs_in(lines[j], v),
        MatchView::Blank => true,
    }
}

pub enum MatcherView {
    Exact(Seq<MatchView>),
    Ordered(Seq<MatchView>),
    Unordered(Seq<MatchView>),
}

impl View for Matcher {
    type V = MatcherView;

    open spec fn view(&self) -> MatcherView {
        match self {
            Matcher::Exact(v) => MatcherView::Exact(matches_view(v@)),
            Matcher::Ordered(v) => MatcherView::Ordered(matches_view(v@)),
            Matcher::Unordered(v) => MatcherView::Unordered(matches_view(v@)),
        }
    }
}

/// Whether output passes a matcher.
pub open spec fn matcher_passes(m: MatcherView, lines: Seq<Seq<char>>) -> bool {
    match m {
        MatcherView::Exact(ms) => exact_passes(ms, lines),
        MatcherView::Ordered(ms) => ordered_passes(ms, lines),
        MatcherView::Unordered(ms) => unordered_passes(ms, lines),
    }
}

/// An ordered matcher only looks for texts.
pub open spec fn matcher_wf(m: MatcherView) -> bool {
    m matches MatcherView::Ordered(ms) ==> forall|i: int| 0 <= i < ms.len() ==> !(#[trigger] ms[i] is Exclude)
}

fn includes_of(values: Vec<String>) -> (v: Vec<Match>)
    ensures
        matches_view(v@) == strings_view(values@).map_values(|s: Seq<char>| MatchView::Include(s)),
{
    let mut v: Vec<Match> = Vec::new();
    let mut i: usize = 0;
    while i < values.len()
        invariant
            i <= values.len(),
            matches_view(v@) == strings_view(values@.take(i as int)).map_values(|s: Seq<char>| MatchView::Include(s)),
        decreases values.len() - i,
    {
        let s = values[i].clone();
        let ghost sv = s@;
        let ghost before = v@;
        v.push(Match::Include(s));
        proof {
            let f = |s: Seq<char>| MatchView::Include(s);
            assert(values@.take(i + 1) == values@.take(i as int).push(values@[i as int]));
            assert(strings_view(values@.take(i + 1)) =~= strings_view(values@.take(i as int)).push(sv));
            assert(strings_view(values@.take(i as int)).push(sv).map_values(f)
                =~= strings_view(values@.take(i as int)).map_values(f).push(MatchView::Include(sv)));
            assert(matches_view(v@) =~= matches_view(before).push(MatchView::Include(sv)));
        }
        i = i + 1;
    }
    assert(values@.take(values.len() as int) == values@);
    v
}

fn excludes_of(values: Vec<String>) -> (v: Vec<Match>)
    ensures
        matches_view(v@) == strings_view(values@).map_values(|s: Seq<char>| MatchView::Exclude(s)),
{
    let mut v: Vec<Match> = Vec::new();
    let mut i: usize = 0;
    while i < values.len()
        invariant
            i <= values.len(),
            matches_view(v@) == strings_view(values@.take(i as int)).map_values(|s: Seq<char>| MatchView::Exclude(s)),
        decreases values.len() - i,
    {
        let s = values[i].clone();
        let ghost sv = s@;
        let ghost before = v@;
        v.push(Match::Exclude(s));
        proof {
            let f = |s: Seq<char>| MatchView::Exclude(s);
            assert(values@.take(i + 1) == values@.take(i as int).push(values@[i as int]));
            assert(strings_view(values@.take(i + 1)) =~= strings_view(values@.take(i as int)).push(sv));
            assert(strings_view(values@.take(i as int)).push(sv).map_values(f)
                =~= strings_view(values@.take(i as int)).map_values(f).push(MatchView::Exclude(sv)));
            assert(matches_view(v@) =~= matches_view(before).push(MatchView::Exclude(sv)));
        }
        i = i + 1;
    }
    assert(values@.take(values.len() as int) == values@);
    v
}

impl Matcher {
    /// Each test holds for exactly one line of output, in order.
    pub fn exact(matches: Vec<Match>) -> (m: Matcher)
        ensures
            m@ == MatcherView::Exact(matches_view(matches@)),
    {
        Matcher::Exact(matches)
    }

    /// Each line of output holds the text at its position.
    pub fn exact_includes(matches: Vec<String>) -> (m: Matcher)
        ensures
            m@ == MatcherView::Exact(strings_view(matches@).map_values(|s: Seq<char>| MatchView::Include(s))),
    {
        Matcher::Exact(includes_of(matches))
    }

    /// Each text is present in output, in order.
    pub fn ordered(matches: Vec<String>) -> (m: Matcher)
        ensures
            m@ == MatcherView::Ordered(strings_view(matches@).map_values(|s: Seq<char>| MatchView::Include(s))),
            matcher_wf(m@),
    {
        Matcher::Ordered(includes_of(matches))
    }

    /// Each test is held against output, in no order.
    pub fn unordered(matches: Vec<Match>) -> (m: Matcher)
        ensures
            m@ == MatcherView::Unordered(matches_view(matches@)),
    {
        Matcher::Unordered(matches)
    }

    /// Every text is present in output.
    pub fn includes(matches: Vec<String>) -> (m: Matcher)
        ensures
            m@ == MatcherView::Unordered(strings_view(matches@).map_values(|s: Seq<char>| MatchView::Include(s))),
    {
        Matcher::Unordered(includes_of(matches))
    }

    /// No text is present in output.
    pub fn excludes(matches: Vec<String>) -> (m: Matcher)
        ensures
            m@ == MatcherView::Unordered(strings_view(matches@).map_values(|s: Seq<char>| MatchView::Exclude(s))),
    {
        Matcher::Unordered(excludes_of(matches))
    }
}

fn passes_line(m: &Match, line: &str) -> (b: bool)
    ensures
        b == line_passes(m@, line@),
{
    match m {
        Match::Include(v) => contains_text(line, v.as_str()),
        Match::Exclude(v) => !contains_text(line, v.as_str()),
        Match::Blank => true,
    }
}

/// Whether some line holds a text.
fn any_holds(lines: &Vec<String>, v: &str) -> (b: bool)
    ensures
        b == exists|j: int| 0 <= j < lines.len() && #[trigger] occurs_in(strings_view(lines@)[j], v@),
{
    let mut j: usize = 0;
    while j < lines.len()
        invariant
            j <= lines.len(),
            forall|k: int| 0 <= k < j ==> !#[trigger] occurs_in(strings_view(lines@)[k], v@),
        decreases lines.len() - j,
    {
        if contains_text(lines[j].as_str(), v) {
            assert(occurs_in(strings_view(lines@)[j as int], v@));
            return true;
        }
        j = j + 1;
    }
    false
}

proof fn lemma_ordered_step_include(ms: Seq<MatchView>, lines: Seq<Seq<char>>, v: Seq<char>, j: int)
    requires
        ms.len() > 0,
        ms[0] == MatchView::Include(v),
        0 <= j < lines.len(),
        occurs_in(lines[j], v),
        forall|k: int| 0 <= k < j ==> !#[trigger] occurs_in(lines[k], v),
    ensures
        ordered_passes(ms, lines) == ordered_passes(ms.drop_first(), lines.skip(j + 1)),
{
    let f = first_holding(lines, v);
    assert(f is Some);
    let c = f->0;
    if c < j {
        assert(!occurs_in(lines[c], v));
    }
    if c > j {
        assert(!occurs_in(lines[j], v));
    }
}

proof fn lemma_ordered_step_missing(ms: Seq<MatchView>, lines: Seq<Seq<char>>, v: Seq<char>)
    requires
        ms.len() > 0,
        ms[0] == MatchView::Include(v),
        forall|k: int| 0 <= k < lines.len() ==> !#[trigger] occurs_in(lines[k], v),
    ensures
        !ordered_passes(ms, lines),
{
    assert(first_holding(lines, v) is None);
}

impl Matcher {
    /// Whether the lines of output between two prompts pass this matcher.
    pub fn test(&self, output: &Vec<String>) -> (b: bool)
        requires
            matcher_wf(self@),
        ensures
            b == matcher_passes(self@, strings_view(output@)),
    {
        let ghost lines = strings_view(output@);
        match self {
            Matcher::Exact(ms) => {
                assert(self@ == MatcherView::Exact(matches_view(ms@)));
                if ms.len() != output.len() {
                    return false;
                }
                let mut i: usize = 0;
                while i < ms.len()
                    invariant
                        self@ == MatcherView::Exact(matches_view(ms@)),
                        ms.len() == output.len(),
                        lines == strings_view(output@),
                        i <= ms.len(),
                        forall|k: int| 0 <= k < i ==> #[trigger] line_passes(matches_view(ms@)[k], lines[k]),
                    decreases ms.len() - i,
                {
                    if !passes_line(&ms[i], output[i].as_str()) {
                        assert(!line_passes(matches_view(ms@)[i as int], lines[i as int]));
                        return false;
                    }
                    i = i + 1;
                }
                true
            },
            Matcher::Ordered(ms) => {
                assert(self@ == MatcherView::Ordered(matches_view(ms@)));
                let ghost all = matches_view(ms@);
                let mut i: usize = 0;
                let mut from: usize = 0;
                assert(all.skip(0) == all);
                assert(lines.skip(0) == lines);
                while i < ms.len()
                    invariant
                        self@ == MatcherView::Ordered(all),
                        all == matches_view(ms@),
                        lines == strings_view(output@),
                        i <= ms.len(),
                        from <= output.len(),
                        forall|k: int| 0 <= k < all.len() ==> !(#[trigger] all[k] is Exclude),
                        ordered_passes(all, lines) == ordered_passes(all.skip(i as int), lines.skip(from as int)),
                    decreases ms.len() - i,
                {
                    let ghost rest_ms = all.skip(i as int);
                    let ghost rest_lines = lines.skip(from as int);
                    assert(rest_ms.drop_first() =~= all.skip(i + 1));
                    assert(rest_ms[0] == all[i as int]);
                    assert(all[i as int] == ms@[i as int]@);
                    match &ms[i] {
                        Match::Include(v) => {
                            let mut j = from;
                            while j < output.len() && !contains_text(output[j].as_str(), v.as_str())
                                invariant
                                    from <= j <= output.len(),
                                    lines == strings_view(output@),
                                    forall|k: int| from <= k < j ==> !#[trigger] occurs_in(lines[k], v@),
                                decreases output.len() - j,
                            {
                                j = j + 1;
                            }
                            if j == output.len() {
                                proof {
                                    assert forall|k: int| 0 <= k < rest_lines.len() implies !#[trigger] occurs_in(rest_lines[k], v@) by {
                                        assert(rest_lines[k] == lines[from + k]);
                                    }
                                    lemma_ordered_step_missing(rest_ms, rest_lines, v@);
                                }
                                return false;
                            }
                            proof {
                                let jj = j - from;
                                assert(rest_lines[jj] == lines[j as int]);
                                assert forall|k: int| 0 <= k < jj implies !#[trigger] occurs_in(rest_lines[k], v@) by {
                                    assert(rest_lines[k] == lines[from + k]);
                                }
                                lemma_ordered_step_include(rest_ms, rest_lines, v@, jj);
                                assert(rest_lines.skip(jj + 1) =~= lines.skip(j + 1));
                            }
                            from = j + 1;
                        },
                        Match::Exclude(_) => {
                            assert(all[i as int] is Exclude);
                            return false;
                        },
                        Match::Blank => {},
                    }
                    i = i + 1;
                }
                assert(all.skip(ms.len() as int).len() == 0);
                true
            },
            Matcher::Unordered(ms) => {
                assert(self@ == MatcherView::Unordered(matches_view(ms@)));
                let ghost all = matches_view(ms@);
                let mut i: usize = 0;
                while i < ms.len()
                    invariant
                        self@ == MatcherView::Unordered(all),
                        all == matches_view(ms@),
                        lines == strings_view(output@),
                        i <= ms.len(),
                        forall|k: int| 0 <= k < i ==> match #[trigger] all[k] {
                            MatchView::Include(v) => exists|j: int| 0 <= j < lines.len() && #[trigger] occurs_in(lines[j], v),
                            MatchView::Exclude(v) => forall|j: int| 0 <= j < lines.len() ==> !#[trigger] occurs_in(lines[j], v),
                            MatchView::Blank => true,
                        },
                    decreases ms.len() - i,
                {
                    proof {
                        assert(all[i as int] == ms@[i as int]@);
                    }
                    let ok = match &ms[i] {
                        Match::Include(v) => any_holds(output, v.as_str()),
                        Match::Exclude(v) => !any_holds(output, v.as_str()),
                        Match::Blank => true,
                    };
                    proof {
                        if ok {
                            match all[i as int] {
                                MatchView::Include(v) => {
                                    assert(exists|j: int| 0 <= j < lines.len() && #[trigger] occurs_in(lines[j], v));
                                },
                                MatchView::Exclude(v) => {
                                    assert(forall|j: int| 0 <= j < lines.len() ==> !#[trigger] occurs_in(lines[j], v));
                                },
                                MatchView::Blank => {},
                            }
                        }
                    }
                    if !ok {
                        assert(!unordered_passes(all, lines)) by {
                            assert(all[i as int] == ms@[i as int]@);
                            match all[i as int] {
                                MatchView::Include(v) => {
                                    assert(!(exists|j: int| 0 <= j < lines.len() && #[trigger] occurs_in(lines[j], v)));
                                },
                                MatchView::Exclude(v) => {
                                    assert(!(forall|j: int| 0 <= j < lines.len() ==> !#[trigger] occurs_in(lines[j], v)));
                                },
                                MatchView::Blank => {},
                            }
                        }
                        return false;
                    }
                    i = i + 1;
                }
                true
            },
        }
    }
}

/// Whether `s` starts with the prompt `> `.
pub open spec fn starts_with_prompt(s: Seq<char>) -> bool {
    s.len() >= 2 && s[0] == '>' && s[1] == ' '
}

/// Where the first carriage return and line feed of `s` starts, if anywhere.
pub open spec fn first_line_end(s: Seq<char>) -> Option<int> {
    if exists|p: int| 0 <= p && p + 1 < s.len() && s[p] == '\r' && #[trigger] s[p + 1] == '\n' {
        Some(choose|p: int| 0 <= p && p + 1 < s.len() && s[p] == '\r' && #[trigger] s[p + 1] == '\n'
            && forall|q: int| 0 <= q < p ==> !(s[q] == '\r' && #[trigger] s[q + 1] == '\n'))
    } else {
        None
    }
}

/// The lines received before the next prompt, each trimmed, skipping empty ones, and
/// what is left after them. Splitting stops at a prompt or where no line end follows.
#[verifier::opaque]
pub open spec fn split_output(s: Seq<char>) -> (Seq<Seq<char>>, Seq<char>)
    decreases s.len(),
{
    if starts_with_prompt(s) {
        (Seq::empty(), s)
    } else {
        match first_line_end(s) {
            Some(p) => if 0 <= p && p + 2 <= s.len() {
                let (more, left) = split_output(s.skip(p + 2));
                let line: Seq<Seq<char>> = if p > 0 {
                    seq![trim_spec(s.take(p))]
                } else {
                    Seq::empty()
                };
                (line + more, left)
            } else {
                (Seq::empty(), s)
            },
            None => (Seq::empty(), s),
        }
    }
}

proof fn lemma_split_step(s: Seq<char>, p: int)
    requires
        !starts_with_prompt(s),
        0 <= p,
        p + 1 < s.len(),
        s[p] == '\r',
        s[p + 1] == '\n',
        forall|q: int| 0 <= q < p ==> !(s[q] == '\r' && #[trigger] s[q + 1] == '\n'),
    ensures
        split_output(s) == ((if p > 0 {
            seq![trim_spec(s.take(p))]
        } else {
            Seq::<Seq<char>>::empty()
        }) + split_output(s.skip(p + 2)).0, split_output(s.skip(p + 2)).1),
{
    reveal(split_output);
    let f = first_line_end(s);
    assert(s[p] == '\r' && s[p + 1] == '\n');
    assert(f is Some);
    let c = f->0;
    if c < p {
        assert(!(s[c] == '\r' && s[c + 1] == '\n'));
    }
    if c > p {
        assert(!(s[p] == '\r' && s[p + 1] == '\n'));
    }
}

proof fn lemma_split_stop(s: Seq<char>)
    requires
        starts_with_prompt(s) || forall|q: int| 0 <= q && q + 1 < s.len() ==> !(s[q] == '\r' && #[trigger] s[q + 1] == '\n'),
    ensures
        split_output(s) == (Seq::<Seq<char>>::empty(), s),
{
    reveal(split_output);
    if !starts_with_prompt(s) {
        assert(first_line_end(s) is None);
    }
}

/// Splits received text into the lines before the next prompt, and the rest.
pub fn split_received(buffer: &str) -> (r: (Vec<String>, String))
    ensures
        strings_view(r.0@) == split_output(buffer@).0,
        r.1@ == split_output(buffer@).1,
{
    let v = chars_of(buffer);
    let n = v.len();
    let mut lines: Vec<String> = Vec::new();
    let mut start: usize = 0;
    proof {
        assert(v@.skip(0) == v@);
    }
    loop
        invariant
            v@ == buffer@,
            n == v.len(),
            start <= n,
            strings_view(lines@) + split_output(v@.skip(start as int)).0 == split_output(buffer@).0,
            split_output(v@.skip(start as int)).1 == split_output(buffer@).1,
        ensures
            split_output(v@.skip(start as int)) == (Seq::<Seq<char>>::empty(), v@.skip(start as int)),
        decreases n - start,
    {
        let ghost rest = v@.skip(start as int);
        if n > 0 && start < n - 1 && v[start] == '>' && v[start + 1] == ' ' {
            proof {
                assert(starts_with_prompt(rest));
                lemma_split_stop(rest);
            }
            break;
        }
        proof {
            assert(!starts_with_prompt(rest)) by {
                if starts_with_prompt(rest) {
                    assert(rest[0] == v@[start as int]);
                    assert(rest[1] == v@[start + 1]);
                }
            }
        }
        let mut p = start;
        while n > 0 && p < n - 1 && !(v[p] == '\r' && v[p + 1] == '\n')
            invariant
                start <= p <= n == v.len(),
                forall|q: int| start <= q < p ==> !(v@[q] == '\r' && #[trigger] v@[q + 1] == '\n'),
            decreases n - p,
        {
            p = p + 1;
        }
        if n == 0 || p >= n - 1 {
            proof {
                assert forall|q: int| 0 <= q && q + 1 < rest.len() implies !(rest[q] == '\r' && #[trigger] rest[q + 1] == '\n') by {
                    assert(rest[q] == v@[start + q]);
                    assert(rest[q + 1] == v@[start + q + 1]);
                }
                lemma_split_stop(rest);
            }
            break;
        }
        let ghost k = p - start;
        proof {
            assert forall|q: int| 0 <= q < k implies !(rest[q] == '\r' && #[trigger] rest[q + 1] == '\n') by {
                assert(rest[q] == v@[start + q]);
                assert(rest[q + 1] == v@[start + q + 1]);
            }
            assert(rest[k] == v@[p as int]);
            assert(rest[k + 1] == v@[p + 1]);
            lemma_split_step(rest, k);
            assert(rest.skip(k + 2) =~= v@.skip(p + 2));
        }
        let ghost before = strings_view(lines@);
        if p > start {
            let mut piece: Vec<char> = Vec::new();
            let mut i = start;
            while i < p
                invariant
                    start <= i <= p <= n == v.len(),
                    piece@ == v@.subrange(start as int, i as int),
                decreases p - i,
            {
                piece.push(v[i]);
                i = i + 1;
            }
            let text = string_from_chars(&piece);
            let trimmed = trim(text.as_str());
            let owned = string_from_chars(&chars_of(trimmed));
            lines.push(owned);
            proof {
                assert(rest.take(k) =~= piece@);
                assert(strings_view(lines@) =~= before.push(trim_spec(rest.take(k))));
                let more = split_output(v@.skip(p + 2)).0;
                assert(before.push(trim_spec(rest.take(k))) + more =~= before + (seq![trim_spec(rest.take(k))] + more));
            }
        } else {
            proof {
                let more = split_output(v@.skip(p + 2)).0;
                assert(Seq::<Seq<char>>::empty() + more =~= more);
            }
        }
        start = p + 2;
    }
    let mut left: Vec<char> = Vec::new();
    let mut i = start;
    while i < n
        invariant
            start <= i <= n == v.len(),
            left@ == v@.subrange(start as int, i as int),
        decreases n - i,
    {
        left.push(v[i]);
        i = i + 1;
    }
    proof {
        assert(left@ =~= v@.skip(start as int));
        assert(strings_view(lines@) + Seq::<Seq<char>>::empty() =~= strings_view(lines@));
    }
    (lines, string_from_chars(&left))
}

/// What the test client asks of its telnet connection.
pub enum TelnetRequest {
    Recv,
    Send(String),
}

/// The events a script can be hooked to, as the test client names them.
#[derive(Debug, Copy, Clone, PartialEq, Eq, Structural)]
pub enum Trigger {
    Drop,
    Emote,
    Exits,
    Get,
    Init,
    Inventory,
    Look,
    LookAt,
    Move,
    Say,
    Send,
    Timer,
    Use,
}

pub open spec fn trigger_name(t: Trigger) -> Seq<char> {
    match t {
        Trigger::Drop => "Drop"@,
        Trigger::Emote => "Emote"@,
        Trigger::Exits => "Exits"@,
        Trigger::Get => "Get"@,
        Trigger::Init => "Init"@,
        Trigger::Inventory => "Inventory"@,
        Trigger::Look => "Look"@,
        Trigger::LookAt => "LookAt"@,
        Trigger::Move => "Move"@,
        Trigger::Say => "Say"@,
        Trigger::Send => "Send"@,
        Trigger::Timer => "Timer"@,
        Trigger::Use => "Use"@,
    }
}

impl Trigger {
    /// The trigger's name, as it is sent.
    pub fn to_string(&self) -> (s: String)
        ensures
            s@ == trigger_name(*self),
    {
        match self {
            Trigger::Drop => "Drop".to_owned(),
            Trigger::Emote => "Emote".to_owned(),
            Trigger::Exits => "Exits".to_owned(),
            Trigger::Get => "Get".to_owned(),
            Trigger::Init => "Init".to_owned(),
            Trigger::Inventory => "Inventory".to_owned(),
            Trigger::Look => "Look".to_owned(),
            Trigger::LookAt => "LookAt".to_owned(),
            Trigger::Move => "Move".to_owned(),
            Trigger::Say => "Say".to_owned(),
            Trigger::Send => "Send".to_owned(),
            Trigger::Timer => "Timer".to_owned(),
            Trigger::Use => "Use".to_owned(),
        }
    }

    /// The trigger with exactly this name, if any.
    pub fn from_str(s: &str) -> (r: Option<Trigger>)
        ensures
            match r {
                Some(t) => trigger_name(t) == s@,
                None => forall|t: Trigger| trigger_name(t) != s@,
            },
    {
        if same_text(s, "Drop") {
            Some(Trigger::Drop)
        } else if same_text(s, "Emote") {
            Some(Trigger::Emote)
        } else if same_text(s, "Exits") {
            Some(Trigger::Exits)
        } else if same_text(s, "Get") {
            Some(Trigger::Get)
        } else if same_text(s, "Init") {
            Some(Trigger::Init)
        } else if same_text(s, "Inventory") {
            Some(Trigger::Inventory)
        } else if same_text(s, "Look") {
            Some(Trigger::Look)
        } else if same_text(s, "LookAt") {
            Some(Trigger::LookAt)
        } else if same_text(s, "Move") {
            Some(Trigger::Move)
        } else if same_text(s, "Say") {
            Some(Trigger::Say)
        } else if same_text(s, "Send") {
            Some(Trigger::Send)
        } else if same_text(s, "Timer") {
            Some(Trigger::Timer)
        } else if same_text(s, "Use") {
            Some(Trigger::Use)
        } else {
            None
        }
    }
}

/// A script as the test client sends it.
pub struct JsonScript {
    name: String,
    trigger: Trigger,
    code: String,
}

impl JsonScript {
    pub closed spec fn view_parts(&self) -> (Seq<char>, Trigger, Seq<char>) {
        (self.name@, self.trigger, self.code@)
    }

    pub fn new(name: &str, trigger: Trigger, code: &str) -> (j: JsonScript)
        ensures
            j.view_parts() == (name@, trigger, code@),
    {
        JsonScript { name: name.to_owned(), trigger, code: code.to_owned() }
    }

    pub fn name(&self) -> (s: &str)
        ensures
            s@ == self.view_parts().0,
    {
        self.name.as_str()
    }

    pub fn trigger(&self) -> (t: Trigger)
        ensures
            t == self.view_parts().1,
    {
        self.trigger
    }

    pub fn code(&self) -> (s: &str)
        ensures
            s@ == self.view_parts().2,
    {
        self.code.as_str()
    }
}

/// The name of a script, as the test client sends it.
pub struct JsonScriptName {
    name: String,
}

impl JsonScriptName {
    pub closed spec fn view_name(&self) -> Seq<char> {
        self.name@
    }

    pub fn from_str(value: &str) -> (j: JsonScriptName)
        ensures
            j.view_name() == value@,
    {
        JsonScriptName { name: value.to_owned() }
    }

    pub fn as_str(&self) -> (s: &str)
        ensures
            s@ == self.view_name(),
    {
        self.name.as_str()
    }
}

/// Where a script failed to compile, as the test client reads it.
pub struct JsonErrorInfo {
    pub line: Option<i64>,
    pub position: Option<i64>,
    pub message: String,
}

/// A stored script, as the test client reads it.
pub struct JsonScriptResponse {
    pub name: String,
    pub trigger: String,
    pub code: String,
    pub error: Option<JsonErrorInfo>,
}

/// The compilation error of a stored script, as the test client reads it.
pub struct JsonErrorResponse {
    pub error: Option<JsonErrorInfo>,
}

/// A listed script, as the test client reads it.
pub struct JsonScriptInfo {
    pub name: String,
    pub trigger: String,
    pub lines: i64,
    pub error: Option<JsonErrorInfo>,
}

/// Sends log output to the test's own output.
#[derive(Debug, Copy, Clone, PartialEq, Eq, Structural)]
pub struct TestWriter {}

impl Default for TestWriter {
    fn default() -> (w: TestWriter)
        ensures
            w == (TestWriter {}),
    {
        TestWriter {}
    }
}

} // verus!
