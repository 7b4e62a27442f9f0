use vstd::prelude::*;
use crate::chars::{ascii_lower, chars_of, is_digit, digit_value};
use crate::client::{owned, same_text, EntityId};
use crate::text::strings_view;

verus! {

// ---------------------------------------------------------------------------
// flags

/// Object flags as bits: `FIXED` is bit 0, `SUBTLE` bit 1.
#[derive(Debug, Copy, Clone, PartialEq, Eq, Structural)]
pub struct Flags {
    pub bits: i64,
}

pub open spec fn all_flag_bits() -> i64 {
    3
}

impl Flags {
    pub fn empty() -> (f: Self)
        ensures
            f.bits == 0,
    {
        Flags { bits: 0 }
    }

    pub fn fixed() -> (f: Self)
        ensures
            f.bits == 1,
    {
        Flags { bits: 1 }
    }

    pub fn subtle() -> (f: Self)
        ensures
            f.bits == 2,
    {
        Flags { bits: 2 }
    }

    /// The flags of the known bits of a value; other bits are dropped.
    pub fn from_bits_truncate(bits: i64) -> (f: Self)
        ensures
            f.bits == bits & all_flag_bits(),
    {
        Flags { bits: bits & 3 }
    }

    pub fn contains(&self, other: Flags) -> (b: bool)
        ensures
            b == (self.bits & other.bits == other.bits),
    {
        self.bits & other.bits == other.bits
    }

    pub fn insert(&mut self, other: Flags)
        ensures
            final(self).bits == old(self).bits | other.bits,
    {
        self.bits = self.bits | other.bits;
    }

    pub fn remove(&mut self, other: Flags)
        ensures
            final(self).bits == old(self).bits & !other.bits,
    {
        self.bits = self.bits & !other.bits;
    }
}

/// The flag names, compared without regard to ASCII case.
pub open spec fn flag_of_name(name: Seq<char>) -> Option<i64> {
    let lower = ascii_lower(name);
    if lower == "fixed"@ {
        Some(1)
    } else if lower == "subtle"@ {
        Some(2)
    } else {
        None
    }
}

/// The union of the flags named by a list, or the first name that is not a flag.
pub open spec fn parse_flags_spec(names: Seq<Seq<char>>) -> Result<i64, Seq<char>>
    decreases names.len(),
{
    if names.len() == 0 {
        Ok(0)
    } else {
        match parse_flags_spec(names.drop_last()) {
            Err(e) => Err(e),
            Ok(bits) => match flag_of_name(names.last()) {
                Some(f) => Ok(bits | f),
                None => Err(names.last()),
            },
        }
    }
}

/// A name in a flag list that is not a flag.
#[derive(Debug)]
pub struct FlagsParseError {
    pub invalid_flag: String,
}

impl FlagsParseError {
    /// The error as players read it.
    pub fn message(&self) -> (s: String)
        ensures
            s@ == "Invalid object flag: "@ + self.invalid_flag@ + ". Valid flags: fixed, subtle."@,
    {
        let mut out: Vec<char> = Vec::new();
        crate::chars::push_str(&mut out, "Invalid object flag: ");
        crate::chars::push_str(&mut out, self.invalid_flag.as_str());
        crate::chars::push_str(&mut out, ". Valid flags: fixed, subtle.");
        crate::chars::string_from_chars(&out)
    }
}

/// Lowercases ASCII letters.
pub fn to_ascii_lower(s: &str) -> (r: Vec<char>)
    ensures
        r@ == ascii_lower(s@),
{
    let v = chars_of(s);
    let mut out: Vec<char> = Vec::new();
    let mut i: usize = 0;
    while i < v.len()
        invariant
            i <= v.len(),
            v@ == s@,
            out@ == ascii_lower(v@.take(i as int)),
        decreases v.len() - i,
    {
        let c = v[i];
        let l = if 'A' <= c && c <= 'Z' {
            let b: u8 = ((c as u32) + 32) as u8;
            b as char
        } else {
            c
        };
        out.push(l);
        proof {
            assert(ascii_lower(v@.take(i + 1)) =~= ascii_lower(v@.take(i as int)).push(crate::chars::lower_char(c)));
        }
        i = i + 1;
    }
    assert(v@.take(v.len() as int) == v@);
    out
}

fn chars_equal_str(v: &Vec<char>, s: &str) -> (b: bool)
    ensures
        b == (v@ == s@),
{
    let w = chars_of(s);
    if v.len() != w.len() {
        return false;
    }
    let mut i: usize = 0;
    while i < v.len()
        invariant
            i <= v.len() == w.len(),
            w@ == s@,
            forall|k: int| 0 <= k < i ==> v@[k] == w@[k],
        decreases v.len() - i,
    {
        if v[i] != w[i] {
            assert(v@[i as int] != w@[i as int]);
            return false;
        }
        i = i + 1;
    }
    assert(v@ =~= w@);
    true
}

/// Parses a list of flag names, ignoring ASCII case.
pub fn parse_flags(strs: &[String]) -> (r: Result<Flags, FlagsParseError>)
    ensures
        match parse_flags_spec(strings_view(strs@)) {
            Ok(bits) => r matches Ok(f) && f.bits == bits,
            Err(name) => r matches Err(e) && e.invalid_flag@ == name,
        },
{
    let ghost names = strings_view(strs@);
    let mut flags = Flags::empty();
    let mut i: usize = 0;
    while i < strs.len()
        invariant
            i <= strs.len(),
            names == strings_view(strs@),
            parse_flags_spec(names.take(i as int)) == Ok::<i64, Seq<char>>(flags.bits),
        decreases strs.len() - i,
    {
        let flag = &strs[i];
        let lower = to_ascii_lower(flag.as_str());
        proof {
            let t = names.take(i + 1);
            assert(t.drop_last() == names.take(i as int));
            assert(t.last() == flag@);
        }
        if chars_equal_str(&lower, "fixed") {
            flags.insert(Flags::fixed());
        } else if chars_equal_str(&lower, "subtle") {
            flags.insert(Flags::subtle());
        } else {
            proof {
                assert(parse_flags_spec(names.take(i + 1)) == Err::<i64, Seq<char>>(flag@));
                lemma_parse_flags_err_prefix(names, i + 1);
            }
            return Err(FlagsParseError { invalid_flag: owned(flag.as_str()) });
        }
        i = i + 1;
    }
    assert(names.take(strs.len() as int) == names);
    Ok(flags)
}

/// An error in a prefix of a flag list is the error of the whole list.
proof fn lemma_parse_flags_err_prefix(names: Seq<Seq<char>>, n: int)
    requires
        0 <= n <= names.len(),
        parse_flags_spec(names.take(n)) is Err,
    ensures
        parse_flags_spec(names) == parse_flags_spec(names.take(n)),
    decreases names.len() - n,
{
    if n < names.len() {
        let t = names.take(n + 1);
        assert(t.drop_last() == names.take(n));
        lemma_parse_flags_err_prefix(names, n + 1);
    } else {
        assert(names.take(n) == names);
    }
}

/// The flags of an object or prototype.
#[derive(Debug, Clone)]
pub struct ObjectFlags {
    flags: Flags,
}

impl ObjectFlags {
    pub closed spec fn bits(&self) -> i64 {
        self.flags.bits
    }

    pub fn new() -> (f: Self)
        ensures
            f.bits() == 0,
    {
        ObjectFlags { flags: Flags::empty() }
    }

    /// Flags from stored bits; unknown bits are dropped.
    pub fn from_i64(value: i64) -> (f: Self)
        ensures
            f.bits() == value & all_flag_bits(),
    {
        ObjectFlags { flags: Flags::from_bits_truncate(value) }
    }

    pub fn contains(&self, flags: Flags) -> (b: bool)
        ensures
            b == (self.bits() & flags.bits == flags.bits),
    {
        self.flags.contains(flags)
    }

    pub fn insert(&mut self, flags: Flags)
        ensures
            final(self).bits() == old(self).bits() | flags.bits,
    {
        self.flags.insert(flags);
    }

    pub fn remove(&mut self, flags: Flags)
        ensures
            final(self).bits() == old(self).bits() & !flags.bits,
    {
        self.flags.remove(flags);
    }

    pub fn get_flags(&self) -> (f: Flags)
        ensures
            f.bits == self.bits(),
    {
        self.flags
    }

    /// A copy of the flags.
    pub fn duplicate(&self) -> (f: Self)
        ensures
            f.bits() == self.bits(),
    {
        ObjectFlags { flags: self.flags }
    }
}

/// Inserting a flag and then removing it leaves the other flags as they were, and the
/// removed flag absent.
pub proof fn insert_then_remove(bits: i64, f: i64)
    ensures
        ((bits | f) & !f) == (bits & !f),
        ((bits | f) & !f) & f == 0,
{
    assert(((bits | f) & !f) == (bits & !f)) by (bit_vector);
    assert(((bits | f) & !f) & f == 0) by (bit_vector);
}

/// An inserted flag is contained, and removing it makes it absent.
pub proof fn insert_contains_remove_absent(bits: i64, f: i64)
    ensures
        (bits | f) & f == f,
        (bits & !f) & f == 0,
{
    assert((bits | f) & f == f) by (bit_vector);
    assert((bits & !f) & f == 0) by (bit_vector);
}

// ---------------------------------------------------------------------------
// keywords

/// Strict lexicographic order of character sequences (the order of strings).
pub open spec fn lex_lt(a: Seq<char>, b: Seq<char>) -> bool
    decreases a.len(),
{
    if a.len() == 0 {
        b.len() > 0
    } else if b.len() == 0 {
        false
    } else if a[0] != b[0] {
        a[0] < b[0]
    } else {
        lex_lt(a.drop_first(), b.drop_first())
    }
}

pub proof fn lemma_lex_irreflexive(a: Seq<char>)
    ensures
        !lex_lt(a, a),
    decreases a.len(),
{
    if a.len() > 0 {
        lemma_lex_irreflexive(a.drop_first());
    }
}

pub proof fn lemma_lex_transitive(a: Seq<char>, b: Seq<char>, c: Seq<char>)
    requires
        lex_lt(a, b),
        lex_lt(b, c),
    ensures
        lex_lt(a, c),
    decreases a.len(),
{
    if a.len() > 0 && b.len() > 0 && c.len() > 0 && a[0] == b[0] && b[0] == c[0] {
        lemma_lex_transitive(a.drop_first(), b.drop_first(), c.drop_first());
    }
}

pub proof fn lemma_lex_total(a: Seq<char>, b: Seq<char>)
    requires
        a != b,
    ensures
        lex_lt(a, b) || lex_lt(b, a),
    decreases a.len(),
{
    if a.len() > 0 && b.len() > 0 && a[0] == b[0] {
        if a.drop_first() == b.drop_first() {
            assert(a =~= seq![a[0]] + a.drop_first());
            assert(b =~= seq![b[0]] + b.drop_first());
        }
        lemma_lex_total(a.drop_first(), b.drop_first());
    } else if a.len() == 0 && b.len() == 0 {
        assert(a =~= b);
    }
}

pub proof fn lemma_lex_asymmetric(a: Seq<char>, b: Seq<char>)
    requires
        lex_lt(a, b),
    ensures
        !lex_lt(b, a),
{
    if lex_lt(b, a) {
        lemma_lex_transitive(a, b, a);
        lemma_lex_irreflexive(a);
    }
}

/// Compares two strings in lexicographic order.
pub fn str_lt(a: &str, b: &str) -> (r: bool)
    ensures
        r == lex_lt(a@, b@),
{
    let x = chars_of(a);
    let y = chars_of(b);
    let mut i: usize = 0;
    assert(x@.skip(0) == x@ && y@.skip(0) == y@);
    while i < x.len() && i < y.len()
        invariant
            i <= x.len() && i <= y.len(),
            x@ == a@,
            y@ == b@,
            forall|k: int| 0 <= k < i ==> x@[k] == y@[k],
            lex_lt(x@, y@) == lex_lt(x@.skip(i as int), y@.skip(i as int)),
        decreases x.len() - i,
    {
        if x[i] != y[i] {
            proof {
                assert(x@.skip(i as int)[0] == x@[i as int]);
                assert(y@.skip(i as int)[0] == y@[i as int]);
            }
            return x[i] < y[i];
        }
        proof {
            assert(x@.skip(i as int).drop_first() == x@.skip(i + 1));
            assert(y@.skip(i as int).drop_first() == y@.skip(i + 1));
        }
        i = i + 1;
    }
    i < y.len()
}

/// Whether a list is strictly increasing in lexicographic order.
pub open spec fn strictly_sorted(s: Seq<Seq<char>>) -> bool {
    forall|i: int, j: int| 0 <= i < j < s.len() ==> lex_lt(#[trigger] s[i], #[trigger] s[j])
}

/// The keywords that identify an object.
#[derive(Debug, Clone)]
pub struct Keywords {
    list: Vec<String>,
}

impl Keywords {
    pub closed spec fn words(&self) -> Seq<Seq<char>> {
        strings_view(self.list@)
    }

    pub fn from_list(list: Vec<String>) -> (k: Self)
        ensures
            k.words() == strings_view(list@),
    {
        Keywords { list }
    }

    pub fn get_list(&self) -> (v: Vec<String>)
        ensures
            strings_view(v@) == self.words(),
    {
        let mut v: Vec<String> = Vec::new();
        let mut i: usize = 0;
        while i < self.list.len()
            invariant
                i <= self.list.len(),
                strings_view(v@) == strings_view(self.list@).take(i as int),
            decreases self.list.len() - i,
        {
            let ghost before = v@;
            let w = owned(self.list[i].as_str());
            v.push(w);
            proof {
                before.lemma_push_map_commute(|s: String| s@, w);
                assert(strings_view(self.list@).take(i + 1) =~= strings_view(self.list@).take(i as int).push(self.list@[i as int]@));
            }
            i = i + 1;
        }
        assert(strings_view(self.list@).take(self.list.len() as int) == strings_view(self.list@));
        v
    }

    pub fn set_list(&mut self, list: Vec<String>)
        ensures
            final(self).words() == strings_view(list@),
    {
        self.list = list;
    }

    /// Whether every word is a keyword.
    pub fn contains_all(&self, words: &[String]) -> (b: bool)
        ensures
            b == (forall|i: int| 0 <= i < words@.len() ==> self.words().contains(#[trigger] words@[i]@)),
    {
        let mut i: usize = 0;
        while i < words.len()
            invariant
                i <= words.len(),
                forall|k: int| 0 <= k < i ==> self.words().contains(#[trigger] words@[k]@),
            decreases words.len() - i,
        {
            if !contains_string(&self.list, &words[i]) {
                return false;
            }
            i = i + 1;
        }
        true
    }

    /// Removes every keyword that appears in the list.
    pub fn remove(&mut self, list: &[String])
        ensures
            final(self).words() == old(self).words().filter(|w: Seq<char>| !strings_view(list@).contains(w)),
    {
        let ghost words = self.words();
        let ghost gone = strings_view(list@);
        let mut kept: Vec<String> = Vec::new();
        let mut i: usize = 0;
        while i < self.list.len()
            invariant
                i <= self.list.len(),
                words == strings_view(self.list@),
                gone == strings_view(list@),
                strings_view(kept@) == words.take(i as int).filter(|w: Seq<char>| !gone.contains(w)),
            decreases self.list.len() - i,
        {
            let w = &self.list[i];
            proof {
                assert(words.take(i + 1).drop_last() == words.take(i as int));
                reveal(Seq::filter);
            }
            if !contains_string_slice(list, w) {
                let ghost before = strings_view(kept@);
                kept.push(owned(w.as_str()));
                assert(strings_view(kept@) =~= before.push(w@));
            }
            i = i + 1;
        }
        assert(words.take(self.list.len() as int) == words);
        self.list = kept;
    }

    /// Adds keywords. The list is then sorted, and each word is kept once.
    pub fn add(&mut self, list: Vec<String>)
        ensures
            strictly_sorted(final(self).words()),
            final(self).words().to_set() == old(self).words().to_set() + strings_view(list@).to_set(),
    {
        let ghost all = self.words() + strings_view(list@);
        let mut sorted: Vec<String> = Vec::new();
        let mut i: usize = 0;
        while i < self.list.len()
            invariant
                i <= self.list.len(),
                strictly_sorted(strings_view(sorted@)),
                strings_view(sorted@).to_set() == strings_view(self.list@).take(i as int).to_set(),
            decreases self.list.len() - i,
        {
            insert_sorted(&mut sorted, &self.list[i]);
            proof {
                assert(strings_view(self.list@).take(i + 1) == strings_view(self.list@).take(i as int).push(self.list@[i as int]@));
                strings_view(self.list@).take(i as int).lemma_push_to_set_commute(self.list@[i as int]@);
            }
            i = i + 1;
        }
        assert(strings_view(self.list@).take(self.list.len() as int) == strings_view(self.list@));
        let mut j: usize = 0;
        while j < list.len()
            invariant
                j <= list.len(),
                strictly_sorted(strings_view(sorted@)),
                strings_view(sorted@).to_set() == strings_view(self.list@).to_set() + strings_view(list@).take(j as int).to_set(),
            decreases list.len() - j,
        {
            insert_sorted(&mut sorted, &list[j]);
            proof {
                assert(strings_view(list@).take(j + 1) == strings_view(list@).take(j as int).push(list@[j as int]@));
                strings_view(list@).take(j as int).lemma_push_to_set_commute(list@[j as int]@);
                assert(strings_view(sorted@).to_set() =~= strings_view(self.list@).to_set() + strings_view(list@).take(j + 1).to_set());
            }
            j = j + 1;
        }
        assert(strings_view(list@).take(list.len() as int) == strings_view(list@));
        self.list = sorted;
    }
}

fn contains_string(v: &Vec<String>, w: &String) -> (b: bool)
    ensures
        b == strings_view(v@).contains(w@),
{
    let mut i: usize = 0;
    while i < v.len()
        invariant
            i <= v.len(),
            forall|k: int| 0 <= k < i ==> v@[k]@ != w@,
        decreases v.len() - i,
    {
        if v[i] == *w {
            assert(strings_view(v@)[i as int] == w@);
            return true;
        }
        i = i + 1;
    }
    assert forall|k: int| 0 <= k < strings_view(v@).len() implies strings_view(v@)[k] != w@ by {
        assert(strings_view(v@)[k] == v@[k]@);
    }
    false
}

fn contains_string_slice(v: &[String], w: &String) -> (b: bool)
    ensures
        b == strings_view(v@).contains(w@),
{
    let mut i: usize = 0;
    while i < v.len()
        invariant
            i <= v.len(),
            forall|k: int| 0 <= k < i ==> v@[k]@ != w@,
        decreases v.len() - i,
    {
        if v[i] == *w {
            assert(strings_view(v@)[i as int] == w@);
            return true;
        }
        i = i + 1;
    }
    assert forall|k: int| 0 <= k < strings_view(v@).len() implies strings_view(v@)[k] != w@ by {
        assert(strings_view(v@)[k] == v@[k]@);
    }
    false
}

/// Inserts a word into a strictly sorted list, unless it is there already.
pub fn insert_sorted(sorted: &mut Vec<String>, w: &String)
    requires
        strictly_sorted(strings_view(old(sorted)@)),
    ensures
        strictly_sorted(strings_view(final(sorted)@)),
        strings_view(final(sorted)@).to_set() == strings_view(old(sorted)@).to_set().insert(w@),
{
    let ghost s0 = strings_view(sorted@);
    let mut p: usize = 0;
    while p < sorted.len() && str_lt(sorted[p].as_str(), w.as_str())
        invariant
            p <= sorted.len(),
            strings_view(sorted@) == s0,
            forall|k: int| 0 <= k < p ==> lex_lt(#[trigger] s0[k], w@),
        decreases sorted.len() - p,
    {
        p = p + 1;
    }
    if p < sorted.len() && sorted[p] == *w {
        proof {
            assert(s0[p as int] == w@);
            assert(s0.to_set() =~= s0.to_set().insert(w@));
        }
        return;
    }
    proof {
        if p < sorted.len() {
            assert(s0[p as int] != w@);
            assert(!lex_lt(s0[p as int], w@));
            lemma_lex_total(s0[p as int], w@);
        }
    }
    sorted.insert(p, owned(w.as_str()));
    proof {
        let s1 = strings_view(sorted@);
        assert(s1 =~= s0.insert(p as int, w@));
        assert forall|i: int, j: int| 0 <= i < j < s1.len() implies lex_lt(#[trigger] s1[i], #[trigger] s1[j]) by {
            if j < p {
                assert(s1[i] == s0[i] && s1[j] == s0[j]);
            } else if j == p {
                assert(s1[j] == w@);
                assert(s1[i] == s0[i]);
            } else if i == p {
                assert(s1[i] == w@ && s1[j] == s0[j - 1]);
                if j - 1 > p {
                    assert(lex_lt(s0[p as int], s0[j - 1]));
                    lemma_lex_transitive(w@, s0[p as int], s0[j - 1]);
                }
            } else if i < p {
                assert(s1[i] == s0[i] && s1[j] == s0[j - 1]);
                if j - 1 > p {
                    lemma_lex_transitive(s0[i], w@, s0[p as int]);
                    lemma_lex_transitive(s0[i], s0[p as int], s0[j - 1]);
                } else {
                    lemma_lex_transitive(s0[i], w@, s0[j - 1]);
                }
            } else {
                assert(s1[i] == s0[i - 1] && s1[j] == s0[j - 1]);
            }
        }
        assert(s1.to_set() =~= s0.to_set().insert(w@)) by {
            assert forall|x: Seq<char>| s1.to_set().contains(x) <==> s0.to_set().insert(w@).contains(x) by {
                if s1.contains(x) {
                    let k = choose|k: int| 0 <= k < s1.len() && s1[k] == x;
                    if k < p {
                        assert(s0[k] == x);
                    } else if k > p {
                        assert(s0[k - 1] == x);
                    }
                }
                if s0.contains(x) {
                    let k = choose|k: int| 0 <= k < s0.len() && s0[k] == x;
                    if k < p {
                        assert(s1[k] == x);
                    } else {
                        assert(s1[k + 1] == x);
                    }
                }
                if x == w@ {
                    assert(s1[p as int] == x);
                }
            }
        }
    }
}

} // verus!

verus! {

/// An object field that can be set back to what its prototype holds.
#[derive(Debug, Copy, Clone, PartialEq, Eq, Structural, Hash)]
pub enum InheritableFields {
    Flags,
    Name,
    Description,
    Keywords,
    Scripts,
}

/// The word that names each inheritable field.
pub open spec fn inheritable_field_word(f: InheritableFields) -> Seq<char> {
    match f {
        InheritableFields::Flags => "flags"@,
        InheritableFields::Name => "name"@,
        InheritableFields::Description => "desc"@,
        InheritableFields::Keywords => "keywords"@,
        InheritableFields::Scripts => "scripts"@,
    }
}

/// The field a word names, where it names one (the match is exact).
pub open spec fn inheritable_field_of(s: Seq<char>) -> Option<InheritableFields> {
    if s == "flags"@ {
        Some(InheritableFields::Flags)
    } else if s == "name"@ {
        Some(InheritableFields::Name)
    } else if s == "desc"@ {
        Some(InheritableFields::Description)
    } else if s == "keywords"@ {
        Some(InheritableFields::Keywords)
    } else if s == "scripts"@ {
        Some(InheritableFields::Scripts)
    } else {
        None
    }
}

impl InheritableFields {
    pub fn from_str(s: &str) -> (r: Option<InheritableFields>)
        ensures
            r == inheritable_field_of(s@),
    {
        if same_text(s, "flags") {
            Some(InheritableFields::Flags)
        } else if same_text(s, "name") {
            Some(InheritableFields::Name)
        } else if same_text(s, "desc") {
            Some(InheritableFields::Description)
        } else if same_text(s, "keywords") {
            Some(InheritableFields::Keywords)
        } else if same_text(s, "scripts") {
            Some(InheritableFields::Scripts)
        } else {
            None
        }
    }
}

/// Each field is named by its own word.
pub proof fn inheritable_field_words_round_trip(f: InheritableFields)
    ensures
        inheritable_field_of(inheritable_field_word(f)) == Some(f),
{
    reveal_strlit("flags");
    reveal_strlit("name");
    reveal_strlit("desc");
    reveal_strlit("keywords");
    reveal_strlit("scripts");
    assert("flags"@[0] == 'f' && "name"@[0] == 'n' && "desc"@[0] == 'd');
    assert("keywords"@[0] == 'k' && "scripts"@[0] == 's');
}

/// How a list of keywords or regions alters the current one.
#[derive(Debug, Copy, Clone, PartialEq, Eq, Structural, Hash)]
pub enum Mode {
    Add,
    Remove,
    /// Replaces the list (the word `set`).
    Replace,
}

/// The mode a word names, where it names one (the match is exact).
pub open spec fn mode_of(s: Seq<char>) -> Option<Mode> {
    if s == "add"@ {
        Some(Mode::Add)
    } else if s == "remove"@ {
        Some(Mode::Remove)
    } else if s == "set"@ {
        Some(Mode::Replace)
    } else {
        None
    }
}

impl Mode {
    pub fn from_str(s: &str) -> (r: Option<Mode>)
        ensures
            r == mode_of(s@),
    {
        if same_text(s, "add") {
            Some(Mode::Add)
        } else if same_text(s, "remove") {
            Some(Mode::Remove)
        } else if same_text(s, "set") {
            Some(Mode::Replace)
        } else {
            None
        }
    }
}

} // verus!

verus! {

/// Whether a list is in lexicographic order, equal strings allowed.
pub open spec fn sorted_lex(s: Seq<Seq<char>>) -> bool {
    forall|i: int, j: int| 0 <= i < j < s.len() ==> !lex_lt(#[trigger] s[j], #[trigger] s[i])
}

proof fn lemma_not_lt_transitive(a: Seq<char>, b: Seq<char>, c: Seq<char>)
    requires
        !lex_lt(b, a),
        !lex_lt(c, b),
    ensures
        !lex_lt(c, a),
{
    if lex_lt(c, a) {
        if a != b {
            lemma_lex_total(a, b);
        }
        if b != c {
            lemma_lex_total(b, c);
        }
        if a == b {
            assert(lex_lt(c, b));
        } else if b == c {
            assert(lex_lt(b, a));
        } else {
            lemma_lex_transitive(a, b, c);
            lemma_lex_asymmetric(a, c);
        }
    }
}

/// Sorts strings in lexicographic order, keeping repeats.
pub fn sort_strings(words: &Vec<String>) -> (r: Vec<String>)
    ensures
        sorted_lex(strings_view(r@)),
        strings_view(r@).to_multiset() == strings_view(words@).to_multiset(),
{
    broadcast use vstd::seq_lib::group_to_multiset_ensures;
    let mut sorted: Vec<String> = Vec::new();
    let mut i: usize = 0;
    while i < words.len()
        invariant
            i <= words.len(),
            sorted_lex(strings_view(sorted@)),
            strings_view(sorted@).to_multiset() == strings_view(words@).take(i as int).to_multiset(),
        decreases words.len() - i,
    {
        let w = &words[i];
        let ghost s0 = strings_view(sorted@);
        let mut p: usize = 0;
        while p < sorted.len() && str_lt(sorted[p].as_str(), w.as_str())
            invariant
                p <= sorted.len(),
                strings_view(sorted@) == s0,
                forall|k: int| 0 <= k < p ==> lex_lt(#[trigger] s0[k], w@),
            decreases sorted.len() - p,
        {
            p = p + 1;
        }
        let c = owned(w.as_str());
        let ghost raw = sorted@;
        sorted.insert(p, c);
        proof {
            assert(strings_view(sorted@) =~= s0.insert(p as int, w@));
            let s1 = s0.insert(p as int, w@);
            assert forall|a: int, b: int| 0 <= a < b < s1.len() implies !lex_lt(#[trigger] s1[b], #[trigger] s1[a]) by {
                if b < p {
                    assert(s1[a] == s0[a] && s1[b] == s0[b]);
                } else if b == p {
                    assert(s1[a] == s0[a]);
                    lemma_lex_asymmetric(s0[a], w@);
                } else if a == p {
                    assert(s1[b] == s0[b - 1]);
                    assert(!lex_lt(s0[p as int], w@));
                    if b - 1 > p {
                        assert(!lex_lt(s0[b - 1], s0[p as int]));
                    } else {
                        lemma_lex_irreflexive(s0[p as int]);
                    }
                    lemma_not_lt_transitive(w@, s0[p as int], s0[b - 1]);
                } else if a < p {
                    assert(s1[a] == s0[a] && s1[b] == s0[b - 1]);
                } else {
                    assert(s1[a] == s0[a - 1] && s1[b] == s0[b - 1]);
                }
            }
            vstd::seq_lib::to_multiset_insert(s0, p as int, w@);
            let t = strings_view(words@).take(i + 1);
            assert(t =~= strings_view(words@).take(i as int).push(w@));
            vstd::seq_lib::to_multiset_build(strings_view(words@).take(i as int), w@);
        }
        i = i + 1;
    }
    assert(strings_view(words@).take(words.len() as int) =~= strings_view(words@));
    sorted
}

} // verus!
