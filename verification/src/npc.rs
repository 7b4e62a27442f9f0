use vstd::prelude::*;
use crate::actions::{Action, Move, Say};
use crate::chars::{chars_of, push_str, string_from_chars};
use crate::client::{owned, same_text, EntityId};
use crate::persist::room::Direction;
use crate::text::strings_view;

verus! {

/// The states a creature's state machine can be in.
#[derive(Debug, Copy, Clone, PartialEq, Eq, Structural)]
pub enum StateId {
    Chase,
    Wander,
}

/// What makes a state hand over to another.
#[derive(Debug, Copy, Clone, PartialEq, Eq, Structural)]
pub enum Transition {
    SawTarget,
    Done,
}

/// A parameter given by a script, as the states read it: a flag, an integer, a text, a
/// list of which only the texts are kept, an entity, or something else.
pub enum ParamValue {
    Bool(bool),
    Int(i64),
    Text(String),
    TextList(Vec<Option<String>>),
    Entity(EntityId),
    Other,
}

/// Named parameters, as a script's map holds them (each name once).
pub struct Params {
    pub entries: Vec<(String, ParamValue)>,
}

/// The value a name has among the parameters, if any.
pub open spec fn param_lookup(entries: Seq<(String, ParamValue)>, key: Seq<char>) -> Option<ParamValue>
    decreases entries.len(),
{
    if entries.len() == 0 {
        None
    } else if entries[0].0@ == key {
        Some(entries[0].1)
    } else {
        param_lookup(entries.drop_first(), key)
    }
}

fn find_param<'a>(params: &'a Params, key: &str) -> (r: Option<&'a ParamValue>)
    ensures
        match param_lookup(params.entries@, key@) {
            Some(v) => r == Some(&v),
            None => r is None,
        },
{
    let mut i: usize = 0;
    assert(params.entries@.subrange(0, params.entries@.len() as int) =~= params.entries@);
    while i < params.entries.len()
        invariant
            i <= params.entries.len(),
            param_lookup(params.entries@.subrange(i as int, params.entries@.len() as int), key@)
                == param_lookup(params.entries@, key@),
        decreases params.entries.len() - i,
    {
        let ghost rest = params.entries@.subrange(i as int, params.entries@.len() as int);
        if same_text(params.entries[i].0.as_str(), key) {
            assert(rest[0] == params.entries@[i as int]);
            return Some(&params.entries[i].1);
        }
        assert(rest.drop_first() =~= params.entries@.subrange(i + 1, params.entries@.len() as int));
        i = i + 1;
    }
    None
}

/// A parameter that is a non-negative integer.
pub open spec fn uint_param(p: Params, key: Seq<char>) -> Option<u64> {
    match param_lookup(p.entries@, key) {
        Some(ParamValue::Int(i)) => if i >= 0 {
            Some(i as u64)
        } else {
            None
        },
        _ => None,
    }
}

fn read_uint(params: &Params, key: &str) -> (r: Option<u64>)
    ensures
        r == uint_param(*params, key@),
{
    match find_param(params, key) {
        Some(ParamValue::Int(i)) => if *i >= 0 {
            Some(*i as u64)
        } else {
            None
        },
        _ => None,
    }
}

/// A parameter that is at least `floor`, raised to it where it is below, or the default.
pub open spec fn bounded_param(p: Params, key: Seq<char>, floor: u64, default: u64) -> u64 {
    match uint_param(p, key) {
        Some(v) => if v < floor {
            floor
        } else {
            v
        },
        None => default,
    }
}

/// One entry of a transition list: a map with a `when` and a `then` (either may be
/// missing or of the wrong kind), or something that is not a map at all.
pub enum TxEntry {
    Pair { when: Option<Transition>, then: Option<StateId> },
    NotAMap,
}

/// The state a transition leads to: the last complete entry for it wins.
pub open spec fn tx_target(entries: Seq<TxEntry>, t: Transition) -> Option<StateId>
    decreases entries.len(),
{
    if entries.len() == 0 {
        None
    } else {
        match entries.last() {
            TxEntry::Pair { when: Some(w), then: Some(s) } => if w == t {
                Some(s)
            } else {
                tx_target(entries.drop_last(), t)
            },
            _ => tx_target(entries.drop_last(), t),
        }
    }
}

/// Where each transition leads.
#[derive(Debug, Copy, Clone, PartialEq, Eq, Structural)]
pub struct TxMap {
    pub saw_target: Option<StateId>,
    pub done: Option<StateId>,
}

impl TxMap {
    pub open spec fn target(&self, t: Transition) -> Option<StateId> {
        match t {
            Transition::SawTarget => self.saw_target,
            Transition::Done => self.done,
        }
    }

    pub fn get(&self, t: Transition) -> (r: Option<StateId>)
        ensures
            r == self.target(t),
    {
        match t {
            Transition::SawTarget => self.saw_target,
            Transition::Done => self.done,
        }
    }
}

/// Reads a transition list; entries that are not complete pairs are skipped.
pub fn build_tx_map(txs: &Vec<TxEntry>) -> (m: TxMap)
    ensures
        m.saw_target == tx_target(txs@, Transition::SawTarget),
        m.done == tx_target(txs@, Transition::Done),
{
    let mut m = TxMap { saw_target: None, done: None };
    let mut i: usize = 0;
    while i < txs.len()
        invariant
            i <= txs.len(),
            m.saw_target == tx_target(txs@.take(i as int), Transition::SawTarget),
            m.done == tx_target(txs@.take(i as int), Transition::Done),
        decreases txs.len() - i,
    {
        proof {
            assert(txs@.take(i + 1).drop_last() =~= txs@.take(i as int));
            assert(txs@.take(i + 1).last() == txs@[i as int]);
        }
        match &txs[i] {
            TxEntry::Pair { when: Some(w), then: Some(s) } => match w {
                Transition::SawTarget => {
                    m.saw_target = Some(*s);
                },
                Transition::Done => {
                    m.done = Some(*s);
                },
            },
            _ => {},
        }
        i = i + 1;
    }
    assert(txs@.take(txs.len() as int) =~= txs@);
    m
}

/// Wanders from room to room, watching for players.
pub struct WanderState {
    pub find_player: bool,
    pub min_stay: u64,
    pub max_stay: u64,
    pub endless: bool,
    pub min_wanders: u64,
    pub max_wanders: u64,
    pub tx: TxMap,
    pub current_wanders: u64,
    pub current_max_wanders: u64,
}

pub open spec fn has_param(p: Params, key: Seq<char>) -> bool {
    param_lookup(p.entries@, key) is Some
}

impl WanderState {
    /// Reads the parameters: `find_player` (default off), `min_stay` and `max_stay` in
    /// milliseconds (defaults 10 000 and 60 000, the maximum raised to the minimum), and
    /// `min_wanders` and `max_wanders` (defaults 2 and 5, likewise); without either
    /// wander count the creature wanders without end.
    pub fn new(params: &Params, tx: &Vec<TxEntry>) -> (w: WanderState)
        ensures
            w.find_player == (param_lookup(params.entries@, "find_player"@) == Some(ParamValue::Bool(true))),
            w.min_stay == match uint_param(*params, "min_stay"@) {
                Some(v) => v,
                None => 10_000,
            },
            w.max_stay == bounded_param(*params, "max_stay"@, w.min_stay, 60_000),
            w.endless == (!has_param(*params, "min_wanders"@) && !has_param(*params, "max_wanders"@)),
            w.min_wanders == match uint_param(*params, "min_wanders"@) {
                Some(v) => v,
                None => 2,
            },
            w.max_wanders == bounded_param(*params, "max_wanders"@, w.min_wanders, 5),
            w.tx.saw_target == tx_target(tx@, Transition::SawTarget),
            w.tx.done == tx_target(tx@, Transition::Done),
            w.current_wanders == 0,
            w.current_max_wanders == 0,
    {
        let find_player = match find_param(params, "find_player") {
            Some(ParamValue::Bool(b)) => *b,
            _ => false,
        };
        let min_stay = match read_uint(params, "min_stay") {
            Some(v) => v,
            None => 10_000,
        };
        let max_stay = match read_uint(params, "max_stay") {
            Some(v) => if v < min_stay {
                min_stay
            } else {
                v
            },
            None => 60_000,
        };
        let endless = find_param(params, "min_wanders").is_none() && find_param(params, "max_wanders").is_none();
        let min_wanders = match read_uint(params, "min_wanders") {
            Some(v) => v,
            None => 2,
        };
        let max_wanders = match read_uint(params, "max_wanders") {
            Some(v) => if v < min_wanders {
                min_wanders
            } else {
                v
            },
            None => 5,
        };
        WanderState {
            find_player,
            min_stay,
            max_stay,
            endless,
            min_wanders,
            max_wanders,
            tx: build_tx_map(tx),
            current_wanders: 0,
            current_max_wanders: 0,
        }
    }
}

/// The texts of a list, in order, leaving out what is not a text.
pub open spec fn texts_of(l: Seq<Option<String>>) -> Seq<Seq<char>>
    decreases l.len(),
{
    if l.len() == 0 {
        seq![]
    } else {
        match l.last() {
            Some(s) => texts_of(l.drop_last()).push(s@),
            None => texts_of(l.drop_last()),
        }
    }
}

/// The messages a `found_say` parameter gives: the texts of a list, where there are any,
/// or a single text.
pub open spec fn found_say_of(p: Params) -> Option<Seq<Seq<char>>> {
    match param_lookup(p.entries@, "found_say"@) {
        Some(ParamValue::TextList(l)) => if texts_of(l@).len() == 0 {
            None
        } else {
            Some(texts_of(l@))
        },
        Some(ParamValue::Text(s)) => Some(seq![s@]),
        _ => None,
    }
}

fn collect_texts(l: &Vec<Option<String>>) -> (v: Vec<String>)
    ensures
        strings_view(v@) == texts_of(l@),
{
    let mut v: Vec<String> = Vec::new();
    let mut i: usize = 0;
    while i < l.len()
        invariant
            i <= l.len(),
            strings_view(v@) == texts_of(l@.take(i as int)),
        decreases l.len() - i,
    {
        proof {
            assert(l@.take(i + 1).drop_last() =~= l@.take(i as int));
            assert(l@.take(i + 1).last() == l@[i as int]);
        }
        match &l[i] {
            Some(s) => {
                let ghost raw = v@;
                let c = owned(s.as_str());
                v.push(c);
                proof {
                    raw.lemma_push_map_commute(|x: String| x@, c);
                }
            },
            None => {},
        }
        i = i + 1;
    }
    assert(l@.take(l.len() as int) =~= l@);
    v
}

pub open spec fn messages_view(m: Option<Vec<String>>) -> Option<Seq<Seq<char>>> {
    match m {
        Some(v) => Some(strings_view(v@)),
        None => None,
    }
}

/// Follows a player until it loses sight of them.
pub struct FollowState {
    pub target: Option<EntityId>,
    pub acquisition_messages: Option<Vec<String>>,
    pub min_wait: u64,
    pub max_wait: u64,
    pub tx: TxMap,
    pub move_direction: Option<Direction>,
}

impl FollowState {
    /// Reads the parameters: `follow`, the entity to follow; `found_say`, what to say on
    /// finding someone; `min_wait` and `max_wait` in milliseconds before following
    /// (defaults 1 000 and 5 000, the maximum raised to the minimum).
    pub fn new(params: &Params, tx: &Vec<TxEntry>) -> (f: FollowState)
        ensures
            f.target == match param_lookup(params.entries@, "follow"@) {
                Some(ParamValue::Entity(e)) => Some(e),
                _ => None,
            },
            messages_view(f.acquisition_messages) == found_say_of(*params),
            f.min_wait == match uint_param(*params, "min_wait"@) {
                Some(v) => v,
                None => 1000,
            },
            f.max_wait == bounded_param(*params, "max_wait"@, f.min_wait, 5000),
            f.tx.saw_target == tx_target(tx@, Transition::SawTarget),
            f.tx.done == tx_target(tx@, Transition::Done),
            f.move_direction is None,
    {
        let target = match find_param(params, "follow") {
            Some(ParamValue::Entity(e)) => Some(*e),
            _ => None,
        };
        let found_say = match find_param(params, "found_say") {
            Some(ParamValue::TextList(l)) => {
                let list = collect_texts(l);
                if list.len() == 0 {
                    None
                } else {
                    Some(list)
                }
            },
            Some(ParamValue::Text(s)) => {
                let mut v: Vec<String> = Vec::new();
                v.push(owned(s.as_str()));
                assert(strings_view(v@) =~= seq![s@]);
                Some(v)
            },
            _ => None,
        };
        let min_wait = match read_uint(params, "min_wait") {
            Some(v) => v,
            None => 1000,
        };
        let max_wait = match read_uint(params, "max_wait") {
            Some(v) => if v < min_wait {
                min_wait
            } else {
                v
            },
            None => 5000,
        };
        FollowState {
            target,
            acquisition_messages: found_say,
            min_wait,
            max_wait,
            tx: build_tx_map(tx),
            move_direction: None,
        }
    }
}

/// A uniformly random number from `lo` to `hi`, both included, from `rand`'s thread-local
/// generator (`Rng::gen_range` on `lo..=hi`, which panics on an empty range). The claim is
/// only the range; that the generator's first use can panic when the system offers no
/// randomness is left unsaid.
#[verifier::external_body]
fn random_between(lo: u64, hi: u64) -> (r: u64)
    requires
        lo <= hi,
    ensures
        lo <= r <= hi,
{
    rand::Rng::gen_range(&mut rand::thread_rng(), lo..=hi)
}

/// A uniformly random index below `len`, or `None` where `len` is 0, from `rand`'s
/// thread-local generator (`IteratorRandom::choose` on `0..len`). The claim is only the
/// range; as above, a generator that cannot start is left unsaid.
#[verifier::external_body]
fn random_index(len: usize) -> (r: Option<usize>)
    ensures
        r.is_none() == (len == 0),
        r.is_some() ==> r.unwrap() < len,
{
    rand::seq::IteratorRandom::choose(0..len, &mut rand::thread_rng())
}

/// What a state asks of the world: a timer to start, or an action to queue.
pub enum Effect {
    StartTimer { name: String, millis: u64 },
    Queue(Action),
}

pub open spec fn is_timer(e: Effect, name: Seq<char>, lo: u64, hi: u64) -> bool {
    e matches Effect::StartTimer { name: n, millis } && n@ == name && lo <= millis <= hi
}

pub open spec fn is_move(e: Effect, actor: EntityId, exits: Seq<Direction>) -> bool {
    e matches Effect::Queue(Action::Move(m)) && m.actor == actor && exits.contains(m.direction)
}

pub open spec fn wander_timer_name() -> Seq<char> {
    "wander_state_timer"@
}

pub open spec fn follow_timer_name() -> Seq<char> {
    "follow_state_timer"@
}

fn timer_effect(name: &str, lo: u64, hi: u64) -> (e: Effect)
    requires
        lo <= hi,
    ensures
        is_timer(e, name@, lo, hi),
{
    Effect::StartTimer { name: owned(name), millis: random_between(lo, hi) }
}

/// Two wander states configured alike.
pub open spec fn same_wander_config(a: WanderState, b: WanderState) -> bool {
    &&& a.find_player == b.find_player
    &&& a.min_stay == b.min_stay
    &&& a.max_stay == b.max_stay
    &&& a.endless == b.endless
    &&& a.min_wanders == b.min_wanders
    &&& a.max_wanders == b.max_wanders
    &&& a.tx == b.tx
}

/// The stay and wander ranges are not empty.
pub open spec fn wander_ranges_ok(w: WanderState) -> bool {
    w.min_stay <= w.max_stay && w.min_wanders <= w.max_wanders
}

/// Entering: a stay timer starts, and a number of wanders is drawn.
pub open spec fn wander_enter(old: WanderState, new: WanderState, e: Seq<Effect>) -> bool {
    &&& same_wander_config(old, new)
    &&& new.current_wanders == 0
    &&& old.min_wanders <= new.current_max_wanders <= old.max_wanders
    &&& e.len() == 1
    &&& is_timer(e[0], wander_timer_name(), old.min_stay, old.max_stay)
}

/// Deciding: seeing a player (where it looks for them), or having wandered enough.
pub open spec fn wander_decision(w: WanderState, players_present: bool) -> Option<Transition> {
    if w.find_player && players_present {
        Some(Transition::SawTarget)
    } else if !w.endless && w.current_wanders >= w.current_max_wanders {
        Some(Transition::Done)
    } else {
        None
    }
}

/// Acting: once the stay is over, a new stay starts and it moves through a random exit.
pub open spec fn wander_act(old: WanderState, new: WanderState, actor: EntityId, timer_done: bool,
    exits: Seq<Direction>, e: Seq<Effect>) -> bool {
    if !timer_done {
        new == old && e.len() == 0
    } else {
        &&& same_wander_config(old, new)
        &&& new.current_wanders == old.current_wanders + 1
        &&& new.current_max_wanders == old.current_max_wanders
        &&& e.len() == (if exits.len() == 0 { 1int } else { 2int })
        &&& is_timer(e[0], wander_timer_name(), old.min_stay, old.max_stay)
        &&& exits.len() > 0 ==> is_move(e[1], actor, exits)
    }
}

impl WanderState {
    pub fn on_enter(&mut self) -> (e: Vec<Effect>)
        requires
            wander_ranges_ok(*old(self)),
        ensures
            wander_enter(*old(self), *final(self), e@),
    {
        let mut e: Vec<Effect> = Vec::new();
        e.push(timer_effect("wander_state_timer", self.min_stay, self.max_stay));
        self.current_wanders = 0;
        self.current_max_wanders = random_between(self.min_wanders, self.max_wanders);
        e
    }

    pub fn decide(&self, players_present: bool) -> (t: Option<Transition>)
        ensures
            t == wander_decision(*self, players_present),
    {
        if self.find_player && players_present {
            return Some(Transition::SawTarget);
        }
        if !self.endless && self.current_wanders >= self.current_max_wanders {
            return Some(Transition::Done);
        }
        None
    }

    pub fn act(&mut self, actor: EntityId, timer_done: bool, exits: &Vec<Direction>) -> (e: Vec<Effect>)
        requires
            wander_ranges_ok(*old(self)),
            old(self).current_wanders < u64::MAX,
        ensures
            wander_act(*old(self), *final(self), actor, timer_done, exits@, e@),
    {
        let mut e: Vec<Effect> = Vec::new();
        if !timer_done {
            return e;
        }
        e.push(timer_effect("wander_state_timer", self.min_stay, self.max_stay));
        self.current_wanders = self.current_wanders + 1;
        if exits.len() > 0 {
            match random_index(exits.len()) {
                Some(i) => {
                    e.push(Effect::Queue(Action::Move(Move { actor, direction: exits[i] })));
                    assert(exits@.contains(exits@[i as int]));
                },
                None => {},
            }
        }
        e
    }

    pub fn output_state(&self, next: Transition) -> (s: Option<StateId>)
        ensures
            s == self.tx.target(next),
    {
        self.tx.get(next)
    }
}

/// `s` with every `pat` replaced by `rep`, scanning left to right (`str::replace`).
pub open spec fn replace_all(s: Seq<char>, pat: Seq<char>, rep: Seq<char>) -> Seq<char>
    decreases s.len(),
{
    if pat.len() == 0 || s.len() < pat.len() {
        s
    } else if s.subrange(0, pat.len() as int) == pat {
        rep + replace_all(s.subrange(pat.len() as int, s.len() as int), pat, rep)
    } else {
        seq![s[0]] + replace_all(s.drop_first(), pat, rep)
    }
}

fn starts_at(v: &Vec<char>, i: usize, pat: &Vec<char>) -> (b: bool)
    requires
        i <= v.len(),
    ensures
        b == (i + pat.len() <= v.len() && v@.subrange(i as int, i + pat.len()) == pat@),
{
    if pat.len() > v.len() - i {
        return false;
    }
    let mut k: usize = 0;
    while k < pat.len()
        invariant
            i + pat.len() <= v.len(),
            k <= pat.len(),
            forall|m: int| 0 <= m < k ==> v@[i + m] == pat@[m],
        decreases pat.len() - k,
    {
        if v[i + k] != pat[k] {
            assert(v@.subrange(i as int, i + pat.len())[k as int] != pat@[k as int]);
            return false;
        }
        k = k + 1;
    }
    assert(v@.subrange(i as int, i + pat.len()) =~= pat@);
    true
}

/// Replaces every occurrence of a non-empty pattern.
pub fn replace_text(s: &str, pat: &str, rep: &str) -> (r: String)
    requires
        pat@.len() > 0,
    ensures
        r@ == replace_all(s@, pat@, rep@),
{
    let v = chars_of(s);
    let p = chars_of(pat);
    let mut out: Vec<char> = Vec::new();
    let mut i: usize = 0;
    assert(v@.subrange(0, v@.len() as int) =~= v@);
    assert(out@ + replace_all(v@, p@, rep@) =~= replace_all(v@, p@, rep@));
    while i < v.len()
        invariant
            i <= v.len(),
            v@ == s@,
            p@ == pat@,
            p@.len() > 0,
            out@ + replace_all(v@.subrange(i as int, v@.len() as int), p@, rep@) == replace_all(v@, p@, rep@),
        decreases v.len() - i,
    {
        let ghost rest = v@.subrange(i as int, v@.len() as int);
        if starts_at(&v, i, &p) {
            proof {
                assert(rest.subrange(0, p@.len() as int) =~= v@.subrange(i as int, i + p@.len()));
                assert(rest.subrange(p@.len() as int, rest.len() as int) =~= v@.subrange(i + p@.len(), v@.len() as int));
            }
            push_str(&mut out, rep);
            i = i + p.len();
        } else {
            proof {
                if rest.len() >= p@.len() {
                    assert(rest.subrange(0, p@.len() as int) =~= v@.subrange(i as int, i + p@.len()));
                }
                assert(rest.drop_first() =~= v@.subrange(i + 1, v@.len() as int));
                assert(rest[0] == v@[i as int]);
                if rest.len() < p@.len() {
                    assert(replace_all(rest, p@, rep@) == rest);
                    assert(rest.drop_first().len() < p@.len());
                    assert(replace_all(rest.drop_first(), p@, rep@) == rest.drop_first());
                    assert(rest =~= seq![rest[0]] + rest.drop_first());
                }
            }
            out.push(v[i]);
            proof {
                assert(out@ + replace_all(v@.subrange(i + 1, v@.len() as int), p@, rep@) =~= (out@.drop_last() + seq![v@[i as int]]) + replace_all(rest.drop_first(), p@, rep@));
            }
            i = i + 1;
        }
    }
    proof {
        assert(v@.subrange(v@.len() as int, v@.len() as int) =~= Seq::<char>::empty());
        assert(out@ + Seq::<char>::empty() =~= out@);
    }
    string_from_chars(&out)
}

/// Two follow states configured alike.
pub open spec fn same_follow_config(a: FollowState, b: FollowState) -> bool {
    &&& a.acquisition_messages == b.acquisition_messages
    &&& a.min_wait == b.min_wait
    &&& a.max_wait == b.max_wait
    &&& a.tx == b.tx
}

/// The wait range is not empty and a message list, where there is one, is not empty.
pub open spec fn follow_config_ok(f: FollowState) -> bool {
    &&& f.min_wait <= f.max_wait
    &&& (f.acquisition_messages matches Some(ms) ==> ms@.len() > 0)
}

/// Entering: with no one to follow yet, it picks one of the players in the room and, where
/// it has messages, says one of them with `${name}` replaced by that player's name.
pub open spec fn follow_enter(old: FollowState, new: FollowState, actor: EntityId, players: Seq<EntityId>,
    names: Seq<Seq<char>>, e: Seq<Effect>) -> bool {
    if old.target is Some {
        new == old && e.len() == 0
    } else {
        exists|i: int| 0 <= i < players.len() && #[trigger] new.target == Some(players[i]) && {
            &&& same_follow_config(old, new)
            &&& new.move_direction == old.move_direction
            &&& match old.acquisition_messages {
                None => e.len() == 0,
                Some(ms) => e.len() == 1 && exists|j: int| 0 <= j < ms@.len() && #[trigger] said(e[0], actor,
                    replace_all(ms@[j]@, "${name}"@, names[i])),
            }
        }
    }
}

pub open spec fn said(e: Effect, actor: EntityId, message: Seq<char>) -> bool {
    e matches Effect::Queue(Action::Say(s)) && s.actor == actor && s.message@ == message
}

/// Where the followed player is seen: here (`Some(None)`), behind the first exit whose
/// room holds them (`Some(Some(direction))`), or nowhere.
pub open spec fn sighting(target: Option<EntityId>, here: Seq<EntityId>, exits: Seq<(Direction, Vec<EntityId>)>)
    -> Option<Option<Direction>> {
    match target {
        Some(t) => if here.contains(t) {
            Some(None)
        } else {
            match first_exit_with(exits, t) {
                Some(k) => Some(Some(exits[k].0)),
                None => None,
            }
        },
        None => None,
    }
}

/// The first exit whose room holds `t`.
pub open spec fn first_exit_with(exits: Seq<(Direction, Vec<EntityId>)>, t: EntityId) -> Option<int>
    decreases exits.len(),
{
    if exits.len() == 0 {
        None
    } else if exits[0].1@.contains(t) {
        Some(0)
    } else {
        match first_exit_with(exits.drop_first(), t) {
            Some(k) => Some(k + 1),
            None => None,
        }
    }
}

/// No player is in the room or behind any exit.
pub open spec fn nobody_around(here: Seq<EntityId>, exits: Seq<(Direction, Vec<EntityId>)>) -> bool {
    here.len() == 0 && forall|k: int| 0 <= k < exits.len() ==> (#[trigger] exits[k]).1@.len() == 0
}

/// Deciding: where the target is seen it keeps following, and where it is behind an
/// exit a wait starts before moving; where it is seen nowhere, it is done.
pub open spec fn follow_decide(old: FollowState, new: FollowState, here: Seq<EntityId>,
    exits: Seq<(Direction, Vec<EntityId>)>, t: Option<Transition>, e: Seq<Effect>) -> bool {
    match sighting(old.target, here, exits) {
        Some(dir) => {
            &&& t is None
            &&& new == (FollowState { move_direction: dir, ..old })
            &&& match dir {
                Some(_) => e.len() == 1 && is_timer(e[0], follow_timer_name(), old.min_wait, old.max_wait),
                None => e.len() == 0,
            }
        },
        None => t == Some(Transition::Done) && new == old && e.len() == 0,
    }
}

/// Acting: once the wait is over, it moves the way the target went.
pub open spec fn follow_act(old: FollowState, new: FollowState, actor: EntityId, timer_done: bool, e: Seq<Effect>) -> bool {
    match old.move_direction {
        Some(d) => if timer_done {
            &&& new == (FollowState { move_direction: None, ..old })
            &&& e.len() == 1
            &&& e[0] matches Effect::Queue(Action::Move(m)) && m.actor == actor && m.direction == d
        } else {
            new == old && e.len() == 0
        },
        None => new == old && e.len() == 0,
    }
}

fn contains_entity(v: &Vec<EntityId>, t: EntityId) -> (b: bool)
    ensures
        b == v@.contains(t),
{
    let mut i: usize = 0;
    while i < v.len()
        invariant
            i <= v.len(),
            forall|k: int| 0 <= k < i ==> v@[k] != t,
        decreases v.len() - i,
    {
        if v[i] == t {
            assert(v@[i as int] == t);
            return true;
        }
        i = i + 1;
    }
    false
}

proof fn lemma_first_exit_with(exits: Seq<(Direction, Vec<EntityId>)>, t: EntityId, k: int)
    requires
        0 <= k <= exits.len(),
        forall|m: int| 0 <= m < k ==> !(#[trigger] exits[m]).1@.contains(t),
    ensures
        k < exits.len() && exits[k].1@.contains(t) ==> first_exit_with(exits, t) == Some(k),
        k == exits.len() ==> first_exit_with(exits, t) is None,
    decreases k,
{
    if k > 0 {
        let rest = exits.drop_first();
        assert forall|m: int| 0 <= m < k - 1 implies !(#[trigger] rest[m]).1@.contains(t) by {
            assert(rest[m] == exits[m + 1]);
        }
        if k < exits.len() {
            assert(rest[k - 1] == exits[k]);
        }
        lemma_first_exit_with(rest, t, k - 1);
        assert(!exits[0].1@.contains(t));
    } else if exits.len() > 0 {
        assert(exits[0] == exits[0]);
    }
}

fn find_exit_with(exits: &Vec<(Direction, Vec<EntityId>)>, t: EntityId) -> (r: Option<usize>)
    ensures
        r matches Some(k) ==> k < exits.len() && first_exit_with(exits@, t) == Some(k as int),
        r is None ==> first_exit_with(exits@, t) is None,
{
    let mut i: usize = 0;
    while i < exits.len()
        invariant
            i <= exits.len(),
            forall|m: int| 0 <= m < i ==> !(#[trigger] exits@[m]).1@.contains(t),
        decreases exits.len() - i,
    {
        if contains_entity(&exits[i].1, t) {
            proof {
                lemma_first_exit_with(exits@, t, i as int);
            }
            return Some(i);
        }
        i = i + 1;
    }
    proof {
        lemma_first_exit_with(exits@, t, i as int);
    }
    None
}

impl FollowState {
    pub fn on_enter(&mut self, actor: EntityId, players: &Vec<EntityId>, names: &Vec<String>) -> (e: Vec<Effect>)
        requires
            follow_config_ok(*old(self)),
            old(self).target is None ==> players.len() > 0 && names.len() == players.len(),
        ensures
            follow_enter(*old(self), *final(self), actor, players@, strings_view(names@), e@),
    {
        let mut e: Vec<Effect> = Vec::new();
        if self.target.is_some() {
            return e;
        }
        let i = match random_index(players.len()) {
            Some(i) => i,
            None => {
                return e;
            },
        };
        self.target = Some(players[i]);
        match &self.acquisition_messages {
            Some(ms) => {
                match random_index(ms.len()) {
                    Some(j) => {
                        proof {
                            reveal_strlit("${name}");
                        }
                        let message = replace_text(ms[j].as_str(), "${name}", names[i].as_str());
                        e.push(Effect::Queue(Action::Say(Say { actor, message })));
                        proof {
                            assert(strings_view(names@)[i as int] == names@[i as int]@);
                            assert(said(e@[0], actor, replace_all(ms@[j as int]@, "${name}"@, strings_view(names@)[i as int])));
                        }
                    },
                    None => {},
                }
            },
            None => {},
        }
        proof {
            assert(self.target == Some(players@[i as int]));
        }
        e
    }

    pub fn decide(&mut self, here: &Vec<EntityId>, exits: &Vec<(Direction, Vec<EntityId>)>) -> (r: (Option<Transition>, Vec<Effect>))
        requires
            follow_config_ok(*old(self)),
            old(self).target is Some || nobody_around(here@, exits@),
        ensures
            follow_decide(*old(self), *final(self), here@, exits@, r.0, r.1@),
    {
        let mut e: Vec<Effect> = Vec::new();
        let t = match self.target {
            Some(t) => t,
            None => {
                return (Some(Transition::Done), e);
            },
        };
        if contains_entity(here, t) {
            self.move_direction = None;
            return (None, e);
        }
        match find_exit_with(exits, t) {
            Some(k) => {
                self.move_direction = Some(exits[k].0);
                e.push(timer_effect("follow_state_timer", self.min_wait, self.max_wait));
                (None, e)
            },
            None => (Some(Transition::Done), e),
        }
    }

    pub fn act(&mut self, actor: EntityId, timer_done: bool) -> (e: Vec<Effect>)
        ensures
            follow_act(*old(self), *final(self), actor, timer_done, e@),
    {
        let mut e: Vec<Effect> = Vec::new();
        if let Some(direction) = self.move_direction {
            if timer_done {
                e.push(Effect::Queue(Action::Move(Move { actor, direction })));
                self.move_direction = None;
            }
        }
        e
    }

    pub fn on_exit(&mut self)
        ensures
            *final(self) == (FollowState { target: None, move_direction: None, ..*old(self) }),
    {
        self.target = None;
        self.move_direction = None;
    }

    pub fn output_state(&self, next: Transition) -> (s: Option<StateId>)
        ensures
            s == self.tx.target(next),
    {
        self.tx.get(next)
    }
}

/// A state, as the machine holds it.
pub enum State {
    Wander(WanderState),
    Chase(FollowState),
}

/// The state made for an id from its parameters and transitions.
pub open spec fn state_made(id: StateId, params: Params, tx: Seq<TxEntry>, s: State) -> bool {
    match id {
        StateId::Wander => s matches State::Wander(w) && wander_made(params, tx, w),
        StateId::Chase => s matches State::Chase(f) && follow_made(params, tx, f),
    }
}

/// What `WanderState::new` makes of its parameters.
pub open spec fn wander_made(params: Params, tx: Seq<TxEntry>, w: WanderState) -> bool {
    &&& w.find_player == (param_lookup(params.entries@, "find_player"@) == Some(ParamValue::Bool(true)))
    &&& w.min_stay == match uint_param(params, "min_stay"@) {
        Some(v) => v,
        None => 10_000,
    }
    &&& w.max_stay == bounded_param(params, "max_stay"@, w.min_stay, 60_000)
    &&& w.endless == (!has_param(params, "min_wanders"@) && !has_param(params, "max_wanders"@))
    &&& w.min_wanders == match uint_param(params, "min_wanders"@) {
        Some(v) => v,
        None => 2,
    }
    &&& w.max_wanders == bounded_param(params, "max_wanders"@, w.min_wanders, 5)
    &&& w.tx.saw_target == tx_target(tx, Transition::SawTarget)
    &&& w.tx.done == tx_target(tx, Transition::Done)
    &&& w.current_wanders == 0
    &&& w.current_max_wanders == 0
}

/// What `FollowState::new` makes of its parameters.
pub open spec fn follow_made(params: Params, tx: Seq<TxEntry>, f: FollowState) -> bool {
    &&& f.target == match param_lookup(params.entries@, "follow"@) {
        Some(ParamValue::Entity(e)) => Some(e),
        _ => None,
    }
    &&& messages_view(f.acquisition_messages) == found_say_of(params)
    &&& f.min_wait == match uint_param(params, "min_wait"@) {
        Some(v) => v,
        None => 1000,
    }
    &&& f.max_wait == bounded_param(params, "max_wait"@, f.min_wait, 5000)
    &&& f.tx.saw_target == tx_target(tx, Transition::SawTarget)
    &&& f.tx.done == tx_target(tx, Transition::Done)
    &&& f.move_direction is None
}

/// Makes the state an id names.
pub fn to_state(id: StateId, params: &Params, tx: &Vec<TxEntry>) -> (s: State)
    ensures
        state_made(id, *params, tx@, s),
{
    match id {
        StateId::Wander => State::Wander(WanderState::new(params, tx)),
        StateId::Chase => State::Chase(FollowState::new(params, tx)),
    }
}

/// A creature's states, one of each kind at most, and the one it is in.
pub struct StateMachine {
    pub wander: Option<WanderState>,
    pub chase: Option<FollowState>,
    pub current: StateId,
}

pub open spec fn has_state(m: StateMachine, s: StateId) -> bool {
    match s {
        StateId::Wander => m.wander is Some,
        StateId::Chase => m.chase is Some,
    }
}

/// Where a transition out of the current state leads.
pub open spec fn current_target(m: StateMachine, t: Transition) -> Option<StateId> {
    match m.current {
        StateId::Wander => m.wander.unwrap().tx.target(t),
        StateId::Chase => m.chase.unwrap().tx.target(t),
    }
}

/// The machine is in a state it has, every transition of its states leads to a state it
/// has, and the ranges its states draw from are not empty.
pub open spec fn machine_wf(m: StateMachine) -> bool {
    &&& has_state(m, m.current)
    &&& (m.wander matches Some(w) ==> wander_ranges_ok(w) && (forall|t: Transition| #[trigger] w.tx.target(t) matches Some(s) ==> has_state(m, s)))
    &&& (m.chase matches Some(f) ==> follow_config_ok(f) && (forall|t: Transition| #[trigger] f.tx.target(t) matches Some(s) ==> has_state(m, s)))
}

/// What a creature sees on an update: the players in its room and their names, each exit
/// with the players in the room behind it, and whether its two timers have run out.
pub struct Observation {
    pub players: Vec<EntityId>,
    pub names: Vec<String>,
    pub exits: Vec<(Direction, Vec<EntityId>)>,
    pub wander_timer_done: bool,
    pub follow_timer_done: bool,
}

pub open spec fn exit_directions(exits: Seq<(Direction, Vec<EntityId>)>) -> Seq<Direction> {
    exits.map_values(|x: (Direction, Vec<EntityId>)| x.0)
}

/// The transition the current state asks for.
pub open spec fn update_transition(m: StateMachine, obs: Observation) -> Option<Transition> {
    match m.current {
        StateId::Wander => wander_decision(m.wander.unwrap(), obs.players@.len() > 0),
        StateId::Chase => if sighting(m.chase.unwrap().target, obs.players@, obs.exits@) is Some {
            None
        } else {
            Some(Transition::Done)
        },
    }
}

/// The state the machine moves to on an update, if it moves.
pub open spec fn update_next(m: StateMachine, obs: Observation) -> Option<StateId> {
    match update_transition(m, obs) {
        Some(t) => current_target(m, t),
        None => None,
    }
}

/// What an update needs so that no state fails: the names match the players, the wander
/// count can grow, a chaser with no target sees nobody, and a chaser entered with no target
/// has someone to pick.
pub open spec fn update_ok(m: StateMachine, obs: Observation) -> bool {
    &&& machine_wf(m)
    &&& obs.names@.len() == obs.players@.len()
    &&& (m.wander matches Some(w) ==> w.current_wanders < u64::MAX)
    &&& (m.current == StateId::Chase ==> m.chase.unwrap().target is Some || nobody_around(obs.players@, obs.exits@))
    &&& (update_next(m, obs) == Some(StateId::Chase) && (m.current == StateId::Chase || m.chase.unwrap().target is None)
        ==> obs.players@.len() > 0)
}

/// A follow state after leaving it.
pub open spec fn left(f: FollowState) -> FollowState {
    FollowState { target: None, move_direction: None, ..f }
}

/// One update: the current state decides; where its transition leads somewhere, it is left
/// and the next state entered; then the state the machine is in acts. The effects are those
/// of deciding, entering and acting, in that order.
pub open spec fn update_rel(old: StateMachine, new: StateMachine, actor: EntityId, obs: Observation, e: Seq<Effect>) -> bool {
    let exits = exit_directions(obs.exits@);
    let names = strings_view(obs.names@);
    &&& new.current == match update_next(old, obs) {
        Some(s) => s,
        None => old.current,
    }
    &&& match old.current {
        StateId::Wander => {
            let w0 = old.wander.unwrap();
            match update_next(old, obs) {
                None => exists|w2: WanderState| #[trigger] wander_act(w0, w2, actor, obs.wander_timer_done, exits, e)
                    && new == (StateMachine { wander: Some(w2), ..old }),
                Some(StateId::Wander) => exists|w1: WanderState, w2: WanderState, e1: Seq<Effect>, e2: Seq<Effect>|
                    #[trigger] wander_enter(w0, w1, e1) && #[trigger] wander_act(w1, w2, actor, obs.wander_timer_done, exits, e2)
                    && e == e1 + e2 && new == (StateMachine { wander: Some(w2), ..old }),
                Some(StateId::Chase) => exists|c1: FollowState, c2: FollowState, e1: Seq<Effect>, e2: Seq<Effect>|
                    #[trigger] follow_enter(old.chase.unwrap(), c1, actor, obs.players@, names, e1)
                    && #[trigger] follow_act(c1, c2, actor, obs.follow_timer_done, e2)
                    && e == e1 + e2 && new == (StateMachine { chase: Some(c2), current: StateId::Chase, ..old }),
            }
        },
        StateId::Chase => exists|c1: FollowState, e0: Seq<Effect>|
            #[trigger] follow_decide(old.chase.unwrap(), c1, obs.players@, obs.exits@, update_transition(old, obs), e0) && {
            match update_next(old, obs) {
                None => exists|c2: FollowState, e2: Seq<Effect>| #[trigger] follow_act(c1, c2, actor, obs.follow_timer_done, e2)
                    && e == e0 + e2 && new == (StateMachine { chase: Some(c2), ..old }),
                Some(StateId::Wander) => exists|w1: WanderState, w2: WanderState, e1: Seq<Effect>, e2: Seq<Effect>|
                    #[trigger] wander_enter(old.wander.unwrap(), w1, e1) && #[trigger] wander_act(w1, w2, actor, obs.wander_timer_done, exits, e2)
                    && e == e0 + e1 + e2 && new == (StateMachine { wander: Some(w2), chase: Some(left(c1)), current: StateId::Wander }),
                Some(StateId::Chase) => exists|c2: FollowState, c3: FollowState, e1: Seq<Effect>, e2: Seq<Effect>|
                    #[trigger] follow_enter(left(c1), c2, actor, obs.players@, names, e1)
                    && #[trigger] follow_act(c2, c3, actor, obs.follow_timer_done, e2)
                    && e == e0 + e1 + e2 && new == (StateMachine { chase: Some(c3), ..old }),
            }
        },
    }
}

fn directions_of(exits: &Vec<(Direction, Vec<EntityId>)>) -> (v: Vec<Direction>)
    ensures
        v@ == exit_directions(exits@),
{
    let mut v: Vec<Direction> = Vec::new();
    let mut i: usize = 0;
    while i < exits.len()
        invariant
            i <= exits.len(),
            v@ == exit_directions(exits@.take(i as int)),
        decreases exits.len() - i,
    {
        v.push(exits[i].0);
        proof {
            assert(exit_directions(exits@.take(i + 1)) =~= exit_directions(exits@.take(i as int)).push(exits@[i as int].0));
        }
        i = i + 1;
    }
    assert(exits@.take(exits.len() as int) =~= exits@);
    v
}

impl StateMachine {
    /// Runs one update of the machine for the creature `actor`.
    pub fn on_update(&mut self, actor: EntityId, obs: &Observation) -> (e: Vec<Effect>)
        requires
            update_ok(*old(self), *obs),
        ensures
            update_rel(*old(self), *final(self), actor, *obs, e@),
            machine_wf(*final(self)),
    {
        let exits = directions_of(&obs.exits);
        let ghost names = strings_view(obs.names@);
        let ghost next = update_next(*self, *obs);
        match self.current {
            StateId::Wander => {
                let mut slot: Option<WanderState> = None;
                std::mem::swap(&mut slot, &mut self.wander);
                let mut w = slot.unwrap();
                let ghost w0 = w;
                let t = w.decide(obs.players.len() > 0);
                let n = match t {
                    Some(tr) => w.output_state(tr),
                    None => None,
                };
                assert(n == next);
                match n {
                    None => {
                        let e = w.act(actor, obs.wander_timer_done, &exits);
                        self.wander = Some(w);
                        proof {
                            assert(wander_act(w0, w, actor, obs.wander_timer_done, exit_directions(obs.exits@), e@));
                        }
                        e
                    },
                    Some(StateId::Wander) => {
                        let mut e1 = w.on_enter();
                        let ghost w1 = w;
                        let ghost s1 = e1@;
                        let mut e2 = w.act(actor, obs.wander_timer_done, &exits);
                        let ghost s2 = e2@;
                        self.wander = Some(w);
                        e1.append(&mut e2);
                        proof {
                            assert(wander_enter(w0, w1, s1));
                            assert(wander_act(w1, w, actor, obs.wander_timer_done, exit_directions(obs.exits@), s2));
                        }
                        e1
                    },
                    Some(StateId::Chase) => {
                        self.wander = Some(w);
                        self.current = StateId::Chase;
                        let mut cslot: Option<FollowState> = None;
                        std::mem::swap(&mut cslot, &mut self.chase);
                        let mut c = cslot.unwrap();
                        let ghost c0 = c;
                        let mut e1 = c.on_enter(actor, &obs.players, &obs.names);
                        let ghost c1 = c;
                        let ghost s1 = e1@;
                        let mut e2 = c.act(actor, obs.follow_timer_done);
                        let ghost s2 = e2@;
                        self.chase = Some(c);
                        e1.append(&mut e2);
                        proof {
                            assert(follow_enter(c0, c1, actor, obs.players@, names, s1));
                            assert(follow_act(c1, c, actor, obs.follow_timer_done, s2));
                        }
                        e1
                    },
                }
            },
            StateId::Chase => {
                let mut cslot: Option<FollowState> = None;
                std::mem::swap(&mut cslot, &mut self.chase);
                let mut c = cslot.unwrap();
                let ghost c0 = c;
                let (t, mut e0) = c.decide(&obs.players, &obs.exits);
                let ghost c1 = c;
                let ghost s0 = e0@;
                let n = match t {
                    Some(tr) => c.output_state(tr),
                    None => None,
                };
                assert(t == update_transition(*old(self), *obs));
                assert(n == next);
                match n {
                    None => {
                        let mut e2 = c.act(actor, obs.follow_timer_done);
                        let ghost s2 = e2@;
                        self.chase = Some(c);
                        e0.append(&mut e2);
                        proof {
                            assert(follow_decide(c0, c1, obs.players@, obs.exits@, update_transition(*old(self), *obs), s0));
                            assert(follow_act(c1, c, actor, obs.follow_timer_done, s2));
                        }
                        e0
                    },
                    Some(StateId::Wander) => {
                        c.on_exit();
                        self.chase = Some(c);
                        self.current = StateId::Wander;
                        let mut wslot: Option<WanderState> = None;
                        std::mem::swap(&mut wslot, &mut self.wander);
                        let mut w = wslot.unwrap();
                        let ghost w0 = w;
                        let mut e1 = w.on_enter();
                        let ghost w1 = w;
                        let ghost s1 = e1@;
                        let mut e2 = w.act(actor, obs.wander_timer_done, &exits);
                        let ghost s2 = e2@;
                        self.wander = Some(w);
                        e0.append(&mut e1);
                        e0.append(&mut e2);
                        proof {
                            assert(follow_decide(c0, c1, obs.players@, obs.exits@, update_transition(*old(self), *obs), s0));
                            assert(wander_enter(w0, w1, s1));
                            assert(wander_act(w1, w, actor, obs.wander_timer_done, exit_directions(obs.exits@), s2));
                            assert(e0@ == s0 + s1 + s2);
                        }
                        e0
                    },
                    Some(StateId::Chase) => {
                        c.on_exit();
                        let ghost cx = c;
                        let mut e1 = c.on_enter(actor, &obs.players, &obs.names);
                        let ghost c2 = c;
                        let ghost s1 = e1@;
                        let mut e2 = c.act(actor, obs.follow_timer_done);
                        let ghost s2 = e2@;
                        self.chase = Some(c);
                        e0.append(&mut e1);
                        e0.append(&mut e2);
                        proof {
                            assert(cx == left(c1));
                            assert(follow_decide(c0, c1, obs.players@, obs.exits@, update_transition(*old(self), *obs), s0));
                            assert(follow_enter(left(c1), c2, actor, obs.players@, names, s1));
                            assert(follow_act(c2, c, actor, obs.follow_timer_done, s2));
                            assert(e0@ == s0 + s1 + s2);
                        }
                        e0
                    },
                }
            },
        }
    }
}

/// The last configured entry for a state id.
pub open spec fn last_entry_for(states: Seq<(StateId, Params, Vec<TxEntry>)>, id: StateId) -> Option<int>
    decreases states.len(),
{
    if states.len() == 0 {
        None
    } else if states.last().0 == id {
        Some(states.len() - 1)
    } else {
        last_entry_for(states.drop_last(), id)
    }
}

proof fn lemma_last_entry_for_bounds(states: Seq<(StateId, Params, Vec<TxEntry>)>, id: StateId)
    ensures
        last_entry_for(states, id) matches Some(i) ==> 0 <= i < states.len() && states[i].0 == id,
        states.len() > 0 && states[0].0 == id ==> last_entry_for(states, id) is Some,
    decreases states.len(),
{
    if states.len() > 0 {
        lemma_last_entry_for_bounds(states.drop_last(), id);
        if states.len() > 1 {
            assert(states.drop_last()[0] == states[0]);
        }
    }
}

/// The machine made of a list of configured states: it starts in the first, and for each
/// id holds the state made from the last entry for it.
pub open spec fn built_from(states: Seq<(StateId, Params, Vec<TxEntry>)>, m: StateMachine) -> bool {
    &&& m.current == states[0].0
    &&& match last_entry_for(states, StateId::Wander) {
        Some(i) => m.wander matches Some(w) && wander_made(states[i].1, states[i].2@, w),
        None => m.wander is None,
    }
    &&& match last_entry_for(states, StateId::Chase) {
        Some(i) => m.chase matches Some(f) && follow_made(states[i].1, states[i].2@, f),
        None => m.chase is None,
    }
}

/// Collects the states of a machine before it is built.
pub struct StateMachineBuilder {
    pub states: Vec<(StateId, Params, Vec<TxEntry>)>,
}

impl StateMachineBuilder {
    pub fn new() -> (b: StateMachineBuilder)
        ensures
            b.states@.len() == 0,
    {
        StateMachineBuilder { states: Vec::new() }
    }

    pub fn add_state(&mut self, id: &StateId, params: Params, tx: Vec<TxEntry>)
        ensures
            final(self).states@ == old(self).states@.push((*id, params, tx)),
    {
        self.states.push((*id, params, tx));
    }

    /// The machine starts in the first state added; where an id was added twice, the
    /// later one counts.
    pub fn build(self) -> (r: Result<StateMachine, String>)
        ensures
            self.states@.len() == 0 ==> (r matches Err(e)
                && e@ == "You must configure states for all state machines. No states were found."@),
            self.states@.len() > 0 ==> (r matches Ok(m) && built_from(self.states@, m)),
    {
        let ghost all = self.states@;
        let mut wander: Option<WanderState> = None;
        let mut chase: Option<FollowState> = None;
        let mut first: Option<StateId> = None;
        let mut i: usize = 0;
        while i < self.states.len()
            invariant
                i <= self.states.len(),
                all == self.states@,
                i == 0 <==> first is None,
                i > 0 ==> first == Some(all[0].0),
                match last_entry_for(all.take(i as int), StateId::Wander) {
                    Some(k) => wander matches Some(w) && wander_made(all[k].1, all[k].2@, w),
                    None => wander is None,
                },
                match last_entry_for(all.take(i as int), StateId::Chase) {
                    Some(k) => chase matches Some(f) && follow_made(all[k].1, all[k].2@, f),
                    None => chase is None,
                },
            decreases self.states.len() - i,
        {
            let id = self.states[i].0;
            if first.is_none() {
                first = Some(id);
            }
            proof {
                let t = all.take(i + 1);
                assert(t.drop_last() =~= all.take(i as int));
                assert(t.last() == all[i as int]);
                lemma_last_entry_for_bounds(all.take(i as int), StateId::Wander);
                lemma_last_entry_for_bounds(all.take(i as int), StateId::Chase);
                if let Some(k) = last_entry_for(all.take(i as int), StateId::Wander) {
                    assert(all.take(i as int)[k] == all[k]);
                }
                if let Some(k) = last_entry_for(all.take(i as int), StateId::Chase) {
                    assert(all.take(i as int)[k] == all[k]);
                }
            }
            match to_state(id, &self.states[i].1, &self.states[i].2) {
                State::Wander(w) => {
                    wander = Some(w);
                },
                State::Chase(f) => {
                    chase = Some(f);
                },
            }
            i = i + 1;
        }
        assert(all.take(all.len() as int) =~= all);
        match first {
            Some(current) => Ok(StateMachine { wander, chase, current }),
            None => Err(owned("You must configure states for all state machines. No states were found.")),
        }
    }
}

/// The machines of a creature, the one on top running.
pub struct StateMachines {
    pub stack: Vec<StateMachine>,
}

impl Default for StateMachines {
    fn default() -> (s: StateMachines)
        ensures
            s.stack@.len() == 0,
    {
        StateMachines { stack: Vec::new() }
    }
}

impl StateMachines {
    pub fn new(fsm: StateMachine) -> (s: StateMachines)
        ensures
            s.stack@ == seq![fsm],
    {
        let mut stack: Vec<StateMachine> = Vec::new();
        stack.push(fsm);
        StateMachines { stack }
    }

    pub fn push(&mut self, fsm: StateMachine)
        ensures
            final(self).stack@ == old(self).stack@.push(fsm),
    {
        self.stack.push(fsm);
    }

    pub fn pop(&mut self) -> (r: Option<StateMachine>)
        ensures
            old(self).stack@.len() == 0 ==> r is None && final(self).stack@ == old(self).stack@,
            old(self).stack@.len() > 0 ==> r == Some(old(self).stack@.last())
                && final(self).stack@ == old(self).stack@.drop_last(),
    {
        self.stack.pop()
    }
}

} // verus!

verus! {

/// Replacing a pattern by itself leaves a text as it was.
pub proof fn replacing_by_itself_changes_nothing(s: Seq<char>, pat: Seq<char>)
    ensures
        replace_all(s, pat, pat) == s,
    decreases s.len(),
{
    if pat.len() == 0 || s.len() < pat.len() {
    } else if s.subrange(0, pat.len() as int) == pat {
        replacing_by_itself_changes_nothing(s.subrange(pat.len() as int, s.len() as int), pat);
        assert(pat + s.subrange(pat.len() as int, s.len() as int) =~= s);
    } else {
        replacing_by_itself_changes_nothing(s.drop_first(), pat);
        assert(seq![s[0]] + s.drop_first() =~= s);
    }
}

/// A text in which the pattern never occurs is left as it was.
pub proof fn text_without_the_pattern_is_kept(s: Seq<char>, pat: Seq<char>, rep: Seq<char>)
    requires
        forall|i: int| 0 <= i && i + pat.len() <= s.len() ==> #[trigger] s.subrange(i, i + pat.len()) != pat,
    ensures
        replace_all(s, pat, rep) == s,
    decreases s.len(),
{
    if pat.len() == 0 || s.len() < pat.len() {
    } else {
        assert(s.subrange(0, 0 + pat.len() as int) != pat);
        let t = s.drop_first();
        assert forall|i: int| 0 <= i && i + pat.len() <= t.len() implies #[trigger] t.subrange(i, i + pat.len()) != pat by {
            assert(t.subrange(i, i + pat.len()) =~= s.subrange(i + 1, i + 1 + pat.len()));
        }
        text_without_the_pattern_is_kept(t, pat, rep);
        assert(seq![s[0]] + t =~= s);
    }
}

} // verus!
