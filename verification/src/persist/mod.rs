use vstd::prelude::*;
use crate::ids::PrototypeId;

pub mod object;
pub mod player;
pub mod room;
pub mod script;

verus! {

/// A value bound to a placeholder of a statement.
pub enum BindValue {
    Text(String),
    Int(i64),
    Bool(bool),
}

/// A bound value as plain data.
pub enum BindView {
    Text(Seq<char>),
    Int(i64),
    Bool(bool),
}

impl View for BindValue {
    type V = BindView;

    open spec fn view(&self) -> BindView {
        match self {
            BindValue::Text(s) => BindView::Text(s@),
            BindValue::Int(i) => BindView::Int(*i),
            BindValue::Bool(b) => BindView::Bool(*b),
        }
    }
}

/// One SQL statement with the values for its placeholders, in order.
pub struct Statement {
    pub sql: String,
    pub binds: Vec<BindValue>,
}

/// A statement as plain data.
pub struct StatementView {
    pub sql: Seq<char>,
    pub binds: Seq<BindView>,
}

pub open spec fn binds_view(b: Seq<BindValue>) -> Seq<BindView> {
    b.map_values(|v: BindValue| v@)
}

impl View for Statement {
    type V = StatementView;

    open spec fn view(&self) -> StatementView {
        StatementView { sql: self.sql@, binds: binds_view(self.binds@) }
    }
}

pub open spec fn statements_view(s: Seq<Statement>) -> Seq<StatementView> {
    s.map_values(|st: Statement| st@)
}

/// A statement of some SQL text and its bound values.
pub fn statement(sql: &str, binds: Vec<BindValue>) -> (st: Statement)
    ensures
        st@ == (StatementView { sql: sql@, binds: binds_view(binds@) }),
{
    Statement { sql: sql.to_owned(), binds }
}

pub fn one_bind(a: BindValue) -> (v: Vec<BindValue>)
    ensures
        binds_view(v@) == seq![a@],
{
    let ghost av = a@;
    let mut v: Vec<BindValue> = Vec::new();
    v.push(a);
    assert(binds_view(v@) =~= seq![av]);
    v
}

pub fn two_binds(a: BindValue, b: BindValue) -> (v: Vec<BindValue>)
    ensures
        binds_view(v@) == seq![a@, b@],
{
    let ghost av = a@;
    let ghost bv = b@;
    let mut v: Vec<BindValue> = Vec::new();
    v.push(a);
    v.push(b);
    assert(binds_view(v@) =~= seq![av, bv]);
    v
}

pub fn three_binds(a: BindValue, b: BindValue, c: BindValue) -> (v: Vec<BindValue>)
    ensures
        binds_view(v@) == seq![a@, b@, c@],
{
    let ghost av = a@;
    let ghost bv = b@;
    let ghost cv = c@;
    let mut v: Vec<BindValue> = Vec::new();
    v.push(a);
    v.push(b);
    v.push(c);
    assert(binds_view(v@) =~= seq![av, bv, cv]);
    v
}

pub fn four_binds(a: BindValue, b: BindValue, c: BindValue, d: BindValue) -> (v: Vec<BindValue>)
    ensures
        binds_view(v@) == seq![a@, b@, c@, d@],
{
    let ghost av = a@;
    let ghost bv = b@;
    let ghost cv = c@;
    let ghost dv = d@;
    let mut v: Vec<BindValue> = Vec::new();
    v.push(a);
    v.push(b);
    v.push(c);
    v.push(d);
    assert(binds_view(v@) =~= seq![av, bv, cv, dv]);
    v
}

/// Appends a statement to a list of statements.
pub fn push_statement(v: &mut Vec<Statement>, st: Statement)
    ensures
        statements_view(final(v)@) == statements_view(old(v)@).push(st@),
{
    let ghost sv = st@;
    v.push(st);
    assert(statements_view(v@) =~= statements_view(old(v)@).push(sv));
}

/// Sets up the store of pending changes.
#[derive(Debug, Copy, Clone, PartialEq, Eq, Structural)]
pub struct PersistPlugin {}

impl Default for PersistPlugin {
    fn default() -> (p: PersistPlugin)
        ensures
            p == (PersistPlugin {}),
    {
        PersistPlugin {}
    }
}

/// The statements of each change, in order.
pub open spec fn batches_view(b: Seq<Vec<Statement>>) -> Seq<Seq<StatementView>> {
    b.map_values(|u: Vec<Statement>| statements_view(u@))
}

/// The changes waiting to be stored, each as the statements it runs, and the prototypes
/// whose objects are to be reloaded.
pub struct Updates {
    updates: Vec<Vec<Statement>>,
    reloads: Vec<PrototypeId>,
}

impl Default for Updates {
    fn default() -> (u: Updates)
        ensures
            u.pending().len() == 0,
            u.pending_reloads().len() == 0,
    {
        Updates { updates: Vec::new(), reloads: Vec::new() }
    }
}

impl Updates {
    pub closed spec fn pending(&self) -> Seq<Seq<StatementView>> {
        batches_view(self.updates@)
    }

    pub closed spec fn pending_reloads(&self) -> Seq<PrototypeId> {
        self.reloads@
    }

    /// Queues a change.
    pub fn persist(&mut self, update: Vec<Statement>)
        ensures
            final(self).pending() == old(self).pending().push(statements_view(update@)),
            final(self).pending_reloads() == old(self).pending_reloads(),
    {
        let ghost before = self.updates@;
        let ghost u = statements_view(update@);
        self.updates.push(update);
        proof {
            before.lemma_push_map_commute(|b: Vec<Statement>| statements_view(b@), self.updates@.last());
        }
    }

    /// Queues a prototype to reload.
    pub fn reload(&mut self, prototype: PrototypeId)
        ensures
            final(self).pending_reloads() == old(self).pending_reloads().push(prototype),
            final(self).pending() == old(self).pending(),
    {
        self.reloads.push(prototype);
    }

    /// Hands out the queued changes, oldest first, and empties the queue.
    pub fn take_updates(&mut self) -> (v: Vec<Vec<Statement>>)
        ensures
            batches_view(v@) == old(self).pending(),
            final(self).pending().len() == 0,
            final(self).pending_reloads() == old(self).pending_reloads(),
    {
        let mut updates: Vec<Vec<Statement>> = Vec::new();
        std::mem::swap(&mut self.updates, &mut updates);
        updates
    }

    /// Hands out the queued reloads, oldest first, and empties that queue.
    pub fn take_reloads(&mut self) -> (v: Vec<PrototypeId>)
        ensures
            v@ == old(self).pending_reloads(),
            final(self).pending_reloads().len() == 0,
            final(self).pending() == old(self).pending(),
    {
        let mut reloads: Vec<PrototypeId> = Vec::new();
        std::mem::swap(&mut self.reloads, &mut reloads);
        reloads
    }
}

/// The statements of a list of changes, run one change after another.
pub open spec fn group_statements(b: Seq<Seq<StatementView>>) -> Seq<StatementView>
    decreases b.len(),
{
    if b.len() == 0 {
        seq![]
    } else {
        group_statements(b.drop_last()) + b.last()
    }
}

/// Changes that are stored together, in order.
pub struct UpdateGroup {
    list: Vec<Vec<Statement>>,
}

impl UpdateGroup {
    pub closed spec fn changes(&self) -> Seq<Seq<StatementView>> {
        batches_view(self.list@)
    }

    pub fn new(list: Vec<Vec<Statement>>) -> (g: Box<UpdateGroup>)
        ensures
            g.changes() == batches_view(list@),
    {
        Box::new(UpdateGroup { list })
    }

    pub fn append(&mut self, update: Vec<Statement>)
        ensures
            final(self).changes() == old(self).changes().push(statements_view(update@)),
    {
        let ghost before = self.list@;
        self.list.push(update);
        proof {
            before.lemma_push_map_commute(|b: Vec<Statement>| statements_view(b@), self.list@.last());
        }
    }

    /// Every statement of every change, in order.
    pub fn statements(&self) -> (v: Vec<Statement>)
        ensures
            statements_view(v@) == group_statements(self.changes()),
    {
        let mut v: Vec<Statement> = Vec::new();
        let mut i: usize = 0;
        while i < self.list.len()
            invariant
                i <= self.list.len(),
                statements_view(v@) == group_statements(batches_view(self.list@).take(i as int)),
            decreases self.list.len() - i,
        {
            let ghost before = statements_view(v@);
            let batch = &self.list[i];
            let mut j: usize = 0;
            while j < batch.len()
                invariant
                    j <= batch.len(),
                    statements_view(v@) == before + statements_view(batch@).take(j as int),
                decreases batch.len() - j,
            {
                let st = &batch[j];
                let copy = statement(st.sql.as_str(), copy_binds(&st.binds));
                push_statement(&mut v, copy);
                proof {
                    assert(statements_view(batch@).take(j + 1) =~= statements_view(batch@).take(j as int).push(batch@[j as int]@));
                }
                j = j + 1;
            }
            proof {
                assert(statements_view(batch@).take(batch.len() as int) =~= statements_view(batch@));
                let t = batches_view(self.list@).take(i + 1);
                assert(t.drop_last() =~= batches_view(self.list@).take(i as int));
                assert(t.last() == statements_view(batch@));
            }
            i = i + 1;
        }
        assert(batches_view(self.list@).take(self.list.len() as int) =~= batches_view(self.list@));
        v
    }
}

fn copy_binds(b: &Vec<BindValue>) -> (r: Vec<BindValue>)
    ensures
        binds_view(r@) == binds_view(b@),
{
    let mut r: Vec<BindValue> = Vec::new();
    let mut i: usize = 0;
    while i < b.len()
        invariant
            i <= b.len(),
            binds_view(r@) == binds_view(b@).take(i as int),
        decreases b.len() - i,
    {
        let ghost before = r@;
        let c = match &b[i] {
            BindValue::Text(s) => BindValue::Text(s.clone()),
            BindValue::Int(x) => BindValue::Int(*x),
            BindValue::Bool(x) => BindValue::Bool(*x),
        };
        r.push(c);
        proof {
            before.lemma_push_map_commute(|v: BindValue| v@, c);
            assert(binds_view(b@).take(i + 1) =~= binds_view(b@).take(i as int).push(b@[i as int]@));
        }
        i = i + 1;
    }
    assert(binds_view(b@).take(b.len() as int) =~= binds_view(b@));
    r
}

} // verus!
