use vstd::prelude::*;
use std::collections::HashMap;
use crate::client::{outputs_view, ClientEvent, ClientId, ClientOutput, EntityId, OutputView, SendPrompt};
use crate::login::{
    apply_spec, empty_client_state, event_transition, keep_going_spec, login_process_view, outcome_view, step_view,
    transition_from_event, ClientLoginFsm, ClientStateView, Outcome, PlayerAction, Request, RequestView, StateId, Step, StepView,
    Transition,
};
use crate::update_password::{
    apply_spec as pw_apply, keep_going_spec as pw_keep_going, pw_outcome_view, pw_process_view, PasswordOutcome,
    PasswordStep, PwStepView, UpdateDataView, UpdatePasswordFsm,
};

verus! {

broadcast use vstd::std_specs::hash::group_hash_axioms;

/// What one update of a state machine leads to.
pub enum UpdateResult {
    /// Start the password update machine for the named player on top of the stack.
    PushFsm(String),
    /// Leave the machine on top of the stack.
    PopFsm,
    /// Update again right away.
    Continue,
    /// Wait for the next event.
    Stop,
}

/// What handling an event gives the engine: lines for the client, game actions, and
/// work to do outside the state machines, whose answers come back as events.
pub struct ClientReply {
    pub output: Vec<ClientOutput>,
    pub actions: Vec<PlayerAction>,
    pub requests: Vec<Request>,
}

/// Whether the client is asked for secret input after some output: the prompt of the
/// last output decides, and without output it stays as it was.
pub open spec fn sensitive_after(outs: Seq<OutputView>, before: bool) -> bool {
    if outs.len() == 0 {
        before
    } else {
        outs.last().prompt == SendPrompt::Sensitive
    }
}

fn append_outputs(out: &mut Vec<ClientOutput>, more: Vec<ClientOutput>)
    ensures
        outputs_view(final(out)@) == outputs_view(old(out)@) + outputs_view(more@),
{
    let mut rest = more;
    let ghost all = outputs_view(rest@);
    let ghost start = outputs_view(out@);
    let total = rest.len();
    let mut i: usize = 0;
    while rest.len() > 0
        invariant
            all.len() == total,
            i + rest.len() == total,
            outputs_view(rest@) == all.skip(i as int),
            outputs_view(out@) == start + all.take(i as int),
        decreases rest.len(),
    {
        let ghost before = rest@;
        let ghost ob = out@;
        let o = rest.remove(0);
        let ghost ov = o@;
        out.push(o);
        proof {
            assert(ov == all[i as int]) by {
                assert(outputs_view(before)[0] == all.skip(i as int)[0]);
            }
            assert(outputs_view(rest@) =~= all.skip(i + 1)) by {
                assert forall|k: int| 0 <= k < rest.len() implies outputs_view(rest@)[k] == all.skip(i + 1)[k] by {
                    assert(rest@[k] == before[k + 1]);
                    assert(outputs_view(before)[k + 1] == all.skip(i as int)[k + 1]);
                }
            }
            assert(outputs_view(out@) =~= outputs_view(ob).push(ov));
            assert(all.take(i + 1) =~= all.take(i as int).push(all[i as int]));
        }
        i = i + 1;
    }
    assert(all.take(total as int) =~= all);
}

fn append_actions(out: &mut Vec<PlayerAction>, more: Vec<PlayerAction>)
    ensures
        final(out)@ == old(out)@ + more@,
{
    let mut i: usize = 0;
    while i < more.len()
        invariant
            i <= more.len(),
            out@ == old(out)@ + more@.take(i as int),
        decreases more.len() - i,
    {
        out.push(more[i]);
        assert(more@.take(i + 1) =~= more@.take(i as int).push(more@[i as int]));
        i = i + 1;
    }
    assert(more@.take(more.len() as int) =~= more@);
}

/// Applies a login machine transition and says whether to update again.
fn login_transition(fsm: &mut ClientLoginFsm, tx: Transition, reply: &mut ClientReply) -> (r: UpdateResult)
    requires
        old(fsm).wf(),
    ensures
        final(fsm).wf(),
        final(reply).requests@ == old(reply).requests@,
        final(reply).actions@ == old(reply).actions@,
        outputs_view(final(reply).output@) == outputs_view(old(reply).output@)
            + apply_spec(old(fsm).state(), old(fsm).data_view(), tx).2,
        final(fsm).state() == apply_spec(old(fsm).state(), old(fsm).data_view(), tx).0,
        final(fsm).data_view() == apply_spec(old(fsm).state(), old(fsm).data_view(), tx).1,
        r is Continue || r is Stop,
        (r is Continue) == keep_going_spec(final(fsm).state()),
{
    fsm.apply(tx, &mut reply.output);
    if fsm.keep_going() {
        UpdateResult::Continue
    } else {
        UpdateResult::Stop
    }
}

/// Acts on what a login state's processing led to.
fn login_outcome(fsm: &mut ClientLoginFsm, o: Outcome, reply: &mut ClientReply) -> (r: UpdateResult)
    requires
        old(fsm).wf(),
    ensures
        final(fsm).wf(),
        ({
            let (outs, acts, step) = outcome_view(o);
            let s = old(fsm).state();
            let d = old(fsm).data_view();
            let base = reply_view(*old(reply));
            match step {
                StepView::Wait => final(fsm).state() == s && final(fsm).data_view() == d
                    && reply_view(*final(reply)) == join_reply(base, ReplyView { output: outs, actions: acts, requests: seq![] })
                    && result_view(r) == go_on(keep_going_spec(s)),
                StepView::Transition(tx) => {
                    let (s1, d1, more) = apply_spec(s, d, tx);
                    final(fsm).state() == s1 && final(fsm).data_view() == d1
                    && reply_view(*final(reply)) == join_reply(base, ReplyView { output: outs + more, actions: acts, requests: seq![] })
                    && result_view(r) == go_on(keep_going_spec(s1))
                },
                StepView::PushPasswordFsm(n) => final(fsm).state() == s && final(fsm).data_view() == d
                    && reply_view(*final(reply)) == join_reply(base, ReplyView { output: outs, actions: acts, requests: seq![] })
                    && result_view(r) == ResultView::PushFsm(n),
                StepView::PopFsm => final(fsm).state() == s && final(fsm).data_view() == d
                    && reply_view(*final(reply)) == join_reply(base, ReplyView { output: outs, actions: acts, requests: seq![] })
                    && result_view(r) == ResultView::PopFsm,
                StepView::Request(q) => final(fsm).state() == s && final(fsm).data_view() == d
                    && reply_view(*final(reply)) == join_reply(base, ReplyView { output: outs, actions: acts, requests: seq![q] })
                    && result_view(r) == ResultView::Stop,
            }
        }),
{
    let ghost og = o;
    let Outcome { output, actions, step } = o;
    append_outputs(&mut reply.output, output);
    append_actions(&mut reply.actions, actions);
    proof {
        assert(requests_view(reply.requests@) =~= requests_view(old(reply).requests@) + Seq::<RequestView>::empty());
        assert(reply_view(*reply) =~= join_reply(reply_view(*old(reply)),
            ReplyView { output: outcome_view(og).0, actions: outcome_view(og).1, requests: seq![] }));
    }
    match step {
        Step::Wait => if fsm.keep_going() {
            UpdateResult::Continue
        } else {
            UpdateResult::Stop
        },
        Step::Transition(tx) => login_transition(fsm, tx, reply),
        Step::PushPasswordFsm(name) => UpdateResult::PushFsm(name),
        Step::PopFsm => UpdateResult::PopFsm,
        Step::Request(q) => {
            let ghost before = reply.requests@;
            let ghost qv = q@;
            reply.requests.push(q);
            proof {
                requests_push(before, reply.requests@.last());
                assert(requests_view(reply.requests@) =~= requests_view(old(reply).requests@) + seq![qv]);
            }
            UpdateResult::Stop
        },
    }
}

/// What one update of a machine leads to, as a plain value.
pub enum ResultView {
    PushFsm(Seq<char>),
    PopFsm,
    Continue,
    Stop,
}

pub open spec fn result_view(r: UpdateResult) -> ResultView {
    match r {
        UpdateResult::PushFsm(n) => ResultView::PushFsm(n@),
        UpdateResult::PopFsm => ResultView::PopFsm,
        UpdateResult::Continue => ResultView::Continue,
        UpdateResult::Stop => ResultView::Stop,
    }
}

/// Update again where the state runs on its own, else wait.
pub open spec fn go_on(keep: bool) -> ResultView {
    if keep { ResultView::Continue } else { ResultView::Stop }
}

/// A reply as plain values: the lines, the game actions and the outside requests.
#[verifier::ext_equal]
pub struct ReplyView {
    pub output: Seq<OutputView>,
    pub actions: Seq<PlayerAction>,
    pub requests: Seq<RequestView>,
}

pub open spec fn requests_view(q: Seq<Request>) -> Seq<RequestView> {
    q.map_values(|x: Request| x@)
}

pub open spec fn reply_view(r: ClientReply) -> ReplyView {
    ReplyView { output: outputs_view(r.output@), actions: r.actions@, requests: requests_view(r.requests@) }
}

pub open spec fn empty_reply() -> ReplyView {
    ReplyView { output: seq![], actions: seq![], requests: seq![] }
}

/// One reply followed by another.
pub open spec fn join_reply(a: ReplyView, b: ReplyView) -> ReplyView {
    ReplyView { output: a.output + b.output, actions: a.actions + b.actions, requests: a.requests + b.requests }
}

/// The input an event carries to a state: text for `Input`, none otherwise.
pub open spec fn event_input<'a>(event: ClientEvent<'a>) -> Option<&'a str> {
    match event {
        ClientEvent::Input(i) => Some(i),
        _ => None,
    }
}

/// What one update of the password update machine does with an event, where the machine
/// takes it: its new state and data, its reply, and what comes next.
pub open spec fn pw_step(s: crate::update_password::StateId, d: UpdateDataView, e: ClientEvent)
    -> Option<(crate::update_password::StateId, UpdateDataView, ReplyView, ResultView)> {
    if e is Advance || e is Input {
        let (outs, step) = pw_process_view(s, d, event_input(e));
        match step {
            PwStepView::Wait => Some((s, d, ReplyView { output: outs, actions: seq![], requests: seq![] }, go_on(pw_keep_going(s)))),
            PwStepView::Transition(tx) => {
                let (s1, d1, more) = pw_apply(s, d, tx);
                Some((s1, d1, ReplyView { output: outs + more, actions: seq![], requests: seq![] }, go_on(pw_keep_going(s1))))
            },
            PwStepView::PopFsm => Some((s, d, ReplyView { output: outs, actions: seq![], requests: seq![] }, ResultView::PopFsm)),
            PwStepView::Request(q) => Some((s, d, ReplyView { output: outs, actions: seq![], requests: seq![q] }, ResultView::Stop)),
        }
    } else {
        match crate::update_password::event_transition(e) {
            Some(tx) => {
                let (s1, d1, more) = pw_apply(s, d, tx);
                Some((s1, d1, ReplyView { output: more, actions: seq![], requests: seq![] }, go_on(pw_keep_going(s1))))
            },
            None => None,
        }
    }
}

/// What one update of the login machine does with an event, where the machine takes it:
/// its new state and data, its reply, and what comes next.
pub open spec fn login_step(s: StateId, d: ClientStateView, e: ClientEvent)
    -> Option<(StateId, ClientStateView, ReplyView, ResultView)> {
    if e is Advance || e is Input {
        let (outs, acts, step) = login_process_view(s, d, event_input(e));
        match step {
            StepView::Wait => Some((s, d, ReplyView { output: outs, actions: acts, requests: seq![] }, go_on(keep_going_spec(s)))),
            StepView::Transition(tx) => {
                let (s1, d1, more) = apply_spec(s, d, tx);
                Some((s1, d1, ReplyView { output: outs + more, actions: acts, requests: seq![] }, go_on(keep_going_spec(s1))))
            },
            StepView::PushPasswordFsm(n) => Some((s, d, ReplyView { output: outs, actions: acts, requests: seq![] }, ResultView::PushFsm(n))),
            StepView::PopFsm => Some((s, d, ReplyView { output: outs, actions: acts, requests: seq![] }, ResultView::PopFsm)),
            StepView::Request(q) => Some((s, d, ReplyView { output: outs, actions: acts, requests: seq![q] }, ResultView::Stop)),
        }
    } else {
        match event_transition(e) {
            Some(tx) => {
                let (s1, d1, more) = apply_spec(s, d, tx);
                Some((s1, d1, ReplyView { output: more, actions: seq![], requests: seq![] }, go_on(keep_going_spec(s1))))
            },
            None => None,
        }
    }
}

/// One update of the login machine: input and advances are processed by the current
/// state, and the events the machine knows become transitions.
fn login_update(fsm: &mut ClientLoginFsm, event: ClientEvent, reply: &mut ClientReply) -> (r: Option<UpdateResult>)
    requires
        old(fsm).wf(),
    ensures
        final(fsm).wf(),
        match login_step(old(fsm).state(), old(fsm).data_view(), event) {
            Some((s1, d1, rep, res)) => {
                &&& final(fsm).state() == s1 && final(fsm).data_view() == d1
                &&& reply_view(*final(reply)) == join_reply(reply_view(*old(reply)), rep)
                &&& (r is Some && result_view(r->0) == res)
            },
            None => {
                &&& r is None
                &&& final(fsm).state() == old(fsm).state() && final(fsm).data_view() == old(fsm).data_view()
                &&& reply_view(*final(reply)) == reply_view(*old(reply))
            },
        },
{
    match event {
        ClientEvent::Advance => {
            let o = fsm.process(None);
            let r = login_outcome(fsm, o, reply);
            Some(r)
        },
        ClientEvent::Input(input) => {
            let o = fsm.process(Some(input));
            let r = login_outcome(fsm, o, reply);
            Some(r)
        },
        other => {
            let ghost st = fsm.state();
            let ghost dv = fsm.data_view();
            match transition_from_event(other) {
                Some(tx) => {
                    proof {
                        crate::login::disconnect_resets(st, dv);
                    }
                    let r = login_transition(fsm, tx, reply);
                    proof {
                        assert(reply.actions@ =~= old(reply).actions@ + Seq::<PlayerAction>::empty());
                        assert(requests_view(reply.requests@) =~= requests_view(old(reply).requests@) + Seq::<RequestView>::empty());
                    }
                    Some(r)
                },
                None => None,
            }
        },
    }
}

proof fn requests_push(q: Seq<Request>, x: Request)
    ensures
        requests_view(q.push(x)) == requests_view(q).push(x@),
{
    assert(requests_view(q.push(x)) =~= requests_view(q).push(x@));
}

fn password_outcome(fsm: &mut UpdatePasswordFsm, o: PasswordOutcome, reply: &mut ClientReply) -> (r: Option<UpdateResult>)
    ensures
        ({
            let (outs, step) = pw_outcome_view(o);
            let s = old(fsm).state();
            let d = old(fsm).data_view();
            match step {
                PwStepView::Wait => final(fsm).state() == s && final(fsm).data_view() == d
                    && reply_view(*final(reply)) == join_reply(reply_view(*old(reply)), ReplyView { output: outs, actions: seq![], requests: seq![] })
                    && (r is Some && result_view(r->0) == go_on(pw_keep_going(s))),
                PwStepView::Transition(tx) => {
                    let (s1, d1, more) = pw_apply(s, d, tx);
                    final(fsm).state() == s1 && final(fsm).data_view() == d1
                    && reply_view(*final(reply)) == join_reply(reply_view(*old(reply)), ReplyView { output: outs + more, actions: seq![], requests: seq![] })
                    && (r is Some && result_view(r->0) == go_on(pw_keep_going(s1)))
                },
                PwStepView::PopFsm => final(fsm).state() == s && final(fsm).data_view() == d
                    && reply_view(*final(reply)) == join_reply(reply_view(*old(reply)), ReplyView { output: outs, actions: seq![], requests: seq![] })
                    && (r is Some && result_view(r->0) == ResultView::PopFsm),
                PwStepView::Request(q) => final(fsm).state() == s && final(fsm).data_view() == d
                    && reply_view(*final(reply)) == join_reply(reply_view(*old(reply)), ReplyView { output: outs, actions: seq![], requests: seq![q] })
                    && (r is Some && result_view(r->0) == ResultView::Stop),
            }
        }),
{
    let ghost og = o;
    let PasswordOutcome { output, step } = o;
    append_outputs(&mut reply.output, output);
    proof {
        assert(reply.actions@ =~= old(reply).actions@ + Seq::<PlayerAction>::empty());
        assert(requests_view(reply.requests@) =~= requests_view(old(reply).requests@) + Seq::<RequestView>::empty());
        assert(reply_view(*reply) =~= join_reply(reply_view(*old(reply)),
            ReplyView { output: pw_outcome_view(og).0, actions: seq![], requests: seq![] }));
    }
    match step {
        PasswordStep::Wait => Some(if fsm.keep_going() {
            UpdateResult::Continue
        } else {
            UpdateResult::Stop
        }),
        PasswordStep::Transition(tx) => {
            fsm.apply(tx, &mut reply.output);
            Some(if fsm.keep_going() {
                UpdateResult::Continue
            } else {
                UpdateResult::Stop
            })
        },
        PasswordStep::PopFsm => Some(UpdateResult::PopFsm),
        PasswordStep::Request(q) => {
            let ghost before = reply.requests@;
            let ghost qv = q@;
            reply.requests.push(q);
            proof {
                requests_push(before, reply.requests@.last());
                assert(requests_view(reply.requests@) =~= requests_view(old(reply).requests@) + seq![qv]);
            }
            Some(UpdateResult::Stop)
        },
    }
}

/// One update of the password update machine: input and advances are processed by the
/// current state and the outcome acted on; the events the machine knows become
/// transitions; other events are left to the machine below (`None`).
fn password_update(fsm: &mut UpdatePasswordFsm, event: ClientEvent, reply: &mut ClientReply) -> (r: Option<UpdateResult>)
    ensures
        match pw_step(old(fsm).state(), old(fsm).data_view(), event) {
            Some((s1, d1, rep, res)) => {
                &&& final(fsm).state() == s1 && final(fsm).data_view() == d1
                &&& reply_view(*final(reply)) == join_reply(reply_view(*old(reply)), rep)
                &&& (r is Some && result_view(r->0) == res)
            },
            None => {
                &&& r is None
                &&& final(fsm).state() == old(fsm).state() && final(fsm).data_view() == old(fsm).data_view()
                &&& reply_view(*final(reply)) == reply_view(*old(reply))
            },
        },
{
    let o = match event {
        ClientEvent::Advance => fsm.process(None),
        ClientEvent::Input(input) => fsm.process(Some(input)),
        other => match crate::update_password::transition_from_event(other) {
            Some(tx) => {
                fsm.apply(tx, &mut reply.output);
                proof {
                    assert(reply.actions@ =~= old(reply).actions@ + Seq::<PlayerAction>::empty());
                    assert(requests_view(reply.requests@) =~= requests_view(old(reply).requests@) + Seq::<RequestView>::empty());
                }
                return Some(if fsm.keep_going() {
                    UpdateResult::Continue
                } else {
                    UpdateResult::Stop
                });
            },
            None => return None,
        },
    };
    password_outcome(fsm, o, reply)
}

fn copy_event<'a>(e: &ClientEvent<'a>) -> (r: ClientEvent<'a>)
    ensures
        r == *e,
{
    match e {
        ClientEvent::Advance => ClientEvent::Advance,
        ClientEvent::Disconnect => ClientEvent::Disconnect,
        ClientEvent::Input(s) => ClientEvent::Input(*s),
        ClientEvent::PasswordHash(h) => ClientEvent::PasswordHash(match h {
            Some(h) => Some(h.clone()),
            None => None,
        }),
        ClientEvent::PasswordVerification(v) => ClientEvent::PasswordVerification(*v),
        ClientEvent::Ready => ClientEvent::Ready,
    }
}

/// A connected client: its login machine, the machines stacked on it, and whether the
/// last prompt it was sent asks for secret input.
/// A client's machines as plain values: the login machine's state and data, and the
/// password update machines stacked on it, bottom first.
#[verifier::ext_equal]
pub struct ClientView {
    pub login: StateId,
    pub data: ClientStateView,
    pub stack: Seq<(crate::update_password::StateId, UpdateDataView)>,
}

/// The stack of password update machines as plain values.
pub open spec fn stack_view(v: Seq<UpdatePasswordFsm>) -> Seq<(crate::update_password::StateId, UpdateDataView)> {
    v.map_values(|f: UpdatePasswordFsm| (f.state(), f.data_view()))
}

/// A new password update machine for the named player.
pub open spec fn fresh_update(name: Seq<char>) -> (crate::update_password::StateId, UpdateDataView) {
    (crate::update_password::StateId::ChangePassword, UpdateDataView { username: name, pw_hash: None })
}

/// One update of a client: the event goes to the password update machine on top of the
/// stack where it takes it, else to the login machine; what that update leads to then
/// starts or leaves a password update machine. Gives the new machines, the reply, and
/// whether to stop updating.
#[verifier::opaque]
pub open spec fn client_once(c: ClientView, e: ClientEvent) -> (ClientView, ReplyView, bool) {
    let top = if c.stack.len() > 0 { pw_step(c.stack.last().0, c.stack.last().1, e) } else { None };
    let (c1, rep, res) = match top {
        Some((s1, d1, rep, res)) => (ClientView { stack: c.stack.drop_last().push((s1, d1)), ..c }, rep, Some(res)),
        None => match login_step(c.login, c.data, e) {
            Some((s1, d1, rep, res)) => (ClientView { login: s1, data: d1, ..c }, rep, Some(res)),
            None => (c, empty_reply(), None),
        },
    };
    match res {
        Some(ResultView::PushFsm(name)) => (ClientView { stack: c1.stack.push(fresh_update(name)), ..c1 }, rep, false),
        Some(ResultView::PopFsm) => (
            ClientView { stack: if c1.stack.len() > 0 { c1.stack.drop_last() } else { c1.stack }, ..c1 },
            rep,
            true,
        ),
        Some(ResultView::Continue) => (c1, rep, false),
        Some(ResultView::Stop) => (c1, rep, true),
        None => (c1, rep, false),
    }
}

/// Up to `n` updates of a client, the first with the event and the others with advances,
/// until one says to stop: the new machines and the whole reply.
pub open spec fn client_run(c: ClientView, e: ClientEvent, n: nat) -> (ClientView, ReplyView)
    decreases n,
{
    if n == 0 {
        (c, empty_reply())
    } else {
        let (c1, r1, done) = client_once(c, e);
        if done {
            (c1, r1)
        } else {
            let (c2, r2) = client_run(c1, ClientEvent::Advance, (n - 1) as nat);
            (c2, join_reply(r1, r2))
        }
    }
}

pub struct Client {
    root: ClientLoginFsm,
    fsms: Vec<UpdatePasswordFsm>,
    sensitive: bool,
}

impl Client {
    pub closed spec fn login_state(&self) -> StateId {
        self.root.state()
    }

    pub closed spec fn player_view(&self) -> Option<EntityId> {
        self.root.data_view().player
    }

    pub closed spec fn stacked(&self) -> nat {
        self.fsms@.len()
    }

    pub closed spec fn is_sensitive(&self) -> bool {
        self.sensitive
    }

    pub closed spec fn wf(&self) -> bool {
        self.root.wf()
    }

    /// The client's machines as plain values.
    pub closed spec fn machines(&self) -> ClientView {
        ClientView { login: self.root.state(), data: self.root.data_view(), stack: stack_view(self.fsms@) }
    }

    /// A client that has not finished connecting.
    pub fn new() -> (c: Client)
        ensures
            c.wf(),
            c.login_state() == StateId::NotConnected,
            c.player_view() is None,
            c.stacked() == 0,
            !c.is_sensitive(),
    {
        Client { root: ClientLoginFsm::new(), fsms: Vec::new(), sensitive: false }
    }

    pub fn player(&self) -> (p: Option<EntityId>)
        ensures
            p == self.player_view(),
    {
        self.root.player()
    }

    pub fn expecting_sensitive_input(&self) -> (b: bool)
        ensures
            b == self.is_sensitive(),
    {
        self.sensitive
    }

    /// One update of the machines with an event; says whether to stop updating.
    #[verifier::rlimit(40)]
    fn update_once(&mut self, current: ClientEvent, reply: &mut ClientReply) -> (done: bool)
        requires
            old(self).wf(),
        ensures
            final(self).wf(),
            final(self).is_sensitive() == old(self).is_sensitive(),
            ({
                let (c1, rep, dn) = client_once(old(self).machines(), current);
                &&& final(self).machines() == c1
                &&& reply_view(*final(reply)) == join_reply(reply_view(*old(reply)), rep)
                &&& done == dn
            }),
            current is Disconnect ==> done && final(self).login_state() == StateId::NotConnected
                && final(self).player_view() is None,
    {
        let ghost c0 = self.machines();
        let ghost cur = current;
        let mut done = false;
        proof {
            reveal(client_once);
        }
        let mut result: Option<UpdateResult> = None;
        let n = self.fsms.len();
        if n > 0 {
            let ghost before = self.fsms@;
            let mut top = self.fsms.pop().unwrap();
            assert(top == before.last());
            result = password_update(&mut top, copy_event(&current), reply);
            self.fsms.push(top);
            proof {
                assert(stack_view(self.fsms@) =~= stack_view(before).drop_last().push((top.state(), top.data_view())));
                assert(stack_view(before).last() == (before.last().state(), before.last().data_view()));
            }
        }
        let ghost mid_stack = stack_view(self.fsms@);
        if result.is_none() {
            result = login_update(&mut self.root, current, reply);
        }
        match result {
            Some(UpdateResult::PushFsm(name)) => {
                let ghost nv = name@;
                let ghost b = self.fsms@;
                self.fsms.push(UpdatePasswordFsm::new(name));
                proof {
                    assert(stack_view(self.fsms@) =~= stack_view(b).push(fresh_update(nv)));
                }
            },
            Some(UpdateResult::PopFsm) => {
                let ghost b = self.fsms@;
                self.fsms.pop();
                proof {
                    if b.len() > 0 {
                        assert(stack_view(self.fsms@) =~= stack_view(b).drop_last());
                    }
                }
                done = true;
            },
            Some(UpdateResult::Continue) => {},
            Some(UpdateResult::Stop) => {
                done = true;
            },
            None => {},
        }
        proof {
            if cur is Disconnect {
                crate::login::disconnect_resets(c0.login, c0.data);
            }
        }
        done
    }

    /// Handles an event: it goes to the machine on top of the stack that takes it, else
    /// to the login machine; then the machines advance, up to five updates in all, until
    /// one waits for the next event or a machine is left.
    pub fn process(&mut self, event: ClientEvent) -> (r: ClientReply)
        requires
            old(self).wf(),
        ensures
            final(self).wf(),
            (final(self).machines(), reply_view(r)) == client_run(old(self).machines(), event, 5),
            final(self).is_sensitive() == sensitive_after(outputs_view(r.output@), old(self).is_sensitive()),
            event is Disconnect ==> final(self).login_state() == StateId::NotConnected && final(self).player_view() is None,
    {
        let mut reply = ClientReply { output: Vec::new(), actions: Vec::new(), requests: Vec::new() };
        proof {
            assert(reply_view(reply) =~= empty_reply());
        }
        let ghost start = self.machines();
        let mut next = event;
        let mut count: u32 = 0;
        let mut done = false;
        while count < 5 && !done
            invariant
                self.wf(),
                self.is_sensitive() == old(self).is_sensitive(),
                start == old(self).machines(),
                count <= 5,
                count == 0 ==> !done && next == event,
                count > 0 ==> next is Advance,
                !done ==> ({
                    let (c, rest) = client_run(self.machines(), next, (5 - count) as nat);
                    client_run(start, event, 5) == (c, join_reply(reply_view(reply), rest))
                }),
                done ==> client_run(start, event, 5) == (self.machines(), reply_view(reply)),
                event is Disconnect && count > 0 ==> done && self.login_state() == StateId::NotConnected
                    && self.player_view() is None,
            decreases 5 - count,
        {
            let ghost c0 = self.machines();
            let ghost r0 = reply_view(reply);
            let ghost k = (5 - count) as nat;
            count = count + 1;
            let current = next;
            next = ClientEvent::Advance;
            let ghost cur = current;
            done = self.update_once(current, &mut reply);
            proof {
                let (c1, rep, dn) = client_once(c0, cur);
                let (cr, rr) = client_run(c1, ClientEvent::Advance, (k - 1) as nat);
                assert(join_reply(r0, join_reply(rep, rr)) =~= join_reply(join_reply(r0, rep), rr));
            }
        }
        proof {
            if !done {
                assert(count == 5);
                assert(join_reply(reply_view(reply), empty_reply()) =~= reply_view(reply));
            }
        }
        let n = reply.output.len();
        if n > 0 {
            self.sensitive = match reply.output[n - 1].prompt {
                SendPrompt::Sensitive => true,
                _ => false,
            };
        }
        reply
    }
}

/// The connected clients, and which client plays each player.
pub struct Clients {
    clients: HashMap<usize, Client>,
    by_player: HashMap<u64, usize>,
}

impl Clients {
    /// The ids of the connected clients.
    pub closed spec fn ids(&self) -> Set<usize> {
        self.clients@.dom()
    }

    /// The player of each connected client, where it has one.
    pub closed spec fn player_of(&self, id: usize) -> Option<EntityId> {
        self.clients@[id].player_view()
    }

    /// Which client plays each player, by the player's id bits.
    pub closed spec fn players(&self) -> Map<u64, usize> {
        self.by_player@
    }

    /// The machines of each connected client.
    pub closed spec fn machines_of(&self, id: usize) -> ClientView {
        self.clients@[id].machines()
    }

    pub closed spec fn wf(&self) -> bool {
        forall|id: usize| #[trigger] self.clients@.contains_key(id) ==> self.clients@[id].wf()
    }

    pub fn new() -> (c: Clients)
        ensures
            c.wf(),
            c.ids() == Set::<usize>::empty(),
            c.players() == Map::<u64, usize>::empty(),
    {
        let c = Clients { clients: HashMap::new(), by_player: HashMap::new() };
        assert(c.ids() =~= Set::<usize>::empty());
        c
    }

    /// Adds a client that has just connected.
    pub fn add(&mut self, client: ClientId)
        requires
            old(self).wf(),
        ensures
            final(self).wf(),
            final(self).ids() == old(self).ids().insert(client.0),
            final(self).player_of(client.0) is None,
            forall|id: usize| id != client.0 && #[trigger] old(self).ids().contains(id) ==> final(self).player_of(id) == old(self).player_of(id),
            final(self).players() == old(self).players(),
    {
        self.clients.insert(client.0, Client::new());
    }

    /// Records that a client plays a player, unless another client already does.
    pub fn init_player(&mut self, client: ClientId, player: EntityId)
        ensures
            final(self).wf() == old(self).wf(),
            final(self).ids() == old(self).ids(),
            forall|id: usize| #[trigger] old(self).ids().contains(id) ==> final(self).player_of(id) == old(self).player_of(id),
            forall|id: usize| #[trigger] old(self).ids().contains(id) ==> final(self).machines_of(id) == old(self).machines_of(id),
            old(self).players().contains_key(player.0) ==> final(self).players() == old(self).players(),
            !old(self).players().contains_key(player.0) ==> final(self).players() == old(self).players().insert(player.0, client.0),
    {
        if !self.by_player.contains_key(&player.0) {
            self.by_player.insert(player.0, client.0);
        }
    }

    pub fn get(&self, client: ClientId) -> (c: Option<&Client>)
        ensures
            self.ids().contains(client.0) ==> (c matches Some(x) && x.player_view() == self.player_of(client.0)),
            !self.ids().contains(client.0) ==> c is None,
    {
        self.clients.get(&client.0)
    }

    /// Removes a client, and the record of the player it plays.
    pub fn remove(&mut self, client: ClientId)
        requires
            old(self).wf(),
        ensures
            final(self).wf(),
            final(self).ids() == old(self).ids().remove(client.0),
            forall|id: usize| id != client.0 && #[trigger] old(self).ids().contains(id) ==> final(self).player_of(id) == old(self).player_of(id),
            final(self).players() == match (if old(self).ids().contains(client.0) {
                old(self).player_of(client.0)
            } else {
                None
            }) {
                Some(p) => old(self).players().remove(p.0),
                None => old(self).players(),
            },
    {
        let player = match self.clients.get(&client.0) {
            Some(c) => c.player(),
            None => None,
        };
        if let Some(p) = player {
            self.by_player.remove(&p.0);
        }
        self.clients.remove(&client.0);
    }

    /// The client that plays a player.
    pub fn by_player(&self, player: EntityId) -> (c: Option<&Client>)
        ensures
            match self.players().get(player.0) {
                Some(id) => if self.ids().contains(id) {
                    c matches Some(x) && x.player_view() == self.player_of(id)
                } else {
                    c is None
                },
                None => c is None,
            },
    {
        match self.by_player.get(&player.0) {
            Some(id) => self.clients.get(id),
            None => None,
        }
    }

    /// Runs an event through a client's machines; nothing happens for an unknown client.
    pub fn process(&mut self, client: ClientId, event: ClientEvent) -> (r: Option<ClientReply>)
        requires
            old(self).wf(),
        ensures
            final(self).wf(),
            final(self).ids() == old(self).ids(),
            final(self).players() == old(self).players(),
            r is Some <==> old(self).ids().contains(client.0),
            forall|id: usize| id != client.0 && #[trigger] old(self).ids().contains(id) ==> final(self).player_of(id) == old(self).player_of(id),
            forall|id: usize| id != client.0 && #[trigger] old(self).ids().contains(id) ==> final(self).machines_of(id) == old(self).machines_of(id),
            old(self).ids().contains(client.0) ==> (final(self).machines_of(client.0), reply_view(r->0))
                == client_run(old(self).machines_of(client.0), event, 5),
            old(self).ids().contains(client.0) ==> final(self).player_of(client.0) == final(self).machines_of(client.0).data.player,
            event is Disconnect && old(self).ids().contains(client.0) ==> final(self).player_of(client.0) is None,
    {
        match self.clients.remove(&client.0) {
            Some(mut c) => {
                let reply = c.process(event);
                self.clients.insert(client.0, c);
                proof {
                    assert(self.clients@.dom() =~= old(self).clients@.dom());
                }
                Some(reply)
            },
            None => None,
        }
    }
}


/// A message from a client's connection to the engine.
pub enum ClientMessage {
    Connect(ClientId),
    Disconnect(ClientId),
    Input(ClientId, String),
    PasswordHash(ClientId, Option<String>),
    PasswordVerification(ClientId, Option<bool>),
    Ready(ClientId),
}

impl ClientMessage {
    pub open spec fn id_of(&self) -> ClientId {
        match self {
            ClientMessage::Connect(id) => *id,
            ClientMessage::Disconnect(id) => *id,
            ClientMessage::Input(id, _) => *id,
            ClientMessage::PasswordHash(id, _) => *id,
            ClientMessage::PasswordVerification(id, _) => *id,
            ClientMessage::Ready(id) => *id,
        }
    }

    pub fn client_id(&self) -> (id: ClientId)
        ensures
            id == self.id_of(),
    {
        match self {
            ClientMessage::Connect(id) => *id,
            ClientMessage::Disconnect(id) => *id,
            ClientMessage::Input(id, _) => *id,
            ClientMessage::PasswordHash(id, _) => *id,
            ClientMessage::PasswordVerification(id, _) => *id,
            ClientMessage::Ready(id) => *id,
        }
    }
}

/// Whether an event is the one a message (other than a connection or disconnection)
/// brings to its client's machines.
pub open spec fn message_event(m: ClientMessage, ev: ClientEvent) -> bool {
    match m {
        ClientMessage::Input(_, text) => ev matches ClientEvent::Input(i) && i@ == text@,
        ClientMessage::PasswordHash(_, h) => ev == ClientEvent::PasswordHash(h),
        ClientMessage::PasswordVerification(_, v) => ev == ClientEvent::PasswordVerification(v),
        ClientMessage::Ready(_) => ev == ClientEvent::Ready,
        _ => false,
    }
}

/// Who plays what after a client that may have logged in is recorded: a player no other
/// client plays is recorded for it.
pub open spec fn recorded(players: Map<u64, usize>, id: usize, player: Option<EntityId>) -> Map<u64, usize> {
    match player {
        Some(p) => if players.contains_key(p.0) { players } else { players.insert(p.0, id) },
        None => players,
    }
}

/// What the engine does about a client message, besides updating the clients.
pub struct EngineStep {
    /// What the client's machines produced, where the client is known.
    pub reply: Option<ClientReply>,
    /// A player to take out of the world.
    pub despawn: Option<EntityId>,
    /// Whether the connection's end is to be reported to the server.
    pub disconnected: bool,
}

impl Clients {
    /// Handles a message from a client's connection: a connection adds a client, a
    /// disconnection takes its player out of the world and removes it, and every other
    /// message is an event for the client's machines; a client that has logged in is
    /// then recorded as playing its player.
    pub fn handle(&mut self, message: ClientMessage) -> (s: EngineStep)
        requires
            old(self).wf(),
        ensures
            final(self).wf(),
            message is Connect ==> final(self).ids() == old(self).ids().insert(message.id_of().0)
                && final(self).players() == old(self).players() && s.reply is None && s.despawn is None && !s.disconnected,
            message is Disconnect ==> final(self).ids() == old(self).ids().remove(message.id_of().0) && s.disconnected
                && s.despawn == (if old(self).ids().contains(message.id_of().0) {
                    old(self).player_of(message.id_of().0)
                } else {
                    None
                }),
            message is Disconnect ==> final(self).players() == old(self).players(),
            !(message is Connect) && !(message is Disconnect) ==> final(self).ids() == old(self).ids()
                && (s.reply is Some <==> old(self).ids().contains(message.id_of().0)) && s.despawn is None && !s.disconnected,
            !(message is Connect) && !(message is Disconnect) && !old(self).ids().contains(message.id_of().0) ==> {
                &&& final(self).players() == old(self).players()
                &&& forall|c: usize| #[trigger] old(self).ids().contains(c) ==> final(self).machines_of(c) == old(self).machines_of(c)
            },
            !(message is Connect) && !(message is Disconnect) && old(self).ids().contains(message.id_of().0) ==> {
                let id = message.id_of().0;
                &&& exists|ev: ClientEvent| #[trigger] message_event(message, ev)
                    && (final(self).machines_of(id), reply_view(s.reply->0)) == client_run(old(self).machines_of(id), ev, 5)
                &&& forall|c: usize| c != id && #[trigger] old(self).ids().contains(c) ==> final(self).machines_of(c) == old(self).machines_of(c)
                &&& final(self).players() == if message is Input || message is PasswordVerification {
                    recorded(old(self).players(), id, final(self).machines_of(id).data.player)
                } else {
                    old(self).players()
                }
            },
    {
        match message {
            ClientMessage::Connect(id) => {
                self.add(id);
                EngineStep { reply: None, despawn: None, disconnected: false }
            },
            ClientMessage::Disconnect(id) => {
                let player = match self.get(id) {
                    Some(c) => c.player(),
                    None => None,
                };
                let reply = self.process(id, ClientEvent::Disconnect);
                self.remove(id);
                EngineStep { reply, despawn: player, disconnected: true }
            },
            ClientMessage::Input(id, input) => {
                let text = input.as_str();
                let ghost ev = ClientEvent::Input(text);
                let reply = self.process(id, ClientEvent::Input(text));
                assert(message_event(message, ev));
                self.record_player(id);
                EngineStep { reply, despawn: None, disconnected: false }
            },
            ClientMessage::PasswordHash(id, hash) => {
                let ghost ev = ClientEvent::PasswordHash(hash);
                let reply = self.process(id, ClientEvent::PasswordHash(hash));
                assert(message_event(message, ev));
                EngineStep { reply, despawn: None, disconnected: false }
            },
            ClientMessage::PasswordVerification(id, verified) => {
                let ghost ev = ClientEvent::PasswordVerification(verified);
                let reply = self.process(id, ClientEvent::PasswordVerification(verified));
                assert(message_event(message, ev));
                self.record_player(id);
                EngineStep { reply, despawn: None, disconnected: false }
            },
            ClientMessage::Ready(id) => {
                let reply = self.process(id, ClientEvent::Ready);
                assert(message_event(message, ClientEvent::Ready));
                EngineStep { reply, despawn: None, disconnected: false }
            },
        }
    }

    /// Records the player of a client that has one.
    fn record_player(&mut self, id: ClientId)
        requires
            old(self).wf(),
        ensures
            final(self).wf(),
            final(self).ids() == old(self).ids(),
            forall|c: usize| #[trigger] old(self).ids().contains(c) ==> final(self).player_of(c) == old(self).player_of(c),
            forall|c: usize| #[trigger] old(self).ids().contains(c) ==> final(self).machines_of(c) == old(self).machines_of(c),
            final(self).players() == match (if old(self).ids().contains(id.0) { old(self).player_of(id.0) } else { None }) {
                Some(p) => if old(self).players().contains_key(p.0) {
                    old(self).players()
                } else {
                    old(self).players().insert(p.0, id.0)
                },
                None => old(self).players(),
            },
    {
        let player = match self.get(id) {
            Some(c) => c.player(),
            None => None,
        };
        if let Some(p) = player {
            self.init_player(id, p);
        }
    }
}

} // verus!
