use vstd::prelude::*;
use crate::client::{one_line, outputs_view, owned, push_output, three_lines, ClientEvent, ClientOutput, OutputView, SendPrompt};
use crate::engine::verify_len;
use crate::login::{line, Request, RequestView};

verus! {

pub open spec fn update_error() -> Seq<char> {
    "|Red1|Failed to update password.|-|"@
}

/// What moves the password update machine.
#[derive(Debug, Clone)]
pub enum Transition {
    Ready,
    VerifiedPassword,
    VerificationFailed,
    EnteredPassword(String),
    HashFailed,
}

#[derive(Debug, Copy, Clone, PartialEq, Eq, Structural)]
pub enum StateId {
    ChangePassword,
    VerifyPassword,
    EnterPassword,
    ConfirmPassword,
    UpdatePassword,
    FailPassword,
}

/// The player whose password changes, and the hash of the new password once entered.
pub struct UpdatePasswordData {
    pub username: String,
    pub pw_hash: Option<String>,
}

pub struct UpdateDataView {
    pub username: Seq<char>,
    pub pw_hash: Option<Seq<char>>,
}

impl View for UpdatePasswordData {
    type V = UpdateDataView;

    open spec fn view(&self) -> UpdateDataView {
        UpdateDataView { username: self.username@, pw_hash: crate::login::opt_view(self.pw_hash) }
    }
}

/// An entered password records its hash; nothing else changes the data.
pub open spec fn update_spec(d: UpdateDataView, tx: Transition) -> UpdateDataView {
    match tx {
        Transition::EnteredPassword(hash) => UpdateDataView { pw_hash: Some(hash@), ..d },
        _ => d,
    }
}

impl UpdatePasswordData {
    pub fn update(&mut self, tx: &Transition)
        ensures
            final(self)@ == update_spec(old(self)@, *tx),
    {
        if let Transition::EnteredPassword(hash) = tx {
            self.pw_hash = Some(owned(hash.as_str()));
        }
    }
}

/// The transition a client event stands for: a password hash or its failure, or a
/// verification result.
pub open spec fn event_transition(event: ClientEvent) -> Option<Transition> {
    match event {
        ClientEvent::PasswordHash(Some(hash)) => Some(Transition::EnteredPassword(hash)),
        ClientEvent::PasswordHash(None) => Some(Transition::HashFailed),
        ClientEvent::PasswordVerification(Some(true)) => Some(Transition::VerifiedPassword),
        ClientEvent::PasswordVerification(_) => Some(Transition::VerificationFailed),
        _ => None,
    }
}

pub fn transition_from_event(event: ClientEvent) -> (r: Option<Transition>)
    ensures
        r == event_transition(event),
{
    match event {
        ClientEvent::PasswordHash(hash) => match hash {
            Some(hash) => Some(Transition::EnteredPassword(hash)),
            None => Some(Transition::HashFailed),
        },
        ClientEvent::PasswordVerification(verified) => match verified {
            Some(true) => Some(Transition::VerifiedPassword),
            _ => Some(Transition::VerificationFailed),
        },
        _ => None,
    }
}

pub open spec fn output_state_spec(state: StateId, tx: Transition) -> Option<StateId> {
    match (state, tx) {
        (StateId::ChangePassword, Transition::Ready) => Some(StateId::VerifyPassword),
        (StateId::VerifyPassword, Transition::VerifiedPassword) => Some(StateId::EnterPassword),
        (StateId::VerifyPassword, Transition::VerificationFailed) => Some(StateId::FailPassword),
        (StateId::EnterPassword, Transition::EnteredPassword(_)) => Some(StateId::ConfirmPassword),
        (StateId::EnterPassword, Transition::HashFailed) => Some(StateId::FailPassword),
        (StateId::ConfirmPassword, Transition::VerifiedPassword) => Some(StateId::UpdatePassword),
        (StateId::ConfirmPassword, Transition::VerificationFailed) => Some(StateId::FailPassword),
        _ => None,
    }
}

pub open spec fn keep_going_spec(state: StateId) -> bool {
    match state {
        StateId::ChangePassword | StateId::UpdatePassword | StateId::FailPassword => true,
        _ => false,
    }
}

pub open spec fn enter_outputs(state: StateId) -> Seq<OutputView> {
    match state {
        StateId::VerifyPassword => seq![
            line(SendPrompt::Sensitive, "|SteelBlue3|Current password?|-|"@),
        ],
        StateId::EnterPassword => seq![
            line(SendPrompt::NoPrompt, "|SteelBlue3|Password verified.|-|"@),
            line(SendPrompt::Sensitive, "|SteelBlue3|New password?|-|"@),
        ],
        StateId::ConfirmPassword => seq![
            line(SendPrompt::NoPrompt, "|SteelBlue3|Password accepted.|-|"@),
            line(SendPrompt::Sensitive, "|SteelBlue3|Confirm?|-|"@),
        ],
        StateId::FailPassword => seq![line(SendPrompt::Prompt, update_error())],
        _ => seq![],
    }
}

/// Asking for the current password and for a new one forget any entered hash.
pub open spec fn enter_data(state: StateId, d: UpdateDataView) -> UpdateDataView {
    match state {
        StateId::VerifyPassword | StateId::EnterPassword => UpdateDataView { pw_hash: None, ..d },
        _ => d,
    }
}

pub fn output_state(state: StateId, tx: &Transition) -> (r: Option<StateId>)
    ensures
        r == output_state_spec(state, *tx),
{
    match state {
        StateId::ChangePassword => ChangePasswordState {}.output_state(tx),
        StateId::VerifyPassword => VerifyPasswordState {}.output_state(tx),
        StateId::EnterPassword => EnterPasswordState {}.output_state(tx),
        StateId::ConfirmPassword => ConfirmPasswordState {}.output_state(tx),
        StateId::UpdatePassword => UpdatePasswordState {}.output_state(tx),
        StateId::FailPassword => FailPasswordState {}.output_state(tx),
    }
}

pub fn on_enter(state: StateId, data: &mut UpdatePasswordData, out: &mut Vec<ClientOutput>)
    ensures
        final(data)@ == enter_data(state, old(data)@),
        outputs_view(final(out)@) == outputs_view(old(out)@) + enter_outputs(state),
{
    let ghost before = outputs_view(out@);
    match state {
        StateId::VerifyPassword => {
            data.pw_hash = None;
            push_output(out, one_line(SendPrompt::Sensitive, "|SteelBlue3|Current password?|-|"));
        },
        StateId::EnterPassword => {
            data.pw_hash = None;
            push_output(out, one_line(SendPrompt::NoPrompt, "|SteelBlue3|Password verified.|-|"));
            push_output(out, one_line(SendPrompt::Sensitive, "|SteelBlue3|New password?|-|"));
        },
        StateId::ConfirmPassword => {
            push_output(out, one_line(SendPrompt::NoPrompt, "|SteelBlue3|Password accepted.|-|"));
            push_output(out, one_line(SendPrompt::Sensitive, "|SteelBlue3|Confirm?|-|"));
        },
        StateId::FailPassword => {
            push_output(out, one_line(SendPrompt::Prompt, "|Red1|Failed to update password.|-|"));
        },
        _ => {},
    }
    assert(outputs_view(out@) =~= before + enter_outputs(state));
}

/// What processing a state of the password update leads to.
pub enum PasswordStep {
    Wait,
    Transition(Transition),
    PopFsm,
    Request(Request),
}

pub struct PasswordOutcome {
    pub output: Vec<ClientOutput>,
    pub step: PasswordStep,
}

pub open spec fn waits(o: PasswordOutcome) -> bool {
    outputs_view(o.output@).len() == 0 && o.step is Wait
}

pub open spec fn requests(o: PasswordOutcome, r: RequestView) -> bool {
    &&& outputs_view(o.output@).len() == 0
    &&& o.step matches PasswordStep::Request(q) && q@ == r
}

/// An outcome that sends the given lines and returns to the machine below.
pub open spec fn pops_after(o: PasswordOutcome, lines: Seq<OutputView>) -> bool {
    outputs_view(o.output@) == lines && o.step is PopFsm
}

fn wait() -> (o: PasswordOutcome)
    ensures
        waits(o),
{
    let o = PasswordOutcome { output: Vec::new(), step: PasswordStep::Wait };
    assert(outputs_view(o.output@) =~= Seq::<OutputView>::empty());
    o
}

fn request(r: Request) -> (o: PasswordOutcome)
    ensures
        requests(o, r@),
{
    let o = PasswordOutcome { output: Vec::new(), step: PasswordStep::Request(r) };
    assert(outputs_view(o.output@) =~= Seq::<OutputView>::empty());
    o
}

fn say_then_pop(prompt: SendPrompt, text: &str) -> (o: PasswordOutcome)
    ensures
        pops_after(o, seq![line(prompt, text@)]),
{
    let mut output: Vec<ClientOutput> = Vec::new();
    push_output(&mut output, one_line(prompt, text));
    let o = PasswordOutcome { output, step: PasswordStep::PopFsm };
    assert(outputs_view(o.output@) =~= seq![line(prompt, text@)]);
    o
}

#[derive(Default)]
pub struct ChangePasswordState {}

#[derive(Default)]
pub struct VerifyPasswordState {}

#[derive(Default)]
pub struct EnterPasswordState {}

#[derive(Default)]
pub struct ConfirmPasswordState {}

#[derive(Default)]
pub struct UpdatePasswordState {}

#[derive(Default)]
pub struct FailPasswordState {}

impl ChangePasswordState {
    pub fn id(&self) -> (s: StateId)
        ensures
            s == StateId::ChangePassword,
    {
        StateId::ChangePassword
    }

    pub fn output_state(&self, next: &Transition) -> (r: Option<StateId>)
        ensures
            r == output_state_spec(StateId::ChangePassword, *next),
    {
        match next {
            Transition::Ready => Some(StateId::VerifyPassword),
            _ => None,
        }
    }

    /// Announces the password update and moves on.
    pub fn process(&self) -> (o: PasswordOutcome)
        ensures
            outputs_view(o.output@) == seq![
                OutputView {
                    prompt: SendPrompt::NoPrompt,
                    messages: seq![""@, "|White|Password Update|-|"@, ""@],
                },
            ],
            o.step matches PasswordStep::Transition(Transition::Ready),
    {
        let mut output: Vec<ClientOutput> = Vec::new();
        push_output(&mut output, three_lines(SendPrompt::NoPrompt, "", "|White|Password Update|-|", ""));
        let o = PasswordOutcome { output, step: PasswordStep::Transition(Transition::Ready) };
        assert(outputs_view(o.output@) =~= seq![
            OutputView {
                prompt: SendPrompt::NoPrompt,
                messages: seq![""@, "|White|Password Update|-|"@, ""@],
            },
        ]);
        o
    }
}

impl VerifyPasswordState {
    pub fn id(&self) -> (s: StateId)
        ensures
            s == StateId::VerifyPassword,
    {
        StateId::VerifyPassword
    }

    pub fn output_state(&self, next: &Transition) -> (r: Option<StateId>)
        ensures
            r == output_state_spec(StateId::VerifyPassword, *next),
    {
        match next {
            Transition::VerifiedPassword => Some(StateId::EnterPassword),
            Transition::VerificationFailed => Some(StateId::FailPassword),
            _ => None,
        }
    }

    /// Reads the current password; the stored hash is fetched to check it.
    pub fn process(&self, input: Option<&str>, data: &UpdatePasswordData) -> (o: PasswordOutcome)
        ensures
            input is None ==> waits(o),
            input is Some ==> requests(o, RequestView::PlayerHash(data.username@)),
    {
        match input {
            None => wait(),
            Some(_) => request(Request::PlayerHash(owned(data.username.as_str()))),
        }
    }

    /// Decides on the stored hash: the current password is checked against it; without
    /// one the update ends with an error.
    pub fn decide(&self, password: &str, hash: Result<Option<String>, ()>) -> (o: PasswordOutcome)
        ensures
            hash matches Ok(Some(h)) ==> requests(o, RequestView::VerifyPassword { hash: h@, password: password@ }),
            !(hash is Ok && hash->Ok_0 is Some) ==> pops_after(o, seq![line(SendPrompt::Prompt, update_error())]),
    {
        match hash {
            Ok(Some(h)) => request(Request::VerifyPassword { hash: h, password: owned(password) }),
            _ => say_then_pop(SendPrompt::Prompt, "|Red1|Failed to update password.|-|"),
        }
    }
}

impl EnterPasswordState {
    pub fn id(&self) -> (s: StateId)
        ensures
            s == StateId::EnterPassword,
    {
        StateId::EnterPassword
    }

    pub fn output_state(&self, next: &Transition) -> (r: Option<StateId>)
        ensures
            r == output_state_spec(StateId::EnterPassword, *next),
    {
        match next {
            Transition::EnteredPassword(_) => Some(StateId::ConfirmPassword),
            Transition::HashFailed => Some(StateId::FailPassword),
            _ => None,
        }
    }

    /// Reads the new password: one of the wrong length ends the update, otherwise it is
    /// hashed.
    pub fn process(&self, input: Option<&str>) -> (o: PasswordOutcome)
        ensures
            input is None ==> waits(o),
            input matches Some(i) ==> (if 5 <= i.len() <= 1024 {
                requests(o, RequestView::HashPassword(i@))
            } else {
                pops_after(o, seq![line(SendPrompt::Prompt, if i.len() < 5 {
                    crate::engine::weak_password_message()
                } else {
                    crate::engine::strong_password_message()
                })])
            }),
    {
        match input {
            None => wait(),
            Some(input) => match verify_len(input) {
                Some(msg) => say_then_pop(SendPrompt::Prompt, msg.as_str()),
                None => request(Request::HashPassword(owned(input))),
            },
        }
    }
}

impl ConfirmPasswordState {
    pub fn id(&self) -> (s: StateId)
        ensures
            s == StateId::ConfirmPassword,
    {
        StateId::ConfirmPassword
    }

    pub fn output_state(&self, next: &Transition) -> (r: Option<StateId>)
        ensures
            r == output_state_spec(StateId::ConfirmPassword, *next),
    {
        match next {
            Transition::VerifiedPassword => Some(StateId::UpdatePassword),
            Transition::VerificationFailed => Some(StateId::FailPassword),
            _ => None,
        }
    }

    /// Reads the new password again and checks it against the hash of the first entry.
    pub fn process(&self, input: Option<&str>, data: &UpdatePasswordData) -> (o: PasswordOutcome)
        ensures
            input is None ==> waits(o),
            input is Some && data.pw_hash is None ==> pops_after(o, seq![line(SendPrompt::NoPrompt, update_error())]),
            input matches Some(i) ==> (data.pw_hash matches Some(h) ==> requests(
                o,
                RequestView::VerifyPassword { hash: h@, password: i@ },
            )),
    {
        match input {
            None => wait(),
            Some(input) => match &data.pw_hash {
                None => say_then_pop(SendPrompt::NoPrompt, "|Red1|Failed to update password.|-|"),
                Some(hash) => request(
                    Request::VerifyPassword { hash: owned(hash.as_str()), password: owned(input) },
                ),
            },
        }
    }
}

impl UpdatePasswordState {
    pub fn id(&self) -> (s: StateId)
        ensures
            s == StateId::UpdatePassword,
    {
        StateId::UpdatePassword
    }

    pub fn output_state(&self, next: &Transition) -> (r: Option<StateId>)
        ensures
            r == output_state_spec(StateId::UpdatePassword, *next),
    {
        None
    }

    /// Stores the new hash.
    pub fn process(&self, data: &UpdatePasswordData) -> (o: PasswordOutcome)
        ensures
            data.pw_hash is None ==> pops_after(o, seq![line(SendPrompt::NoPrompt, update_error())]),
            data.pw_hash matches Some(h) ==> requests(
                o,
                RequestView::UpdatePassword { name: data.username@, hash: h@ },
            ),
    {
        match &data.pw_hash {
            None => say_then_pop(SendPrompt::NoPrompt, "|Red1|Failed to update password.|-|"),
            Some(hash) => request(
                Request::UpdatePassword { name: owned(data.username.as_str()), hash: owned(hash.as_str()) },
            ),
        }
    }

    /// Reports whether the new hash was stored, and ends the update either way.
    pub fn decide(&self, updated: Result<(), ()>) -> (o: PasswordOutcome)
        ensures
            updated is Ok ==> pops_after(o, seq![line(SendPrompt::Prompt, "|SteelBlue3|Password updated.|-|"@)]),
            updated is Err ==> pops_after(o, seq![line(SendPrompt::Prompt, update_error())]),
    {
        match updated {
            Ok(_) => say_then_pop(SendPrompt::Prompt, "|SteelBlue3|Password updated.|-|"),
            Err(_) => say_then_pop(SendPrompt::Prompt, "|Red1|Failed to update password.|-|"),
        }
    }
}

impl FailPasswordState {
    pub fn id(&self) -> (s: StateId)
        ensures
            s == StateId::FailPassword,
    {
        StateId::FailPassword
    }

    pub fn output_state(&self, next: &Transition) -> (r: Option<StateId>)
        ensures
            r == output_state_spec(StateId::FailPassword, *next),
    {
        None
    }

    /// A failed update ends.
    pub fn process(&self) -> (o: PasswordOutcome)
        ensures
            pops_after(o, seq![]),
    {
        let o = PasswordOutcome { output: Vec::new(), step: PasswordStep::PopFsm };
        assert(outputs_view(o.output@) =~= Seq::<OutputView>::empty());
        o
    }
}

/// What a transition does to the update machine.
pub open spec fn apply_spec(state: StateId, d: UpdateDataView, tx: Transition) -> (
    StateId,
    UpdateDataView,
    Seq<OutputView>,
) {
    let d1 = update_spec(d, tx);
    match output_state_spec(state, tx) {
        Some(next) => (next, enter_data(next, d1), enter_outputs(next)),
        None => (state, d1, seq![]),
    }
}

/// A step of the update machine as plain values.
pub enum PwStepView {
    Wait,
    Transition(Transition),
    PopFsm,
    Request(RequestView),
}

pub open spec fn pw_step_view(s: PasswordStep) -> PwStepView {
    match s {
        PasswordStep::Wait => PwStepView::Wait,
        PasswordStep::Transition(t) => PwStepView::Transition(t),
        PasswordStep::PopFsm => PwStepView::PopFsm,
        PasswordStep::Request(r) => PwStepView::Request(r@),
    }
}

/// An outcome as plain values: the lines and the step.
pub open spec fn pw_outcome_view(o: PasswordOutcome) -> (Seq<OutputView>, PwStepView) {
    (outputs_view(o.output@), pw_step_view(o.step))
}

/// What the update machine's state does with input (or with none): its outcome.
pub open spec fn pw_process_view(state: StateId, d: UpdateDataView, input: Option<&str>) -> (Seq<OutputView>, PwStepView) {
    match state {
        StateId::ChangePassword => (
            seq![OutputView { prompt: SendPrompt::NoPrompt, messages: seq![""@, "|White|Password Update|-|"@, ""@] }],
            PwStepView::Transition(Transition::Ready),
        ),
        StateId::VerifyPassword => match input {
            None => (seq![], PwStepView::Wait),
            Some(_) => (seq![], PwStepView::Request(RequestView::PlayerHash(d.username))),
        },
        StateId::EnterPassword => match input {
            None => (seq![], PwStepView::Wait),
            Some(i) => if 5 <= i.len() <= 1024 {
                (seq![], PwStepView::Request(RequestView::HashPassword(i@)))
            } else {
                (seq![line(SendPrompt::Prompt, if i.len() < 5 {
                    crate::engine::weak_password_message()
                } else {
                    crate::engine::strong_password_message()
                })], PwStepView::PopFsm)
            },
        },
        StateId::ConfirmPassword => match input {
            None => (seq![], PwStepView::Wait),
            Some(i) => match d.pw_hash {
                None => (seq![line(SendPrompt::NoPrompt, update_error())], PwStepView::PopFsm),
                Some(h) => (seq![], PwStepView::Request(RequestView::VerifyPassword { hash: h, password: i@ })),
            },
        },
        StateId::UpdatePassword => match d.pw_hash {
            None => (seq![line(SendPrompt::NoPrompt, update_error())], PwStepView::PopFsm),
            Some(h) => (seq![], PwStepView::Request(RequestView::UpdatePassword { name: d.username, hash: h })),
        },
        StateId::FailPassword => (seq![], PwStepView::PopFsm),
    }
}

/// The password update machine of one player.
pub struct UpdatePasswordFsm {
    current: StateId,
    data: UpdatePasswordData,
}

impl UpdatePasswordFsm {
    pub closed spec fn state(&self) -> StateId {
        self.current
    }

    pub closed spec fn data_view(&self) -> UpdateDataView {
        self.data@
    }

    /// A password update for the named player, starting with its announcement.
    pub fn new(username: String) -> (f: Self)
        ensures
            f.state() == StateId::ChangePassword,
            f.data_view() == (UpdateDataView { username: username@, pw_hash: None }),
    {
        UpdatePasswordFsm {
            current: StateId::ChangePassword,
            data: UpdatePasswordData { username, pw_hash: None },
        }
    }

    pub fn current(&self) -> (s: StateId)
        ensures
            s == self.state(),
    {
        self.current
    }

    pub fn keep_going(&self) -> (b: bool)
        ensures
            b == keep_going_spec(self.state()),
    {
        match self.current {
            StateId::ChangePassword | StateId::UpdatePassword | StateId::FailPassword => true,
            _ => false,
        }
    }

    pub fn apply(&mut self, tx: Transition, out: &mut Vec<ClientOutput>)
        ensures
            ({
                let (s, d, o) = apply_spec(old(self).state(), old(self).data_view(), tx);
                &&& final(self).state() == s
                &&& final(self).data_view() == d
                &&& outputs_view(final(out)@) == outputs_view(old(out)@) + o
            }),
    {
        self.data.update(&tx);
        match output_state(self.current, &tx) {
            Some(next) => {
                self.current = next;
                on_enter(next, &mut self.data, out);
            },
            None => {
                assert(outputs_view(out@) =~= outputs_view(old(out)@) + Seq::<OutputView>::empty());
            },
        }
    }

    /// Processes input, or advances a state that runs on its own.
    pub fn process(&self, input: Option<&str>) -> (o: PasswordOutcome)
        ensures
            pw_outcome_view(o) == pw_process_view(self.state(), self.data_view(), input),
    {
        match self.current {
            StateId::ChangePassword => ChangePasswordState {}.process(),
            StateId::VerifyPassword => VerifyPasswordState {}.process(input, &self.data),
            StateId::EnterPassword => EnterPasswordState {}.process(input),
            StateId::ConfirmPassword => ConfirmPasswordState {}.process(input, &self.data),
            StateId::UpdatePassword => UpdatePasswordState {}.process(&self.data),
            StateId::FailPassword => FailPasswordState {}.process(),
        }
    }
}

/// The player whose password is updated never changes.
pub proof fn username_fixed(state: StateId, d: UpdateDataView, tx: Transition)
    ensures
        apply_spec(state, d, tx).1.username == d.username,
{
}

/// A new password is stored only after it was entered and then confirmed: the update
/// state is reached only by a verification in the confirm state.
pub proof fn update_only_after_confirm(state: StateId, d: UpdateDataView, tx: Transition)
    requires
        apply_spec(state, d, tx).0 == StateId::UpdatePassword,
        state != StateId::UpdatePassword,
    ensures
        state == StateId::ConfirmPassword,
        tx is VerifiedPassword,
        apply_spec(state, d, tx).1.pw_hash == d.pw_hash,
{
}


/// A password update runs through to storing the new hash: after the announcement the
/// current password is checked against the player's stored hash; once verified a new
/// password is asked for and hashed; its hash is kept and the new password asked for
/// again to confirm it; once confirmed the new hash is stored for the player.
pub proof fn password_update_stores_the_confirmed_hash(name: Seq<char>, current: &str, new: &str, hash: String,
    again: &str)
    requires
        5 <= new.len() <= 1024,
    ensures
        ({
            let d0 = UpdateDataView { username: name, pw_hash: None };
            let (s1, d1, o1) = apply_spec(StateId::ChangePassword, d0, Transition::Ready);
            let (s2, d2, o2) = apply_spec(s1, d1, Transition::VerifiedPassword);
            let (s3, d3, o3) = apply_spec(s2, d2, Transition::EnteredPassword(hash));
            let (s4, d4, _o4) = apply_spec(s3, d3, Transition::VerifiedPassword);
            &&& pw_process_view(StateId::ChangePassword, d0, None).1 == PwStepView::Transition(Transition::Ready)
            &&& o1 == seq![line(SendPrompt::Sensitive, "|SteelBlue3|Current password?|-|"@)]
            &&& pw_process_view(s1, d1, Some(current)) == (Seq::<OutputView>::empty(),
                PwStepView::Request(RequestView::PlayerHash(name)))
            &&& o2 == seq![
                line(SendPrompt::NoPrompt, "|SteelBlue3|Password verified.|-|"@),
                line(SendPrompt::Sensitive, "|SteelBlue3|New password?|-|"@),
            ]
            &&& pw_process_view(s2, d2, Some(new)) == (Seq::<OutputView>::empty(),
                PwStepView::Request(RequestView::HashPassword(new@)))
            &&& s3 == StateId::ConfirmPassword
            &&& d3.pw_hash == Some(hash@)
            &&& o3 == seq![
                line(SendPrompt::NoPrompt, "|SteelBlue3|Password accepted.|-|"@),
                line(SendPrompt::Sensitive, "|SteelBlue3|Confirm?|-|"@),
            ]
            &&& pw_process_view(s3, d3, Some(again)) == (Seq::<OutputView>::empty(),
                PwStepView::Request(RequestView::VerifyPassword { hash: hash@, password: again@ }))
            &&& s4 == StateId::UpdatePassword
            &&& pw_process_view(s4, d4, None) == (Seq::<OutputView>::empty(),
                PwStepView::Request(RequestView::UpdatePassword { name: name, hash: hash@ }))
        }),
{
}

/// A failed check of the current password, a failed hash, or a failed confirmation ends
/// the update with an error and leaves the update machine.
pub proof fn failed_update_reports_and_leaves(d: UpdateDataView)
    ensures
        ({
            let (f1, e1, o1) = apply_spec(StateId::VerifyPassword, d, Transition::VerificationFailed);
            let (f2, e2, o2) = apply_spec(StateId::EnterPassword, d, Transition::HashFailed);
            let (f3, e3, o3) = apply_spec(StateId::ConfirmPassword, d, Transition::VerificationFailed);
            &&& f1 == StateId::FailPassword && f2 == StateId::FailPassword && f3 == StateId::FailPassword
            &&& o1 == seq![line(SendPrompt::Prompt, update_error())]
            &&& o2 == o1 && o3 == o1
            &&& pw_process_view(f1, e1, None).1 == PwStepView::PopFsm
        }),
{
}

/// The parameters the password update machine's states are given.
#[derive(Debug, Copy, Clone, PartialEq, Eq, Structural)]
pub struct UpdatePasswordParamsInfo {}

} // verus!
