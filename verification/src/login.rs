use vstd::prelude::*;
use crate::client::{same_text, 
    one_line, outputs_view, owned, push_output, two_lines, ClientEvent, ClientOutput, EntityId,
    OutputView, SendPrompt,
};
use crate::engine::{name_valid, name_valid_spec, verify_len};
use crate::text::{trim, trim_spec};

verus! {

pub open spec fn login_error() -> Seq<char> {
    "|Red1|Error retrieving user.|-|"@
}

pub open spec fn password_error() -> Seq<char> {
    "|Red1|Verification failed.|-|"@
}

/// What moves the login state machine from one state to another.
#[derive(Debug, Clone)]
pub enum Transition {
    Disconnect,
    Ready,
    BeginLogin,
    FailLogin,
    ExistsOffline(String),
    PlayerDoesNotExist(String),
    CreatedPassword(String),
    VerifiedPassword,
    FailPassword,
    BeginPassword,
    PlayerCreated,
    PlayerLoaded(EntityId),
}

/// The states of logging in.
#[derive(Debug, Copy, Clone, PartialEq, Eq, Structural)]
pub enum StateId {
    NotConnected,
    ConnectionReady,
    LoginName,
    LoginPassword,
    FailLogin,
    CreatePassword,
    VerifyPassword,
    FailPassword,
    CreateNewPlayer,
    SpawnPlayer,
    InGame,
}

/// What the login state machine knows of its client.
#[derive(Default)]
pub struct ClientState {
    pub username: Option<String>,
    pub pw_hash: Option<String>,
    pub player: Option<EntityId>,
}

pub open spec fn opt_view(o: Option<String>) -> Option<Seq<char>> {
    match o {
        Some(s) => Some(s@),
        None => None,
    }
}

pub struct ClientStateView {
    pub username: Option<Seq<char>>,
    pub pw_hash: Option<Seq<char>>,
    pub player: Option<EntityId>,
}

impl View for ClientState {
    type V = ClientStateView;

    open spec fn view(&self) -> ClientStateView {
        ClientStateView {
            username: opt_view(self.username),
            pw_hash: opt_view(self.pw_hash),
            player: self.player,
        }
    }
}

/// How a transition changes what is known of the client: a created password records
/// its hash, a located or new name records the name, a loaded player records the player.
pub open spec fn update_spec(d: ClientStateView, tx: Transition) -> ClientStateView {
    match tx {
        Transition::CreatedPassword(hash) => ClientStateView { pw_hash: Some(hash@), ..d },
        Transition::ExistsOffline(name) => ClientStateView { username: Some(name@), ..d },
        Transition::PlayerDoesNotExist(name) => ClientStateView { username: Some(name@), ..d },
        Transition::PlayerLoaded(player) => ClientStateView { player: Some(player), ..d },
        _ => d,
    }
}

pub open spec fn empty_client_state() -> ClientStateView {
    ClientStateView { username: None, pw_hash: None, player: None }
}

impl ClientState {
    pub fn new() -> (s: Self)
        ensures
            s@ == empty_client_state(),
    {
        ClientState { username: None, pw_hash: None, player: None }
    }

    pub fn player(&self) -> (p: Option<EntityId>)
        ensures
            p == self.player,
    {
        self.player
    }

    pub fn clear(&mut self)
        ensures
            final(self)@ == empty_client_state(),
    {
        self.username = None;
        self.pw_hash = None;
        self.player = None;
    }

    pub fn update(&mut self, tx: &Transition)
        ensures
            final(self)@ == update_spec(old(self)@, *tx),
    {
        match tx {
            Transition::CreatedPassword(hash) => self.pw_hash = Some(owned(hash.as_str())),
            Transition::ExistsOffline(name) => self.username = Some(owned(name.as_str())),
            Transition::PlayerDoesNotExist(name) => self.username = Some(owned(name.as_str())),
            Transition::PlayerLoaded(player) => self.player = Some(*player),
            _ => {},
        }
    }
}

/// The transition that a client event stands for, if any: a password hash (or its
/// failure), a verification result, a disconnect, or readiness.
pub open spec fn event_transition(event: ClientEvent) -> Option<Transition> {
    match event {
        ClientEvent::Disconnect => Some(Transition::Disconnect),
        ClientEvent::PasswordHash(Some(hash)) => Some(Transition::CreatedPassword(hash)),
        ClientEvent::PasswordHash(None) => Some(Transition::FailPassword),
        ClientEvent::PasswordVerification(Some(true)) => Some(Transition::VerifiedPassword),
        ClientEvent::PasswordVerification(_) => Some(Transition::FailPassword),
        ClientEvent::Ready => Some(Transition::Ready),
        _ => None,
    }
}

pub fn transition_from_event(event: ClientEvent) -> (r: Option<Transition>)
    ensures
        r == event_transition(event),
{
    match event {
        ClientEvent::Disconnect => Some(Transition::Disconnect),
        ClientEvent::PasswordHash(hash) => match hash {
            Some(hash) => Some(Transition::CreatedPassword(hash)),
            None => Some(Transition::FailPassword),
        },
        ClientEvent::PasswordVerification(verified) => match verified {
            Some(true) => Some(Transition::VerifiedPassword),
            _ => Some(Transition::FailPassword),
        },
        ClientEvent::Ready => Some(Transition::Ready),
        _ => None,
    }
}

/// The state each state moves to on a transition. A disconnect leads back to
/// `NotConnected` from everywhere.
pub open spec fn output_state_spec(state: StateId, tx: Transition) -> Option<StateId> {
    match (state, tx) {
        (_, Transition::Disconnect) => Some(StateId::NotConnected),
        (StateId::NotConnected, Transition::Ready) => Some(StateId::ConnectionReady),
        (StateId::ConnectionReady, Transition::BeginLogin) => Some(StateId::LoginName),
        (StateId::LoginName, Transition::ExistsOffline(_)) => Some(StateId::LoginPassword),
        (StateId::LoginName, Transition::PlayerDoesNotExist(_)) => Some(StateId::CreatePassword),
        (StateId::LoginName, Transition::FailLogin) => Some(StateId::LoginName),
        (StateId::LoginPassword, Transition::VerifiedPassword) => Some(StateId::SpawnPlayer),
        (StateId::LoginPassword, Transition::FailPassword) => Some(StateId::FailLogin),
        (StateId::FailLogin, Transition::BeginLogin) => Some(StateId::LoginName),
        (StateId::CreatePassword, Transition::CreatedPassword(_)) => Some(StateId::VerifyPassword),
        (StateId::CreatePassword, Transition::FailPassword) => Some(StateId::CreatePassword),
        (StateId::VerifyPassword, Transition::FailPassword) => Some(StateId::FailPassword),
        (StateId::VerifyPassword, Transition::VerifiedPassword) => Some(StateId::CreateNewPlayer),
        (StateId::FailPassword, Transition::BeginPassword) => Some(StateId::CreatePassword),
        (StateId::SpawnPlayer, Transition::PlayerLoaded(_)) => Some(StateId::InGame),
        (StateId::SpawnPlayer, Transition::FailLogin) => Some(StateId::LoginName),
        (StateId::CreateNewPlayer, Transition::PlayerCreated) => Some(StateId::SpawnPlayer),
        (StateId::CreateNewPlayer, Transition::FailLogin) => Some(StateId::LoginName),
        _ => None,
    }
}

/// Whether a state runs again right away, without waiting for input.
pub open spec fn keep_going_spec(state: StateId) -> bool {
    match state {
        StateId::ConnectionReady | StateId::FailLogin | StateId::FailPassword
        | StateId::SpawnPlayer | StateId::CreateNewPlayer => true,
        _ => false,
    }
}

/// What entering a state sends.
pub open spec fn enter_outputs(state: StateId) -> Seq<OutputView> {
    match state {
        StateId::ConnectionReady => seq![
            OutputView {
                prompt: SendPrompt::NoPrompt,
                messages: seq!["|SteelBlue3|Connected to|-| |white|ucs://uplink.six.city|-|"@, ""@],
            },
        ],
        StateId::LoginName => seq![
            OutputView { prompt: SendPrompt::Prompt, messages: seq!["|SteelBlue3|Name?|-|"@] },
        ],
        StateId::LoginPassword | StateId::CreatePassword => seq![
            OutputView {
                prompt: SendPrompt::Sensitive,
                messages: seq!["|SteelBlue3|Password?|-|"@],
            },
        ],
        StateId::FailLogin => seq![
            OutputView { prompt: SendPrompt::NoPrompt, messages: seq![login_error()] },
        ],
        StateId::VerifyPassword => seq![
            OutputView {
                prompt: SendPrompt::NoPrompt,
                messages: seq!["|SteelBlue3|Password accepted.|-|"@],
            },
            OutputView { prompt: SendPrompt::Sensitive, messages: seq!["|SteelBlue3|Verify?|-|"@] },
        ],
        StateId::FailPassword => seq![
            OutputView { prompt: SendPrompt::NoPrompt, messages: seq![password_error()] },
        ],
        StateId::SpawnPlayer => seq![
            OutputView {
                prompt: SendPrompt::NoPrompt,
                messages: seq!["|SteelBlue3|Password verified.|-|"@, ""@],
            },
        ],
        StateId::CreateNewPlayer => seq![
            OutputView {
                prompt: SendPrompt::NoPrompt,
                messages: seq!["|SteelBlue3|Password verified.|-|"@],
            },
        ],
        _ => seq![],
    }
}

/// How entering a state changes what is known of the client: `NotConnected` forgets
/// everything, the name and password prompts forget the name or hash they ask for, and
/// spawning forgets the player.
pub open spec fn enter_data(state: StateId, d: ClientStateView) -> ClientStateView {
    match state {
        StateId::NotConnected => empty_client_state(),
        StateId::LoginName => ClientStateView { username: None, ..d },
        StateId::LoginPassword | StateId::CreatePassword => ClientStateView { pw_hash: None, ..d },
        StateId::SpawnPlayer => ClientStateView { player: None, ..d },
        _ => d,
    }
}

/// How leaving a state changes what is known of the client: creating a player forgets
/// the password hash.
pub open spec fn exit_data(state: StateId, d: ClientStateView) -> ClientStateView {
    match state {
        StateId::CreateNewPlayer => ClientStateView { pw_hash: None, ..d },
        _ => d,
    }
}

pub fn output_state(state: StateId, tx: &Transition) -> (r: Option<StateId>)
    ensures
        r == output_state_spec(state, *tx),
{
    if let Transition::Disconnect = tx {
        return Some(StateId::NotConnected);
    }
    match state {
        StateId::NotConnected => NotConnectedState {}.output_state(tx),
        StateId::ConnectionReady => ConnectionReady {}.output_state(tx),
        StateId::LoginName => LoginNameState {}.output_state(tx),
        StateId::LoginPassword => LoginPasswordState {}.output_state(tx),
        StateId::FailLogin => FailLoginState {}.output_state(tx),
        StateId::CreatePassword => CreatePasswordState {}.output_state(tx),
        StateId::VerifyPassword => VerifyPasswordState {}.output_state(tx),
        StateId::FailPassword => FailPasswordState {}.output_state(tx),
        StateId::SpawnPlayer => SpawnPlayerState {}.output_state(tx),
        StateId::CreateNewPlayer => CreateNewPlayerState {}.output_state(tx),
        StateId::InGame => InGameState {}.output_state(tx),
    }
}

pub fn keep_going(state: StateId) -> (b: bool)
    ensures
        b == keep_going_spec(state),
{
    match state {
        StateId::ConnectionReady | StateId::FailLogin | StateId::FailPassword
        | StateId::SpawnPlayer | StateId::CreateNewPlayer => true,
        _ => false,
    }
}

/// Sends what entering a state sends and makes the changes it makes.
pub fn on_enter(state: StateId, data: &mut ClientState, out: &mut Vec<ClientOutput>)
    ensures
        final(data)@ == enter_data(state, old(data)@),
        outputs_view(final(out)@) == outputs_view(old(out)@) + enter_outputs(state),
{
    let ghost before = outputs_view(out@);
    match state {
        StateId::NotConnected => {
            data.clear();
        },
        StateId::ConnectionReady => {
            push_output(
                out,
                two_lines(
                    SendPrompt::NoPrompt,
                    "|SteelBlue3|Connected to|-| |white|ucs://uplink.six.city|-|",
                    "",
                ),
            );
        },
        StateId::LoginName => {
            data.username = None;
            push_output(out, one_line(SendPrompt::Prompt, "|SteelBlue3|Name?|-|"));
        },
        StateId::LoginPassword | StateId::CreatePassword => {
            data.pw_hash = None;
            push_output(out, one_line(SendPrompt::Sensitive, "|SteelBlue3|Password?|-|"));
        },
        StateId::FailLogin => {
            push_output(out, one_line(SendPrompt::NoPrompt, "|Red1|Error retrieving user.|-|"));
        },
        StateId::VerifyPassword => {
            push_output(out, one_line(SendPrompt::NoPrompt, "|SteelBlue3|Password accepted.|-|"));
            push_output(out, one_line(SendPrompt::Sensitive, "|SteelBlue3|Verify?|-|"));
        },
        StateId::FailPassword => {
            push_output(out, one_line(SendPrompt::NoPrompt, "|Red1|Verification failed.|-|"));
        },
        StateId::SpawnPlayer => {
            push_output(out, two_lines(SendPrompt::NoPrompt, "|SteelBlue3|Password verified.|-|", ""));
            data.player = None;
        },
        StateId::CreateNewPlayer => {
            push_output(out, one_line(SendPrompt::NoPrompt, "|SteelBlue3|Password verified.|-|"));
        },
        StateId::InGame => {},
    }
    assert(outputs_view(out@) =~= before + enter_outputs(state));
}

/// Makes the changes that leaving a state makes.
pub fn on_exit(state: StateId, data: &mut ClientState)
    ensures
        final(data)@ == exit_data(state, old(data)@),
{
    if let StateId::CreateNewPlayer = state {
        data.pw_hash = None;
    }
}

// ---------------------------------------------------------------------------
// states

#[derive(Default)]
pub struct NotConnectedState {}

#[derive(Default)]
pub struct ConnectionReady {}

#[derive(Default)]
pub struct LoginNameState {}

#[derive(Default)]
pub struct LoginPasswordState {}

#[derive(Default)]
pub struct FailLoginState {}

#[derive(Default)]
pub struct CreatePasswordState {}

#[derive(Default)]
pub struct VerifyPasswordState {}

#[derive(Default)]
pub struct FailPasswordState {}

#[derive(Default)]
pub struct SpawnPlayerState {}

#[derive(Default)]
pub struct CreateNewPlayerState {}

#[derive(Default)]
pub struct InGameState {}

impl NotConnectedState {
    pub fn id(&self) -> (s: StateId)
        ensures
            s == StateId::NotConnected,
    {
        StateId::NotConnected
    }

    pub fn output_state(&self, next: &Transition) -> (r: Option<StateId>)
        ensures
            r == output_state_spec(StateId::NotConnected, *next),
    {
        match next {
            Transition::Ready => Some(StateId::ConnectionReady),
            Transition::Disconnect => Some(StateId::NotConnected),
            _ => None,
        }
    }
}

impl ConnectionReady {
    pub fn id(&self) -> (s: StateId)
        ensures
            s == StateId::ConnectionReady,
    {
        StateId::ConnectionReady
    }

    pub fn output_state(&self, next: &Transition) -> (r: Option<StateId>)
        ensures
            r == output_state_spec(StateId::ConnectionReady, *next),
    {
        match next {
            Transition::BeginLogin => Some(StateId::LoginName),
            Transition::Disconnect => Some(StateId::NotConnected),
            _ => None,
        }
    }

    /// Connecting moves straight on to asking for a name.
    pub fn process(&self) -> (tx: Transition)
        ensures
            tx is BeginLogin,
    {
        Transition::BeginLogin
    }
}

impl LoginNameState {
    pub fn id(&self) -> (s: StateId)
        ensures
            s == StateId::LoginName,
    {
        StateId::LoginName
    }

    pub fn output_state(&self, next: &Transition) -> (r: Option<StateId>)
        ensures
            r == output_state_spec(StateId::LoginName, *next),
    {
        match next {
            Transition::Disconnect => Some(StateId::NotConnected),
            Transition::ExistsOffline(_) => Some(StateId::LoginPassword),
            Transition::PlayerDoesNotExist(_) => Some(StateId::CreatePassword),
            Transition::FailLogin => Some(StateId::LoginName),
            _ => None,
        }
    }
}

impl LoginPasswordState {
    pub fn id(&self) -> (s: StateId)
        ensures
            s == StateId::LoginPassword,
    {
        StateId::LoginPassword
    }

    pub fn output_state(&self, next: &Transition) -> (r: Option<StateId>)
        ensures
            r == output_state_spec(StateId::LoginPassword, *next),
    {
        match next {
            Transition::Disconnect => Some(StateId::NotConnected),
            Transition::VerifiedPassword => Some(StateId::SpawnPlayer),
            Transition::FailPassword => Some(StateId::FailLogin),
            _ => None,
        }
    }
}

impl FailLoginState {
    pub fn id(&self) -> (s: StateId)
        ensures
            s == StateId::FailLogin,
    {
        StateId::FailLogin
    }

    pub fn output_state(&self, next: &Transition) -> (r: Option<StateId>)
        ensures
            r == output_state_spec(StateId::FailLogin, *next),
    {
        match next {
            Transition::BeginLogin => Some(StateId::LoginName),
            Transition::Disconnect => Some(StateId::NotConnected),
            _ => None,
        }
    }

    /// A failed login starts over.
    pub fn process(&self) -> (tx: Transition)
        ensures
            tx is BeginLogin,
    {
        Transition::BeginLogin
    }
}

impl CreatePasswordState {
    pub fn id(&self) -> (s: StateId)
        ensures
            s == StateId::CreatePassword,
    {
        StateId::CreatePassword
    }

    pub fn output_state(&self, next: &Transition) -> (r: Option<StateId>)
        ensures
            r == output_state_spec(StateId::CreatePassword, *next),
    {
        match next {
            Transition::Disconnect => Some(StateId::NotConnected),
            Transition::CreatedPassword(_) => Some(StateId::VerifyPassword),
            Transition::FailPassword => Some(StateId::CreatePassword),
            _ => None,
        }
    }
}

impl VerifyPasswordState {
    pub fn id(&self) -> (s: StateId)
        ensures
            s == StateId::VerifyPassword,
    {
        StateId::VerifyPassword
    }

    pub fn output_state(&self, next: &Transition) -> (r: Option<StateId>)
        ensures
            r == output_state_spec(StateId::VerifyPassword, *next),
    {
        match next {
            Transition::Disconnect => Some(StateId::NotConnected),
            Transition::FailPassword => Some(StateId::FailPassword),
            Transition::VerifiedPassword => Some(StateId::CreateNewPlayer),
            _ => None,
        }
    }
}

impl FailPasswordState {
    pub fn id(&self) -> (s: StateId)
        ensures
            s == StateId::FailPassword,
    {
        StateId::FailPassword
    }

    pub fn output_state(&self, next: &Transition) -> (r: Option<StateId>)
        ensures
            r == output_state_spec(StateId::FailPassword, *next),
    {
        match next {
            Transition::BeginPassword => Some(StateId::CreatePassword),
            Transition::Disconnect => Some(StateId::NotConnected),
            _ => None,
        }
    }

    /// A failed password starts the password over.
    pub fn process(&self) -> (tx: Transition)
        ensures
            tx is BeginPassword,
    {
        Transition::BeginPassword
    }
}

impl SpawnPlayerState {
    pub fn id(&self) -> (s: StateId)
        ensures
            s == StateId::SpawnPlayer,
    {
        StateId::SpawnPlayer
    }

    pub fn output_state(&self, next: &Transition) -> (r: Option<StateId>)
        ensures
            r == output_state_spec(StateId::SpawnPlayer, *next),
    {
        match next {
            Transition::Disconnect => Some(StateId::NotConnected),
            Transition::PlayerLoaded(_) => Some(StateId::InGame),
            Transition::FailLogin => Some(StateId::LoginName),
            _ => None,
        }
    }
}

impl CreateNewPlayerState {
    pub fn id(&self) -> (s: StateId)
        ensures
            s == StateId::CreateNewPlayer,
    {
        StateId::CreateNewPlayer
    }

    pub fn output_state(&self, next: &Transition) -> (r: Option<StateId>)
        ensures
            r == output_state_spec(StateId::CreateNewPlayer, *next),
    {
        match next {
            Transition::Disconnect => Some(StateId::NotConnected),
            Transition::PlayerCreated => Some(StateId::SpawnPlayer),
            Transition::FailLogin => Some(StateId::LoginName),
            _ => None,
        }
    }
}

impl InGameState {
    pub fn id(&self) -> (s: StateId)
        ensures
            s == StateId::InGame,
    {
        StateId::InGame
    }

    pub fn output_state(&self, next: &Transition) -> (r: Option<StateId>)
        ensures
            r == output_state_spec(StateId::InGame, *next),
    {
        match next {
            Transition::Disconnect => Some(StateId::NotConnected),
            _ => None,
        }
    }
}

} // verus!

verus! {

/// Work the login state machine needs done outside it.
pub enum Request {
    /// Does a player of this name exist, and is it online?
    CheckPlayer(String),
    /// The stored password hash of a player.
    PlayerHash(String),
    /// Check a password against a hash; the answer comes back as a verification event.
    VerifyPassword { hash: String, password: String },
    /// Hash a new password; the answer comes back as a password hash event.
    HashPassword(String),
    /// Load a player into the world.
    LoadPlayer(String),
    /// Store a new player.
    CreatePlayer { name: String, hash: String },
    /// Hand a line of input to the player's game.
    PlayerInput { player: EntityId, input: String },
    /// Store a new password hash for a player.
    UpdatePassword { name: String, hash: String },
}

pub enum RequestView {
    CheckPlayer(Seq<char>),
    PlayerHash(Seq<char>),
    VerifyPassword { hash: Seq<char>, password: Seq<char> },
    HashPassword(Seq<char>),
    LoadPlayer(Seq<char>),
    CreatePlayer { name: Seq<char>, hash: Seq<char> },
    PlayerInput { player: EntityId, input: Seq<char> },
    UpdatePassword { name: Seq<char>, hash: Seq<char> },
}

impl View for Request {
    type V = RequestView;

    open spec fn view(&self) -> RequestView {
        match self {
            Request::CheckPlayer(n) => RequestView::CheckPlayer(n@),
            Request::PlayerHash(n) => RequestView::PlayerHash(n@),
            Request::VerifyPassword { hash, password } => RequestView::VerifyPassword {
                hash: hash@,
                password: password@,
            },
            Request::HashPassword(p) => RequestView::HashPassword(p@),
            Request::LoadPlayer(n) => RequestView::LoadPlayer(n@),
            Request::CreatePlayer { name, hash } => RequestView::CreatePlayer {
                name: name@,
                hash: hash@,
            },
            Request::PlayerInput { player, input } => RequestView::PlayerInput {
                player: *player,
                input: input@,
            },
            Request::UpdatePassword { name, hash } => RequestView::UpdatePassword {
                name: name@,
                hash: hash@,
            },
        }
    }
}

/// A game action queued for a player that just logged in.
#[derive(Debug, Copy, Clone, PartialEq, Eq, Structural)]
pub enum PlayerAction {
    Login(EntityId),
    Look(EntityId),
}

/// What processing a state leads to.
pub enum Step {
    /// Nothing yet: wait for the next event.
    Wait,
    Transition(Transition),
    /// Start the password update machine for the named player.
    PushPasswordFsm(String),
    /// Leave the current machine and return to the one below it.
    PopFsm,
    Request(Request),
}

/// The lines to send, the game actions to queue, and the next step.
pub struct Outcome {
    pub output: Vec<ClientOutput>,
    pub actions: Vec<PlayerAction>,
    pub step: Step,
}

pub enum StepView {
    Wait,
    Transition(Transition),
    PushPasswordFsm(Seq<char>),
    PopFsm,
    Request(RequestView),
}

pub open spec fn step_view(s: Step) -> StepView {
    match s {
        Step::Wait => StepView::Wait,
        Step::Transition(t) => StepView::Transition(t),
        Step::PushPasswordFsm(n) => StepView::PushPasswordFsm(n@),
        Step::PopFsm => StepView::PopFsm,
        Step::Request(r) => StepView::Request(r@),
    }
}

/// An outcome that sends the given lines, queues nothing, and moves on by a transition.
pub open spec fn sends_then(o: Outcome, lines: Seq<OutputView>, tx: Transition) -> bool {
    &&& outputs_view(o.output@) == lines
    &&& o.actions@.len() == 0
    &&& o.step matches Step::Transition(t) && t == tx
}

/// An outcome that sends nothing and asks for outside work.
pub open spec fn requests(o: Outcome, r: RequestView) -> bool {
    &&& outputs_view(o.output@).len() == 0
    &&& o.actions@.len() == 0
    &&& step_view(o.step) == StepView::Request(r)
}

pub open spec fn waits(o: Outcome) -> bool {
    &&& outputs_view(o.output@).len() == 0
    &&& o.actions@.len() == 0
    &&& o.step is Wait
}

pub open spec fn line(prompt: SendPrompt, text: Seq<char>) -> OutputView {
    OutputView { prompt, messages: seq![text] }
}

pub fn wait() -> (o: Outcome)
    ensures
        waits(o),
{
    let o = Outcome { output: Vec::new(), actions: Vec::new(), step: Step::Wait };
    assert(outputs_view(o.output@) =~= Seq::<OutputView>::empty());
    o
}

pub fn request(r: Request) -> (o: Outcome)
    ensures
        requests(o, r@),
{
    let o = Outcome { output: Vec::new(), actions: Vec::new(), step: Step::Request(r) };
    assert(outputs_view(o.output@) =~= Seq::<OutputView>::empty());
    o
}

pub fn say_then(text: &str, tx: Transition) -> (o: Outcome)
    ensures
        sends_then(o, seq![line(SendPrompt::NoPrompt, text@)], tx),
{
    let mut output: Vec<ClientOutput> = Vec::new();
    push_output(&mut output, one_line(SendPrompt::NoPrompt, text));
    let o = Outcome { output, actions: Vec::new(), step: Step::Transition(tx) };
    assert(outputs_view(o.output@) =~= seq![line(SendPrompt::NoPrompt, text@)]);
    o
}

pub fn go(tx: Transition) -> (o: Outcome)
    ensures
        sends_then(o, seq![], tx),
{
    let o = Outcome { output: Vec::new(), actions: Vec::new(), step: Step::Transition(tx) };
    assert(outputs_view(o.output@) =~= Seq::<OutputView>::empty());
    o
}

impl LoginNameState {
    /// Reads a name: an invalid one is refused, a valid one is looked up.
    pub fn process(&self, input: Option<&str>) -> (o: Outcome)
        ensures
            input is None ==> waits(o),
            input matches Some(i) ==> (if name_valid_spec(trim_spec(i@)) {
                requests(o, RequestView::CheckPlayer(trim_spec(i@)))
            } else {
                sends_then(o, seq![line(SendPrompt::NoPrompt, "Invalid username."@)], Transition::FailLogin)
            }),
    {
        match input {
            None => wait(),
            Some(input) => {
                let name = trim(input);
                if !name_valid(name) {
                    say_then("Invalid username.", Transition::FailLogin)
                } else {
                    request(Request::CheckPlayer(owned(name)))
                }
            },
        }
    }

    /// Decides on a looked-up name: a player that exists and is offline logs in, a name
    /// that is free is created, anything else fails.
    pub fn decide(&self, name: &str, has_user: Result<bool, ()>, online: bool) -> (o: Outcome)
        ensures
            match has_user {
                Ok(true) => if online {
                    sends_then(o, seq![line(SendPrompt::NoPrompt, login_error())], Transition::FailLogin)
                } else {
                    &&& outputs_view(o.output@) == seq![line(SendPrompt::NoPrompt, "|SteelBlue3|User located.|-|"@)]
                    &&& o.actions@.len() == 0
                    &&& o.step matches Step::Transition(Transition::ExistsOffline(n)) && n@ == name@
                },
                Ok(false) => if online {
                    sends_then(o, seq![line(SendPrompt::NoPrompt, login_error())], Transition::FailLogin)
                } else {
                    &&& outputs_view(o.output@) == seq![line(SendPrompt::NoPrompt, "|SteelBlue3|New user detected.|-|"@)]
                    &&& o.actions@.len() == 0
                    &&& o.step matches Step::Transition(Transition::PlayerDoesNotExist(n)) && n@ == name@
                },
                Err(_) => sends_then(o, seq![line(SendPrompt::NoPrompt, login_error())], Transition::FailLogin),
            },
    {
        match has_user {
            Err(_) => say_then("|Red1|Error retrieving user.|-|", Transition::FailLogin),
            Ok(true) => {
                if online {
                    say_then("|Red1|Error retrieving user.|-|", Transition::FailLogin)
                } else {
                    say_then("|SteelBlue3|User located.|-|", Transition::ExistsOffline(owned(name)))
                }
            },
            Ok(false) => {
                if online {
                    say_then("|Red1|Error retrieving user.|-|", Transition::FailLogin)
                } else {
                    say_then("|SteelBlue3|New user detected.|-|", Transition::PlayerDoesNotExist(owned(name)))
                }
            },
        }
    }
}

impl LoginPasswordState {
    /// Reads a password: with no known name the client is disconnected, otherwise the
    /// stored hash is fetched.
    pub fn process(&self, input: Option<&str>, data: &ClientState) -> (o: Outcome)
        ensures
            input is None ==> waits(o),
            input is Some && data.username is None ==> sends_then(
                o,
                seq![line(SendPrompt::NoPrompt, login_error())],
                Transition::Disconnect,
            ),
            data.username matches Some(n) ==> (input is Some ==> requests(o, RequestView::PlayerHash(n@))),
    {
        match input {
            None => wait(),
            Some(_) => match &data.username {
                None => say_then("|Red1|Error retrieving user.|-|", Transition::Disconnect),
                Some(name) => request(Request::PlayerHash(owned(name.as_str()))),
            },
        }
    }

    /// Decides on a fetched hash: the password is checked against it, and a missing hash
    /// fails the login.
    pub fn decide(&self, password: &str, hash: Result<Option<String>, ()>) -> (o: Outcome)
        ensures
            hash matches Ok(Some(h)) ==> requests(o, RequestView::VerifyPassword { hash: h@, password: password@ }),
            !(hash is Ok && hash->Ok_0 is Some) ==> sends_then(
                o,
                seq![line(SendPrompt::NoPrompt, login_error())],
                Transition::FailLogin,
            ),
    {
        match hash {
            Ok(Some(h)) => request(Request::VerifyPassword { hash: h, password: owned(password) }),
            _ => say_then("|Red1|Error retrieving user.|-|", Transition::FailLogin),
        }
    }
}

impl CreatePasswordState {
    /// Reads a new password: one of the wrong length is refused, otherwise it is hashed.
    pub fn process(&self, input: Option<&str>) -> (o: Outcome)
        ensures
            input is None ==> waits(o),
            input matches Some(i) ==> (if 5 <= i.len() <= 1024 {
                requests(o, RequestView::HashPassword(i@))
            } else {
                &&& o.step matches Step::Transition(Transition::FailPassword)
                &&& o.actions@.len() == 0
                &&& outputs_view(o.output@).len() == 1
                &&& outputs_view(o.output@)[0].prompt == SendPrompt::NoPrompt
                &&& outputs_view(o.output@)[0].messages == seq![if i.len() < 5 {
                    crate::engine::weak_password_message()
                } else {
                    crate::engine::strong_password_message()
                }]
            }),
    {
        match input {
            None => wait(),
            Some(input) => match verify_len(input) {
                Some(msg) => say_then(msg.as_str(), Transition::FailPassword),
                None => request(Request::HashPassword(owned(input))),
            },
        }
    }
}

impl VerifyPasswordState {
    /// Reads the password again: it is checked against the hash of the first entry.
    pub fn process(&self, input: Option<&str>, data: &ClientState) -> (o: Outcome)
        ensures
            input is None ==> waits(o),
            input is Some && data.pw_hash is None ==> sends_then(
                o,
                seq![line(SendPrompt::NoPrompt, password_error())],
                Transition::FailPassword,
            ),
            input matches Some(i) ==> (data.pw_hash matches Some(h) ==> requests(
                o,
                RequestView::VerifyPassword { hash: h@, password: i@ },
            )),
    {
        match input {
            None => wait(),
            Some(input) => match &data.pw_hash {
                None => say_then("|Red1|Verification failed.|-|", Transition::FailPassword),
                Some(hash) => request(
                    Request::VerifyPassword { hash: owned(hash.as_str()), password: owned(input) },
                ),
            },
        }
    }
}

impl SpawnPlayerState {
    /// Loads the player of the known name.
    pub fn process(&self, data: &ClientState) -> (o: Outcome)
        ensures
            data.username is None ==> sends_then(
                o,
                seq![line(SendPrompt::NoPrompt, login_error())],
                Transition::FailLogin,
            ),
            data.username matches Some(n) ==> requests(o, RequestView::LoadPlayer(n@)),
    {
        match &data.username {
            None => say_then("|Red1|Error retrieving user.|-|", Transition::FailLogin),
            Some(name) => request(Request::LoadPlayer(owned(name.as_str()))),
        }
    }

    /// Decides on a loaded player: it is welcomed, logged in and shown its room.
    pub fn decide(&self, loaded: Result<EntityId, ()>) -> (o: Outcome)
        ensures
            loaded matches Ok(p) ==> {
                &&& outputs_view(o.output@) == seq![
                    OutputView {
                        prompt: SendPrompt::NoPrompt,
                        messages: seq!["|white|Welcome to City Six."@, ""@],
                    },
                ]
                &&& o.actions@ == seq![PlayerAction::Login(p), PlayerAction::Look(p)]
                &&& o.step matches Step::Transition(Transition::PlayerLoaded(q)) && q == p
            },
            loaded is Err ==> sends_then(
                o,
                seq![line(SendPrompt::NoPrompt, login_error())],
                Transition::FailLogin,
            ),
    {
        match loaded {
            Ok(player) => {
                let mut output: Vec<ClientOutput> = Vec::new();
                push_output(&mut output, two_lines(SendPrompt::NoPrompt, "|white|Welcome to City Six.", ""));
                let mut actions: Vec<PlayerAction> = Vec::new();
                actions.push(PlayerAction::Login(player));
                actions.push(PlayerAction::Look(player));
                let o = Outcome { output, actions, step: Step::Transition(Transition::PlayerLoaded(player)) };
                assert(outputs_view(o.output@) =~= seq![
                    OutputView {
                        prompt: SendPrompt::NoPrompt,
                        messages: seq!["|white|Welcome to City Six."@, ""@],
                    },
                ]);
                assert(o.actions@ =~= seq![PlayerAction::Login(player), PlayerAction::Look(player)]);
                o
            },
            Err(_) => say_then("|Red1|Error retrieving user.|-|", Transition::FailLogin),
        }
    }
}

impl CreateNewPlayerState {
    /// Stores a new player with the known name and hash.
    pub fn process(&self, data: &ClientState) -> (o: Outcome)
        ensures
            (data.username is None || data.pw_hash is None) ==> sends_then(
                o,
                seq![line(SendPrompt::NoPrompt, login_error())],
                Transition::FailLogin,
            ),
            data.username matches Some(n) ==> (data.pw_hash matches Some(h) ==> requests(
                o,
                RequestView::CreatePlayer { name: n@, hash: h@ },
            )),
    {
        match (&data.username, &data.pw_hash) {
            (Some(name), Some(hash)) => request(
                Request::CreatePlayer { name: owned(name.as_str()), hash: owned(hash.as_str()) },
            ),
            _ => say_then("|Red1|Error retrieving user.|-|", Transition::FailLogin),
        }
    }

    /// Decides on a stored player.
    pub fn decide(&self, created: Result<(), ()>) -> (o: Outcome)
        ensures
            created is Ok ==> sends_then(o, seq![], Transition::PlayerCreated),
            created is Err ==> sends_then(
                o,
                seq![line(SendPrompt::NoPrompt, login_error())],
                Transition::FailLogin,
            ),
    {
        match created {
            Ok(_) => go(Transition::PlayerCreated),
            Err(_) => say_then("|Red1|Error retrieving user.|-|", Transition::FailLogin),
        }
    }
}

impl InGameState {
    /// Reads game input: `password` starts a password update, anything else goes to the
    /// game; without a player the client is disconnected.
    pub fn process(&self, input: Option<&str>, data: &ClientState) -> (o: Outcome)
        requires
            input matches Some(i) ==> (i@ == "password"@ && data.player is Some ==> data.username is Some),
        ensures
            input is None ==> waits(o),
            input is Some && data.player is None ==> sends_then(
                o,
                seq![line(SendPrompt::NoPrompt, "|Red1|Disconnected.|-|"@)],
                Transition::Disconnect,
            ),
            input matches Some(i) ==> (data.player matches Some(p) ==> if i@ == "password"@ {
                &&& outputs_view(o.output@).len() == 0
                &&& o.actions@.len() == 0
                &&& step_view(o.step) == StepView::PushPasswordFsm(data.username->0@)
            } else {
                requests(o, RequestView::PlayerInput { player: p, input: i@ })
            }),
    {
        match input {
            None => wait(),
            Some(input) => match data.player {
                None => say_then("|Red1|Disconnected.|-|", Transition::Disconnect),
                Some(player) => {
                    if same_text(input, "password") {
                        let name = match &data.username {
                            Some(n) => owned(n.as_str()),
                            None => owned(""),
                        };
                        let o = Outcome { output: Vec::new(), actions: Vec::new(), step: Step::PushPasswordFsm(name) };
                        assert(outputs_view(o.output@) =~= Seq::<OutputView>::empty());
                        o
                    } else {
                        request(Request::PlayerInput { player, input: owned(input) })
                    }
                },
            },
        }
    }

    /// Decides on game input: an error from the game is shown with a prompt.
    pub fn decide(&self, result: Result<(), String>) -> (o: Outcome)
        ensures
            o.actions@.len() == 0,
            o.step is Wait,
            result is Ok ==> outputs_view(o.output@).len() == 0,
            result matches Err(m) ==> outputs_view(o.output@) == seq![line(SendPrompt::Prompt, m@)],
    {
        match result {
            Ok(_) => wait(),
            Err(message) => {
                let mut output: Vec<ClientOutput> = Vec::new();
                push_output(&mut output, one_line(SendPrompt::Prompt, message.as_str()));
                let o = Outcome { output, actions: Vec::new(), step: Step::Wait };
                assert(outputs_view(o.output@) =~= seq![line(SendPrompt::Prompt, message@)]);
                o
            },
        }
    }
}

} // verus!

verus! {

/// The states in which the client's name is known.
pub open spec fn knows_name(s: StateId) -> bool {
    match s {
        StateId::LoginPassword | StateId::CreatePassword | StateId::VerifyPassword
        | StateId::FailPassword | StateId::CreateNewPlayer | StateId::SpawnPlayer
        | StateId::InGame => true,
        _ => false,
    }
}

/// What a transition does to the state and to what is known of the client: the data is
/// updated by the transition; where the current state has an output state for it, the
/// current state is left and the output state entered.
pub open spec fn apply_spec(state: StateId, d: ClientStateView, tx: Transition) -> (
    StateId,
    ClientStateView,
    Seq<OutputView>,
) {
    let d1 = update_spec(d, tx);
    match output_state_spec(state, tx) {
        Some(next) => (next, enter_data(next, exit_data(state, d1)), enter_outputs(next)),
        None => (state, d1, seq![]),
    }
}

/// Whether the machine's data fits its state: past the name prompt the name is known,
/// and in the game the player is known.
pub open spec fn login_wf(state: StateId, d: ClientStateView) -> bool {
    &&& knows_name(state) ==> d.username is Some
    &&& state == StateId::InGame ==> d.player is Some
}

/// The login state machine of one client.
pub struct ClientLoginFsm {
    current: StateId,
    data: ClientState,
}

impl ClientLoginFsm {
    pub closed spec fn state(&self) -> StateId {
        self.current
    }

    pub closed spec fn data_view(&self) -> ClientStateView {
        self.data@
    }

    pub open spec fn wf(&self) -> bool {
        login_wf(self.state(), self.data_view())
    }

    /// A machine waiting for its client to connect.
    pub fn new() -> (f: Self)
        ensures
            f.state() == StateId::NotConnected,
            f.data_view() == empty_client_state(),
            f.wf(),
    {
        ClientLoginFsm { current: StateId::NotConnected, data: ClientState::new() }
    }

    pub fn current(&self) -> (s: StateId)
        ensures
            s == self.state(),
    {
        self.current
    }

    /// The player, once one is loaded.
    pub fn player(&self) -> (p: Option<EntityId>)
        ensures
            p == self.data_view().player,
    {
        self.data.player()
    }

    /// Whether the current state runs again right away.
    pub fn keep_going(&self) -> (b: bool)
        ensures
            b == keep_going_spec(self.state()),
    {
        keep_going(self.current)
    }

    /// Applies a transition, sending what entering the next state sends.
    pub fn apply(&mut self, tx: Transition, out: &mut Vec<ClientOutput>)
        requires
            old(self).wf(),
        ensures
            final(self).wf(),
            ({
                let (s, d, o) = apply_spec(old(self).state(), old(self).data_view(), tx);
                &&& final(self).state() == s
                &&& final(self).data_view() == d
                &&& outputs_view(final(out)@) == outputs_view(old(out)@) + o
            }),
    {
        self.data.update(&tx);
        match output_state(self.current, &tx) {
            Some(next) => {
                on_exit(self.current, &mut self.data);
                self.current = next;
                on_enter(next, &mut self.data, out);
            },
            None => {
                assert(outputs_view(out@) =~= outputs_view(old(out)@) + Seq::<OutputView>::empty());
            },
        }
    }

    /// Processes input, or advances a state that runs on its own.
    pub fn process(&self, input: Option<&str>) -> (o: Outcome)
        requires
            self.wf(),
        ensures
            outcome_view(o) == login_process_view(self.state(), self.data_view(), input),
    {
        match self.current {
            StateId::NotConnected => wait(),
            StateId::ConnectionReady => go(ConnectionReady {}.process()),
            StateId::LoginName => LoginNameState {}.process(input),
            StateId::LoginPassword => LoginPasswordState {}.process(input, &self.data),
            StateId::FailLogin => go(FailLoginState {}.process()),
            StateId::CreatePassword => CreatePasswordState {}.process(input),
            StateId::VerifyPassword => VerifyPasswordState {}.process(input, &self.data),
            StateId::FailPassword => go(FailPasswordState {}.process()),
            StateId::SpawnPlayer => SpawnPlayerState {}.process(&self.data),
            StateId::CreateNewPlayer => CreateNewPlayerState {}.process(&self.data),
            StateId::InGame => InGameState {}.process(input, &self.data),
        }
    }
}

/// An outcome as plain values: the lines, the game actions and the step.
pub open spec fn outcome_view(o: Outcome) -> (Seq<OutputView>, Seq<PlayerAction>, StepView) {
    (outputs_view(o.output@), o.actions@, step_view(o.step))
}

/// An outcome that sends the lines and moves on by a transition.
pub open spec fn sending_then(lines: Seq<OutputView>, tx: Transition) -> (Seq<OutputView>, Seq<PlayerAction>, StepView) {
    (lines, seq![], StepView::Transition(tx))
}

/// An outcome that asks for outside work.
pub open spec fn asking(r: RequestView) -> (Seq<OutputView>, Seq<PlayerAction>, StepView) {
    (seq![], seq![], StepView::Request(r))
}

/// An outcome that waits.
pub open spec fn waiting_view() -> (Seq<OutputView>, Seq<PlayerAction>, StepView) {
    (seq![], seq![], StepView::Wait)
}

/// What the login machine's state does with input (or with none).
pub open spec fn login_process_view(state: StateId, d: ClientStateView, input: Option<&str>)
    -> (Seq<OutputView>, Seq<PlayerAction>, StepView) {
    match state {
        StateId::NotConnected => waiting_view(),
        StateId::ConnectionReady => sending_then(seq![], Transition::BeginLogin),
        StateId::FailLogin => sending_then(seq![], Transition::BeginLogin),
        StateId::FailPassword => sending_then(seq![], Transition::BeginPassword),
        StateId::LoginName => match input {
            None => waiting_view(),
            Some(i) => if name_valid_spec(trim_spec(i@)) {
                asking(RequestView::CheckPlayer(trim_spec(i@)))
            } else {
                sending_then(seq![line(SendPrompt::NoPrompt, "Invalid username."@)], Transition::FailLogin)
            },
        },
        StateId::LoginPassword => match input {
            None => waiting_view(),
            Some(_) => match d.username {
                None => sending_then(seq![line(SendPrompt::NoPrompt, login_error())], Transition::Disconnect),
                Some(n) => asking(RequestView::PlayerHash(n)),
            },
        },
        StateId::CreatePassword => match input {
            None => waiting_view(),
            Some(i) => if 5 <= i.len() <= 1024 {
                asking(RequestView::HashPassword(i@))
            } else {
                sending_then(seq![line(SendPrompt::NoPrompt, if i.len() < 5 {
                    crate::engine::weak_password_message()
                } else {
                    crate::engine::strong_password_message()
                })], Transition::FailPassword)
            },
        },
        StateId::VerifyPassword => match input {
            None => waiting_view(),
            Some(i) => match d.pw_hash {
                None => sending_then(seq![line(SendPrompt::NoPrompt, password_error())], Transition::FailPassword),
                Some(h) => asking(RequestView::VerifyPassword { hash: h, password: i@ }),
            },
        },
        StateId::SpawnPlayer => match d.username {
            None => sending_then(seq![line(SendPrompt::NoPrompt, login_error())], Transition::FailLogin),
            Some(n) => asking(RequestView::LoadPlayer(n)),
        },
        StateId::CreateNewPlayer => match (d.username, d.pw_hash) {
            (Some(n), Some(h)) => asking(RequestView::CreatePlayer { name: n, hash: h }),
            _ => sending_then(seq![line(SendPrompt::NoPrompt, login_error())], Transition::FailLogin),
        },
        StateId::InGame => match input {
            None => waiting_view(),
            Some(i) => match d.player {
                None => sending_then(seq![line(SendPrompt::NoPrompt, "|Red1|Disconnected.|-|"@)], Transition::Disconnect),
                Some(p) => if i@ == "password"@ {
                    (seq![], seq![], StepView::PushPasswordFsm(d.username->0))
                } else {
                    asking(RequestView::PlayerInput { player: p, input: i@ })
                },
            },
        },
    }
}

/// A disconnect, in any state and whatever is known, returns the machine to
/// `NotConnected` and forgets the client's name, password hash and player.
pub proof fn disconnect_resets(state: StateId, d: ClientStateView)
    ensures
        apply_spec(state, d, Transition::Disconnect).0 == StateId::NotConnected,
        apply_spec(state, d, Transition::Disconnect).1 == empty_client_state(),
        apply_spec(state, d, Transition::Disconnect).2.len() == 0,
{
}

/// Every transition keeps the machine's data fitting its state: once past the name
/// prompt the name stays known, and in the game the player stays known.
pub proof fn transitions_keep_wf(state: StateId, d: ClientStateView, tx: Transition)
    requires
        login_wf(state, d),
    ensures
        login_wf(apply_spec(state, d, tx).0, apply_spec(state, d, tx).1),
{
}

/// A player is recorded only by a loaded-player transition: every other transition
/// leaves the player as it was or forgets it.
pub proof fn player_set_only_by_loading(state: StateId, d: ClientStateView, tx: Transition)
    requires
        !(tx is PlayerLoaded),
    ensures
        apply_spec(state, d, tx).1.player == d.player || apply_spec(state, d, tx).1.player is None,
{
}

/// A new player's login runs through to the game: once connected and ready the machine
/// asks for a name; an unknown name leads to the password prompt; a created password is
/// kept, accepted and asked for again; a verified password creates the player under that
/// name with that hash; the created player is loaded by name, and a loaded player is in
/// the game under the name given.
pub proof fn new_player_login_reaches_the_game(name: String, hash: String, password: &str, player: EntityId)
    ensures
        ({
            let (s1, d1, _o1) = apply_spec(StateId::NotConnected, empty_client_state(), Transition::Ready);
            let (s2, d2, o2) = apply_spec(s1, d1, Transition::BeginLogin);
            let (s3, d3, o3) = apply_spec(s2, d2, Transition::PlayerDoesNotExist(name));
            let (s4, d4, o4) = apply_spec(s3, d3, Transition::CreatedPassword(hash));
            let (s5, d5, _o5) = apply_spec(s4, d4, Transition::VerifiedPassword);
            let (s6, d6, _o6) = apply_spec(s5, d5, Transition::PlayerCreated);
            let (s7, d7, o7) = apply_spec(s6, d6, Transition::PlayerLoaded(player));
            &&& login_process_view(s1, d1, None) == sending_then(seq![], Transition::BeginLogin)
            &&& o2 == seq![line(SendPrompt::Prompt, "|SteelBlue3|Name?|-|"@)]
            &&& o3 == seq![line(SendPrompt::Sensitive, "|SteelBlue3|Password?|-|"@)]
            &&& s4 == StateId::VerifyPassword
            &&& d4.pw_hash == Some(hash@)
            &&& o4 == seq![
                line(SendPrompt::NoPrompt, "|SteelBlue3|Password accepted.|-|"@),
                line(SendPrompt::Sensitive, "|SteelBlue3|Verify?|-|"@),
            ]
            &&& login_process_view(s4, d4, Some(password))
                == asking(RequestView::VerifyPassword { hash: hash@, password: password@ })
            &&& login_process_view(s5, d5, None) == asking(RequestView::CreatePlayer { name: name@, hash: hash@ })
            &&& login_process_view(s6, d6, None) == asking(RequestView::LoadPlayer(name@))
            &&& s7 == StateId::InGame
            &&& d7.username == Some(name@)
            &&& d7.player == Some(player)
            &&& o7.len() == 0
        }),
{
    let (s1, d1, _o1) = apply_spec(StateId::NotConnected, empty_client_state(), Transition::Ready);
    let (s2, d2, o2) = apply_spec(s1, d1, Transition::BeginLogin);
    let (s3, d3, o3) = apply_spec(s2, d2, Transition::PlayerDoesNotExist(name));
    assert(s3 == StateId::CreatePassword && d3.username == Some(name@));
    let (s4, d4, o4) = apply_spec(s3, d3, Transition::CreatedPassword(hash));
    assert(s4 == StateId::VerifyPassword && d4.pw_hash == Some(hash@) && d4.username == Some(name@));
    let (s5, d5, _o5) = apply_spec(s4, d4, Transition::VerifiedPassword);
    assert(s5 == StateId::CreateNewPlayer && d5.pw_hash == Some(hash@) && d5.username == Some(name@));
    let (s6, d6, _o6) = apply_spec(s5, d5, Transition::PlayerCreated);
    assert(s6 == StateId::SpawnPlayer && d6.username == Some(name@));
}

/// A known player's login runs through to the game: the name of a player who is offline
/// leads to the password prompt; a verified password loads the player by that name, and
/// the loaded player is in the game.
pub proof fn known_player_login_reaches_the_game(d: ClientStateView, name: String, player: EntityId)
    ensures
        ({
            let (s3, d3, o3) = apply_spec(StateId::LoginName, d, Transition::ExistsOffline(name));
            let (s4, d4, o4) = apply_spec(s3, d3, Transition::VerifiedPassword);
            let (s5, d5, _o5) = apply_spec(s4, d4, Transition::PlayerLoaded(player));
            &&& s3 == StateId::LoginPassword
            &&& o3 == seq![line(SendPrompt::Sensitive, "|SteelBlue3|Password?|-|"@)]
            &&& login_process_view(s3, d3, Some("x")) == asking(RequestView::PlayerHash(name@))
            &&& s4 == StateId::SpawnPlayer
            &&& o4 == seq![OutputView { prompt: SendPrompt::NoPrompt, messages: seq!["|SteelBlue3|Password verified.|-|"@, ""@] }]
            &&& login_process_view(s4, d4, None) == asking(RequestView::LoadPlayer(name@))
            &&& s5 == StateId::InGame
            &&& d5.username == Some(name@)
            &&& d5.player == Some(player)
        }),
{
}

/// A failed login or password goes back to ask again: a wrong password of a known player
/// reports the error and asks for a name again; a new player's password that fails its
/// verification reports the error, forgets the hash and asks for a password again.
pub proof fn failures_ask_again(d: ClientStateView)
    ensures
        ({
            let (f1, e1, o1) = apply_spec(StateId::LoginPassword, d, Transition::FailPassword);
            let (f2, e2, o2) = apply_spec(f1, e1, Transition::BeginLogin);
            &&& f1 == StateId::FailLogin
            &&& o1 == seq![line(SendPrompt::NoPrompt, login_error())]
            &&& login_process_view(f1, e1, None) == sending_then(seq![], Transition::BeginLogin)
            &&& f2 == StateId::LoginName
            &&& e2.username is None
            &&& o2 == seq![line(SendPrompt::Prompt, "|SteelBlue3|Name?|-|"@)]
        }),
        ({
            let (g1, h1, p1) = apply_spec(StateId::VerifyPassword, d, Transition::FailPassword);
            let (g2, h2, p2) = apply_spec(g1, h1, Transition::BeginPassword);
            &&& g1 == StateId::FailPassword
            &&& p1 == seq![line(SendPrompt::NoPrompt, password_error())]
            &&& login_process_view(g1, h1, None) == sending_then(seq![], Transition::BeginPassword)
            &&& g2 == StateId::CreatePassword
            &&& h2.pw_hash is None
            &&& h2.username == d.username
            &&& p2 == seq![line(SendPrompt::Sensitive, "|SteelBlue3|Password?|-|"@)]
        }),
{
}

} // verus!
