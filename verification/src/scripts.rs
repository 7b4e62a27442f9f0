use vstd::prelude::*;
use crate::chars::chars_of;
use crate::actions::Action;
use crate::client::{same_text, EntityId};
use crate::text::{is_whitespace, is_whitespace_char};

verus! {

/// The player actions that a script can be hooked to.
#[derive(Debug, Copy, Clone, PartialEq, Eq, Structural)]
pub enum TriggerEvent {
    Drop,
    Emote,
    Exits,
    Get,
    Init,
    Inventory,
    Look,
    LookAt,
    Move,
    Say,
    Send,
    Timer,
}

/// The name of a trigger event, as it is written and parsed.
pub open spec fn trigger_event_name(t: TriggerEvent) -> Seq<char> {
    match t {
        TriggerEvent::Drop => "Drop"@,
        TriggerEvent::Emote => "Emote"@,
        TriggerEvent::Exits => "Exits"@,
        TriggerEvent::Get => "Get"@,
        TriggerEvent::Init => "Init"@,
        TriggerEvent::Inventory => "Inventory"@,
        TriggerEvent::Look => "Look"@,
        TriggerEvent::LookAt => "LookAt"@,
        TriggerEvent::Move => "Move"@,
        TriggerEvent::Say => "Say"@,
        TriggerEvent::Send => "Send"@,
        TriggerEvent::Timer => "Timer"@,
    }
}

impl TriggerEvent {
    /// The event's name.
    pub fn name(&self) -> (s: String)
        ensures
            s@ == trigger_event_name(*self),
    {
        match self {
            TriggerEvent::Drop => "Drop".to_owned(),
            TriggerEvent::Emote => "Emote".to_owned(),
            TriggerEvent::Exits => "Exits".to_owned(),
            TriggerEvent::Get => "Get".to_owned(),
            TriggerEvent::Init => "Init".to_owned(),
            TriggerEvent::Inventory => "Inventory".to_owned(),
            TriggerEvent::Look => "Look".to_owned(),
            TriggerEvent::LookAt => "LookAt".to_owned(),
            TriggerEvent::Move => "Move".to_owned(),
            TriggerEvent::Say => "Say".to_owned(),
            TriggerEvent::Send => "Send".to_owned(),
            TriggerEvent::Timer => "Timer".to_owned(),
        }
    }

    /// The event with exactly this name (case matters), if any.
    pub fn from_name(s: &str) -> (r: Option<TriggerEvent>)
        ensures
            match r {
                Some(t) => trigger_event_name(t) == s@,
                None => forall|t: TriggerEvent| trigger_event_name(t) != s@,
            },
    {
        if same_text(s, "Drop") {
            Some(TriggerEvent::Drop)
        } else if same_text(s, "Emote") {
            Some(TriggerEvent::Emote)
        } else if same_text(s, "Exits") {
            Some(TriggerEvent::Exits)
        } else if same_text(s, "Get") {
            Some(TriggerEvent::Get)
        } else if same_text(s, "Init") {
            Some(TriggerEvent::Init)
        } else if same_text(s, "Inventory") {
            Some(TriggerEvent::Inventory)
        } else if same_text(s, "Look") {
            Some(TriggerEvent::Look)
        } else if same_text(s, "LookAt") {
            Some(TriggerEvent::LookAt)
        } else if same_text(s, "Move") {
            Some(TriggerEvent::Move)
        } else if same_text(s, "Say") {
            Some(TriggerEvent::Say)
        } else if same_text(s, "Send") {
            Some(TriggerEvent::Send)
        } else if same_text(s, "Timer") {
            Some(TriggerEvent::Timer)
        } else {
            None
        }
    }
}

/// No two trigger events share a name, so parsing an event's name gives the event back.
pub proof fn trigger_event_names_distinct(a: TriggerEvent, b: TriggerEvent)
    ensures
        trigger_event_name(a) == trigger_event_name(b) ==> a == b,
{
    reveal_strlit("Drop");
    reveal_strlit("Emote");
    reveal_strlit("Exits");
    reveal_strlit("Get");
    reveal_strlit("Init");
    reveal_strlit("Inventory");
    reveal_strlit("Look");
    reveal_strlit("LookAt");
    reveal_strlit("Move");
    reveal_strlit("Say");
    reveal_strlit("Send");
    reveal_strlit("Timer");
    if trigger_event_name(a) == trigger_event_name(b) {
        let x = trigger_event_name(a);
        assert(x.len() == trigger_event_name(b).len());
        assert(x[0] == trigger_event_name(b)[0]);
        if x.len() > 1 {
            assert(x[1] == trigger_event_name(b)[1]);
        }
        if x.len() > 3 {
            assert(x[3] == trigger_event_name(b)[3]);
        }
    }
}

/// The kinds of hook a script can have.
#[derive(Debug, Copy, Clone, PartialEq, Eq, Structural)]
pub enum TriggerKind {
    PreEvent,
    PostEvent,
    Init,
    Timer,
}

pub open spec fn trigger_kind_name(k: TriggerKind) -> Seq<char> {
    match k {
        TriggerKind::PreEvent => "PreEvent"@,
        TriggerKind::PostEvent => "PostEvent"@,
        TriggerKind::Init => "Init"@,
        TriggerKind::Timer => "Timer"@,
    }
}

impl TriggerKind {
    /// The kind's name.
    pub fn name(&self) -> (s: String)
        ensures
            s@ == trigger_kind_name(*self),
    {
        match self {
            TriggerKind::PreEvent => "PreEvent".to_owned(),
            TriggerKind::PostEvent => "PostEvent".to_owned(),
            TriggerKind::Init => "Init".to_owned(),
            TriggerKind::Timer => "Timer".to_owned(),
        }
    }

    /// The kind with exactly this name, if any.
    pub fn from_name(s: &str) -> (r: Option<TriggerKind>)
        ensures
            match r {
                Some(k) => trigger_kind_name(k) == s@,
                None => forall|k: TriggerKind| trigger_kind_name(k) != s@,
            },
    {
        if same_text(s, "PreEvent") {
            Some(TriggerKind::PreEvent)
        } else if same_text(s, "PostEvent") {
            Some(TriggerKind::PostEvent)
        } else if same_text(s, "Init") {
            Some(TriggerKind::Init)
        } else if same_text(s, "Timer") {
            Some(TriggerKind::Timer)
        } else {
            None
        }
    }
}

/// When a script runs: at initialisation, before or after an event, or on a named timer.
pub enum ScriptTrigger {
    Init,
    PostEvent(TriggerEvent),
    PreEvent(TriggerEvent),
    Timer(String),
}

/// A script trigger, with its timer name as characters.
pub enum TriggerView {
    Init,
    PostEvent(TriggerEvent),
    PreEvent(TriggerEvent),
    Timer(Seq<char>),
}

impl View for ScriptTrigger {
    type V = TriggerView;

    open spec fn view(&self) -> TriggerView {
        match self {
            ScriptTrigger::Init => TriggerView::Init,
            ScriptTrigger::PostEvent(e) => TriggerView::PostEvent(*e),
            ScriptTrigger::PreEvent(e) => TriggerView::PreEvent(*e),
            ScriptTrigger::Timer(name) => TriggerView::Timer(name@),
        }
    }
}

pub open spec fn trigger_view_kind(t: TriggerView) -> TriggerKind {
    match t {
        TriggerView::Init => TriggerKind::Init,
        TriggerView::PostEvent(_) => TriggerKind::PostEvent,
        TriggerView::PreEvent(_) => TriggerKind::PreEvent,
        TriggerView::Timer(_) => TriggerKind::Timer,
    }
}

/// The text stored beside a trigger's kind: the event's name, the timer's name, or
/// nothing for initialisation.
pub open spec fn trigger_view_text(t: TriggerView) -> Seq<char> {
    match t {
        TriggerView::Init => Seq::empty(),
        TriggerView::PostEvent(e) => trigger_event_name(e),
        TriggerView::PreEvent(e) => trigger_event_name(e),
        TriggerView::Timer(name) => name,
    }
}

impl ScriptTrigger {
    pub fn kind(&self) -> (k: TriggerKind)
        ensures
            k == trigger_view_kind(self@),
    {
        match self {
            ScriptTrigger::Init => TriggerKind::Init,
            ScriptTrigger::PostEvent(_) => TriggerKind::PostEvent,
            ScriptTrigger::PreEvent(_) => TriggerKind::PreEvent,
            ScriptTrigger::Timer(_) => TriggerKind::Timer,
        }
    }

    /// The trigger's text: the event's name, the timer's name, or an empty string.
    pub fn text(&self) -> (s: String)
        ensures
            s@ == trigger_view_text(self@),
    {
        match self {
            ScriptTrigger::Init => String::new(),
            ScriptTrigger::PostEvent(e) => e.name(),
            ScriptTrigger::PreEvent(e) => e.name(),
            ScriptTrigger::Timer(name) => name.clone(),
        }
    }

    /// Whether two triggers are the same.
    pub fn same(&self, other: &ScriptTrigger) -> (b: bool)
        ensures
            b == (self@ == other@),
    {
        match (self, other) {
            (ScriptTrigger::Init, ScriptTrigger::Init) => true,
            (ScriptTrigger::PostEvent(a), ScriptTrigger::PostEvent(b)) => *a == *b,
            (ScriptTrigger::PreEvent(a), ScriptTrigger::PreEvent(b)) => *a == *b,
            (ScriptTrigger::Timer(a), ScriptTrigger::Timer(b)) => same_text(a.as_str(), b.as_str()),
            _ => false,
        }
    }

    pub fn duplicate(&self) -> (t: ScriptTrigger)
        ensures
            t@ == self@,
    {
        match self {
            ScriptTrigger::Init => ScriptTrigger::Init,
            ScriptTrigger::PostEvent(e) => ScriptTrigger::PostEvent(*e),
            ScriptTrigger::PreEvent(e) => ScriptTrigger::PreEvent(*e),
            ScriptTrigger::Timer(name) => ScriptTrigger::Timer(name.clone()),
        }
    }
}

/// A character allowed in a script name: ASCII and not whitespace.
pub open spec fn script_name_char(c: char) -> bool {
    (c as u32) < 128 && !is_whitespace(c)
}

pub open spec fn script_name_valid(s: Seq<char>) -> bool {
    forall|i: int| 0 <= i < s.len() ==> #[trigger] script_name_char(s[i])
}

/// The name of a script: ASCII without whitespace.
pub struct ScriptName(String);

/// Why a string is not a script name.
#[derive(Debug, Copy, Clone, PartialEq, Eq, Structural)]
pub struct ScriptNameParseError {}

impl ScriptNameParseError {
    pub fn message(&self) -> (s: String)
        ensures
            s@ == "Failed to parse script name: must be ASCII and contain no whitespace."@,
    {
        "Failed to parse script name: must be ASCII and contain no whitespace.".to_owned()
    }
}

impl View for ScriptName {
    type V = Seq<char>;

    closed spec fn view(&self) -> Seq<char> {
        self.0@
    }
}

impl ScriptName {
    pub closed spec fn wf(&self) -> bool {
        script_name_valid(self.0@)
    }

    /// A script name, where every character is ASCII and none is whitespace.
    pub fn try_from_string(value: String) -> (r: Result<ScriptName, ScriptNameParseError>)
        ensures
            r is Ok <==> script_name_valid(value@),
            r matches Ok(n) ==> n@ == value@ && n.wf(),
    {
        let v = chars_of(value.as_str());
        let mut i: usize = 0;
        while i < v.len()
            invariant
                v@ == value@,
                i <= v.len(),
                forall|k: int| 0 <= k < i ==> #[trigger] script_name_char(v@[k]),
            decreases v.len() - i,
        {
            let c = v[i];
            if (c as u32) >= 128 || is_whitespace_char(c) {
                assert(!script_name_char(v@[i as int]));
                return Err(ScriptNameParseError {});
            }
            i = i + 1;
        }
        Ok(ScriptName(value))
    }

    pub fn as_str(&self) -> (s: &str)
        ensures
            s@ == self@,
    {
        self.0.as_str()
    }

    pub fn into_string(self) -> (s: String)
        ensures
            s@ == self@,
    {
        self.0
    }

    /// Whether two names are equal.
    pub fn same(&self, other: &ScriptName) -> (b: bool)
        ensures
            b == (self@ == other@),
    {
        same_text(self.0.as_str(), other.0.as_str())
    }

    pub fn duplicate(&self) -> (n: ScriptName)
        ensures
            n@ == self@,
            self.wf() ==> n.wf(),
    {
        ScriptName(self.0.clone())
    }
}

/// A script: its name, the event it is written for, and its code.
pub struct Script {
    name: ScriptName,
    trigger: TriggerEvent,
    code: String,
}

/// A script as plain values.
pub struct ScriptView {
    pub name: Seq<char>,
    pub trigger: TriggerEvent,
    pub code: Seq<char>,
}

impl View for Script {
    type V = ScriptView;

    closed spec fn view(&self) -> ScriptView {
        ScriptView { name: self.name@, trigger: self.trigger, code: self.code@ }
    }
}

impl Script {
    pub fn new(name: ScriptName, trigger: TriggerEvent, code: String) -> (s: Script)
        ensures
            s@ == (ScriptView { name: name@, trigger, code: code@ }),
    {
        Script { name, trigger, code }
    }

    pub fn name(&self) -> (n: &ScriptName)
        ensures
            n@ == self@.name,
    {
        &self.name
    }

    pub fn trigger(&self) -> (t: TriggerEvent)
        ensures
            t == self@.trigger,
    {
        self.trigger
    }

    pub fn code(&self) -> (c: String)
        ensures
            c@ == self@.code,
    {
        self.code.clone()
    }

    pub fn as_str(&self) -> (c: &str)
        ensures
            c@ == self@.code,
    {
        self.code.as_str()
    }

    pub fn into_parts(self) -> (parts: (ScriptName, TriggerEvent, String))
        ensures
            parts.0@ == self@.name,
            parts.1 == self@.trigger,
            parts.2@ == self@.code,
    {
        (self.name, self.trigger, self.code)
    }

    pub fn duplicate(&self) -> (s: Script)
        ensures
            s@ == self@,
    {
        Script { name: self.name.duplicate(), trigger: self.trigger, code: self.code.clone() }
    }
}


/// A script hooked to something, with when it runs.
pub struct ScriptHook {
    pub trigger: ScriptTrigger,
    pub script: ScriptName,
}

/// A hook as plain values.
pub struct HookView {
    pub trigger: TriggerView,
    pub script: Seq<char>,
}

impl View for ScriptHook {
    type V = HookView;

    open spec fn view(&self) -> HookView {
        HookView { trigger: self.trigger@, script: self.script@ }
    }
}

pub open spec fn hooks_view(s: Seq<ScriptHook>) -> Seq<HookView> {
    s.map_values(|h: ScriptHook| h@)
}

impl ScriptHook {
    pub fn duplicate(&self) -> (h: ScriptHook)
        ensures
            h@ == self@,
    {
        ScriptHook { trigger: self.trigger.duplicate(), script: self.script.duplicate() }
    }

    /// Whether two hooks are the same.
    pub fn same(&self, other: &ScriptHook) -> (b: bool)
        ensures
            b == (self@ == other@),
    {
        self.trigger.same(&other.trigger) && self.script.same(&other.script)
    }
}

/// The scripts hooked to one thing, in the order they were added.
pub struct ScriptHooks {
    list: Vec<ScriptHook>,
}

/// The names of the hooked scripts that run on a trigger, in order.
pub open spec fn scripts_for(s: Seq<HookView>, t: TriggerView) -> Seq<Seq<char>>
    decreases s.len(),
{
    if s.len() == 0 {
        Seq::empty()
    } else if s.last().trigger == t {
        scripts_for(s.drop_last(), t).push(s.last().script)
    } else {
        scripts_for(s.drop_last(), t)
    }
}

/// Where the first hook of a script is.
pub open spec fn first_hook_of(s: Seq<HookView>, script: Seq<char>) -> Option<int> {
    if exists|i: int| 0 <= i < s.len() && #[trigger] s[i].script == script {
        Some(choose|i: int| 0 <= i < s.len() && #[trigger] s[i].script == script
            && forall|k: int| 0 <= k < i ==> #[trigger] s[k].script != script)
    } else {
        None
    }
}

impl ScriptHooks {
    pub closed spec fn hooks_seq(&self) -> Seq<HookView> {
        hooks_view(self.list@)
    }

    pub fn empty() -> (h: ScriptHooks)
        ensures
            h.hooks_seq() == Seq::<HookView>::empty(),
    {
        let h = ScriptHooks { list: Vec::new() };
        assert(h.hooks_seq() =~= Seq::<HookView>::empty());
        h
    }

    /// Hooks holding one hook.
    pub fn new(hook: ScriptHook) -> (h: ScriptHooks)
        ensures
            h.hooks_seq() == seq![hook@],
    {
        let ghost hv = hook@;
        let mut list: Vec<ScriptHook> = Vec::new();
        list.push(hook);
        let h = ScriptHooks { list };
        assert(h.hooks_seq() =~= seq![hv]);
        h
    }

    pub fn is_empty(&self) -> (b: bool)
        ensures
            b == (self.hooks_seq().len() == 0),
    {
        self.list.len() == 0
    }

    /// A copy of the hooks.
    pub fn duplicate(&self) -> (h: ScriptHooks)
        ensures
            h.hooks_seq() == self.hooks_seq(),
    {
        let mut list: Vec<ScriptHook> = Vec::new();
        let mut i: usize = 0;
        while i < self.list.len()
            invariant
                i <= self.list.len(),
                hooks_view(list@) == hooks_view(self.list@).take(i as int),
            decreases self.list.len() - i,
        {
            let ghost before = list@;
            let h = self.list[i].duplicate();
            list.push(h);
            proof {
                before.lemma_push_map_commute(|x: ScriptHook| x@, h);
                assert(hooks_view(self.list@).take(i + 1) =~= hooks_view(self.list@).take(i as int).push(self.list@[i as int]@));
            }
            i = i + 1;
        }
        assert(hooks_view(self.list@).take(self.list.len() as int) =~= hooks_view(self.list@));
        ScriptHooks { list }
    }

    pub fn hooks(&self) -> (s: &[ScriptHook])
        ensures
            hooks_view(s@) == self.hooks_seq(),
    {
        self.list.as_slice()
    }

    pub fn contains(&self, hook: &ScriptHook) -> (b: bool)
        ensures
            b == self.hooks_seq().contains(hook@),
    {
        let mut i: usize = 0;
        while i < self.list.len()
            invariant
                i <= self.list.len(),
                forall|k: int| 0 <= k < i ==> #[trigger] self.hooks_seq()[k] != hook@,
            decreases self.list.len() - i,
        {
            if self.list[i].same(hook) {
                assert(self.hooks_seq()[i as int] == hook@);
                return true;
            }
            i = i + 1;
        }
        false
    }

    /// Adds a hook at the end.
    pub fn insert(&mut self, hook: ScriptHook)
        ensures
            final(self).hooks_seq() == old(self).hooks_seq().push(hook@),
    {
        let ghost hv = hook@;
        self.list.push(hook);
        assert(self.hooks_seq() =~= old(self).hooks_seq().push(hv));
    }

    /// Removes the first hook of a script, giving it back.
    pub fn remove(&mut self, script: &ScriptName) -> (r: Option<ScriptHook>)
        ensures
            match first_hook_of(old(self).hooks_seq(), script@) {
                Some(i) => r matches Some(h) && h@ == old(self).hooks_seq()[i]
                    && final(self).hooks_seq() == old(self).hooks_seq().remove(i),
                None => r is None && final(self).hooks_seq() == old(self).hooks_seq(),
            },
    {
        let ghost s = self.hooks_seq();
        let mut i: usize = 0;
        while i < self.list.len()
            invariant
                s == self.hooks_seq(),
                s == old(self).hooks_seq(),
                i <= self.list.len(),
                forall|k: int| 0 <= k < i ==> #[trigger] s[k].script != script@,
            decreases self.list.len() - i,
        {
            if self.list[i].script.same(script) {
                proof {
                    assert(s[i as int].script == script@);
                    let f = first_hook_of(s, script@);
                    assert(f is Some);
                    let c = f->0;
                    if c < i {
                        assert(s[c].script != script@);
                    }
                    if c > i {
                        assert(s[i as int].script != script@);
                    }
                }
                let h = self.list.remove(i);
                assert(self.hooks_seq() =~= s.remove(i as int));
                return Some(h);
            }
            i = i + 1;
        }
        assert(first_hook_of(s, script@) is None);
        None
    }

    /// The names of the scripts that run on a trigger, in the order they were hooked.
    pub fn by_trigger(&self, trigger: &ScriptTrigger) -> (v: Vec<ScriptName>)
        ensures
            v@.map_values(|n: ScriptName| n@) == scripts_for(self.hooks_seq(), trigger@),
    {
        let mut v: Vec<ScriptName> = Vec::new();
        let mut i: usize = 0;
        while i < self.list.len()
            invariant
                i <= self.list.len(),
                v@.map_values(|n: ScriptName| n@) == scripts_for(self.hooks_seq().take(i as int), trigger@),
            decreases self.list.len() - i,
        {
            let ghost before = v@;
            proof {
                assert(self.hooks_seq().take(i + 1).drop_last() =~= self.hooks_seq().take(i as int));
                assert(self.hooks_seq().take(i + 1).last() == self.hooks_seq()[i as int]);
            }
            if self.list[i].trigger.same(trigger) {
                let n = self.list[i].script.duplicate();
                let ghost nv = n@;
                v.push(n);
                assert(v@.map_values(|n: ScriptName| n@) =~= before.map_values(|n: ScriptName| n@).push(nv));
            }
            i = i + 1;
        }
        assert(self.hooks_seq().take(self.list.len() as int) =~= self.hooks_seq());
        v
    }
}

/// The event an action raises for scripts, where it raises one.
pub open spec fn event_of(a: Action) -> Option<TriggerEvent> {
    match a {
        Action::Drop(_) => Some(TriggerEvent::Drop),
        Action::Exits(_) => Some(TriggerEvent::Exits),
        Action::Get(_) => Some(TriggerEvent::Get),
        Action::Inventory(_) => Some(TriggerEvent::Inventory),
        Action::Look(_) => Some(TriggerEvent::Look),
        Action::LookAt(_) => Some(TriggerEvent::LookAt),
        Action::Move(_) => Some(TriggerEvent::Move),
        Action::Say(_) => Some(TriggerEvent::Say),
        _ => None,
    }
}

impl TriggerEvent {
    pub fn from_action(value: &Action) -> (r: Option<TriggerEvent>)
        ensures
            r == event_of(*value),
    {
        match value {
            Action::Drop(_) => Some(TriggerEvent::Drop),
            Action::Exits(_) => Some(TriggerEvent::Exits),
            Action::Get(_) => Some(TriggerEvent::Get),
            Action::Inventory(_) => Some(TriggerEvent::Inventory),
            Action::Look(_) => Some(TriggerEvent::Look),
            Action::LookAt(_) => Some(TriggerEvent::LookAt),
            Action::Move(_) => Some(TriggerEvent::Move),
            Action::Say(_) => Some(TriggerEvent::Say),
            _ => None,
        }
    }
}

/// An action waiting to be run by the world.
pub struct QueuedAction {
    pub action: Action,
}

impl QueuedAction {
    pub fn from_action(action: Action) -> (q: QueuedAction)
        ensures
            q.action == action,
    {
        QueuedAction { action }
    }
}

/// A script to run on an entity.
pub struct ScriptRun {
    pub entity: EntityId,
    pub script: ScriptName,
}

impl ScriptRun {
    pub fn new(entity: EntityId, script: ScriptName) -> (r: ScriptRun)
        ensures
            r.entity == entity && r.script == script,
    {
        ScriptRun { entity, script }
    }
}

/// An init script to run on an entity.
pub struct RunInitScript {
    pub entity: EntityId,
    pub script: ScriptName,
}

impl RunInitScript {
    pub fn new(entity: EntityId, script: ScriptName) -> (r: RunInitScript)
        ensures
            r.entity == entity && r.script == script,
    {
        RunInitScript { entity, script }
    }
}

/// The script runs waiting: init runs, runs for each action, and timed runs.
pub struct ScriptRuns {
    init_runs: Vec<ScriptRun>,
    runs: Vec<(Action, Vec<ScriptRun>)>,
    timed_runs: Vec<ScriptRun>,
}

impl Default for ScriptRuns {
    fn default() -> (r: ScriptRuns)
        ensures
            r.init_queue().len() == 0,
    {
        ScriptRuns { init_runs: Vec::new(), runs: Vec::new(), timed_runs: Vec::new() }
    }
}

impl ScriptRuns {
    pub closed spec fn init_queue(&self) -> Seq<ScriptRun> {
        self.init_runs@
    }

    pub fn queue_init(&mut self, run: ScriptRun)
        ensures
            final(self).init_queue() == old(self).init_queue().push(run),
    {
        self.init_runs.push(run);
    }
}

/// The entities of the scripts, by name, as a map.
pub open spec fn scripts_map(v: Seq<(ScriptName, EntityId)>) -> Map<Seq<char>, EntityId>
    decreases v.len(),
{
    if v.len() == 0 {
        Map::empty()
    } else {
        scripts_map(v.drop_last()).insert(v.last().0@, v.last().1)
    }
}

/// The scripts of the world, by name.
pub struct Scripts {
    by_name: Vec<(ScriptName, EntityId)>,
}

impl Default for Scripts {
    fn default() -> (s: Scripts)
        ensures
            s@ == Map::<Seq<char>, EntityId>::empty(),
    {
        Scripts { by_name: Vec::new() }
    }
}

impl View for Scripts {
    type V = Map<Seq<char>, EntityId>;

    closed spec fn view(&self) -> Map<Seq<char>, EntityId> {
        scripts_map(self.by_name@)
    }
}

impl Scripts {
    pub fn insert(&mut self, name: ScriptName, script: EntityId)
        ensures
            final(self)@ == old(self)@.insert(name@, script),
    {
        self.remove(&name);
        let ghost before = self.by_name@;
        self.by_name.push((name, script));
        proof {
            assert(self.by_name@.drop_last() == before);
        }
        assert(self@ =~= old(self)@.insert(name@, script));
    }

    pub fn remove(&mut self, name: &ScriptName)
        ensures
            final(self)@ == old(self)@.remove(name@),
    {
        let ghost all = self.by_name@;
        let mut kept: Vec<(ScriptName, EntityId)> = Vec::new();
        let mut old_list: Vec<(ScriptName, EntityId)> = Vec::new();
        std::mem::swap(&mut old_list, &mut self.by_name);
        assert(old_list@ == all);
        let mut i: usize = 0;
        while i < old_list.len()
            invariant
                i <= old_list.len(),
                old_list@ == all,
                scripts_map(kept@) == scripts_map(all.take(i as int)).remove(name@),
            decreases old_list.len() - i,
        {
            let ghost prev = scripts_map(all.take(i as int));
            proof {
                assert(all.take(i + 1).drop_last() =~= all.take(i as int));
                assert(all.take(i + 1).last() == all[i as int]);
            }
            if !old_list[i].0.same(name) {
                let ghost km = scripts_map(kept@);
                let ghost ks = kept@;
                let entry = (old_list[i].0.duplicate(), old_list[i].1);
                kept.push(entry);
                proof {
                    assert(kept@.drop_last() =~= ks);
                    assert(kept@.last().0@ == all[i as int].0@);
                    assert(scripts_map(kept@) == km.insert(all[i as int].0@, all[i as int].1));
                    assert(scripts_map(kept@) =~= prev.insert(all[i as int].0@, all[i as int].1).remove(name@));
                }
            } else {
                proof {
                    assert(scripts_map(kept@) =~= prev.insert(all[i as int].0@, all[i as int].1).remove(name@));
                }
            }
            i = i + 1;
        }
        assert(all.take(all.len() as int) =~= all);
        self.by_name = kept;
    }

    pub fn by_name(&self, name: &ScriptName) -> (r: Option<EntityId>)
        ensures
            r == (if self@.dom().contains(name@) {
                Some(self@[name@])
            } else {
                None
            }),
    {
        let mut i: usize = self.by_name.len();
        assert(self.by_name@.take(i as int) =~= self.by_name@);
        while i > 0
            invariant
                i <= self.by_name.len(),
                forall|k: int| i <= k < self.by_name.len() ==> self.by_name@[k].0@ != name@,
                scripts_map(self.by_name@).dom().contains(name@) ==> scripts_map(self.by_name@.take(i as int)).dom().contains(name@)
                    && scripts_map(self.by_name@)[name@] == scripts_map(self.by_name@.take(i as int))[name@],
                !scripts_map(self.by_name@).dom().contains(name@) ==> !scripts_map(self.by_name@.take(i as int)).dom().contains(name@),
            decreases i,
        {
            proof {
                assert(self.by_name@.take(i as int).drop_last() =~= self.by_name@.take(i - 1));
                assert(self.by_name@.take(i as int).last() == self.by_name@[i - 1]);
            }
            if self.by_name[i - 1].0.same(name) {
                return Some(self.by_name[i - 1].1);
            }
            i = i - 1;
        }
        None
    }
}

} // verus!

verus! {

/// A script's entity read back after inserting it is that entity; after removing the
/// name there is none; other names keep theirs.
pub proof fn scripts_read_after_write(m: Map<Seq<char>, EntityId>, n: Seq<char>, e: EntityId, other: Seq<char>)
    requires
        other != n,
    ensures
        m.insert(n, e).dom().contains(n) && m.insert(n, e)[n] == e,
        !m.remove(n).dom().contains(n),
        m.insert(n, e).dom().contains(other) == m.dom().contains(other),
        m.dom().contains(other) ==> m.insert(n, e)[other] == m[other] && m.remove(n)[other] == m[other],
{
}

} // verus!
