use vstd::prelude::*;
use crate::chars::chars_of;
use crate::persist::script::{Create, Remove, Update};
use crate::scripts::{
    script_name_valid, trigger_event_name, trigger_event_names_distinct, Script, ScriptName,
    ScriptView, TriggerEvent,
};

verus! {

/// Where a script failed to compile, and why.
pub struct JsonParseError {
    line: Option<usize>,
    position: Option<usize>,
    message: String,
}

/// A compilation error as plain values.
pub struct ParseErrorView {
    pub line: Option<usize>,
    pub position: Option<usize>,
    pub message: Seq<char>,
}

impl View for JsonParseError {
    type V = ParseErrorView;

    closed spec fn view(&self) -> ParseErrorView {
        ParseErrorView { line: self.line, position: self.position, message: self.message@ }
    }
}

pub open spec fn error_view(e: Option<JsonParseError>) -> Option<ParseErrorView> {
    match e {
        Some(e) => Some(e@),
        None => None,
    }
}

impl JsonParseError {
    pub fn new(line: Option<usize>, position: Option<usize>, message: String) -> (e: JsonParseError)
        ensures
            e@ == (ParseErrorView { line, position, message: message@ }),
    {
        JsonParseError { line, position, message }
    }

    pub fn line(&self) -> (l: Option<usize>)
        ensures
            l == self@.line,
    {
        self.line
    }

    pub fn position(&self) -> (p: Option<usize>)
        ensures
            p == self@.position,
    {
        self.position
    }

    pub fn message(&self) -> (m: &str)
        ensures
            m@ == self@.message,
    {
        self.message.as_str()
    }

    pub fn duplicate(&self) -> (e: JsonParseError)
        ensures
            e@ == self@,
    {
        JsonParseError { line: self.line, position: self.position, message: self.message.clone() }
    }
}

pub fn duplicate_error(e: &Option<JsonParseError>) -> (r: Option<JsonParseError>)
    ensures
        error_view(r) == error_view(*e),
{
    match e {
        Some(e) => Some(e.duplicate()),
        None => None,
    }
}

/// Why a request about scripts was refused.
#[derive(Debug, Copy, Clone, PartialEq, Eq, Structural)]
pub enum ScriptError {
    BadTrigger,
    BadScriptName,
    DuplicateName,
    ScriptNotFound,
}

pub open spec fn script_error_message(e: ScriptError) -> Seq<char> {
    match e {
        ScriptError::BadTrigger => "bad trigger name"@,
        ScriptError::BadScriptName => "bad script name"@,
        ScriptError::DuplicateName => "duplicate script found"@,
        ScriptError::ScriptNotFound => "script not found"@,
    }
}

impl ScriptError {
    pub fn message(&self) -> (s: String)
        ensures
            s@ == script_error_message(*self),
    {
        match self {
            ScriptError::BadTrigger => "bad trigger name".to_owned(),
            ScriptError::BadScriptName => "bad script name".to_owned(),
            ScriptError::DuplicateName => "duplicate script found".to_owned(),
            ScriptError::ScriptNotFound => "script not found".to_owned(),
        }
    }
}

/// The name of a script, as a request carries it.
pub struct JsonScriptName {
    pub name: String,
}

impl JsonScriptName {
    pub fn as_str(&self) -> (s: &str)
        ensures
            s@ == self.name@,
    {
        self.name.as_str()
    }
}

/// A script, as a request carries it.
pub struct JsonScript {
    pub name: String,
    pub trigger: String,
    pub code: String,
}

impl JsonScript {
    pub fn name(&self) -> (s: &str)
        ensures
            s@ == self.name@,
    {
        self.name.as_str()
    }
}

/// A stored script and its compilation error, as a response carries them.
pub struct JsonScriptResponse {
    pub name: String,
    pub trigger: String,
    pub code: String,
    pub error: Option<JsonParseError>,
}

impl JsonScriptResponse {
    pub fn new(script: Script, error: Option<JsonParseError>) -> (r: JsonScriptResponse)
        ensures
            r.name@ == script@.name,
            r.trigger@ == trigger_event_name(script@.trigger),
            r.code@ == script@.code,
            error_view(r.error) == error_view(error),
    {
        let (name, trigger, code) = script.into_parts();
        JsonScriptResponse { name: name.into_string(), trigger: trigger.name(), code, error }
    }
}

/// How many newline characters a text holds.
pub open spec fn newline_count(s: Seq<char>) -> nat
    decreases s.len(),
{
    if s.len() == 0 {
        0
    } else {
        newline_count(s.drop_last()) + if s.last() == '\n' {
            1nat
        } else {
            0nat
        }
    }
}

/// How many lines a text has: one per newline, and one more for text after the last
/// newline.
pub open spec fn line_count(s: Seq<char>) -> nat {
    newline_count(s) + if s.len() > 0 && s.last() != '\n' {
        1nat
    } else {
        0nat
    }
}

proof fn lemma_newline_count_bound(s: Seq<char>)
    ensures
        newline_count(s) <= s.len(),
    decreases s.len(),
{
    if s.len() > 0 {
        lemma_newline_count_bound(s.drop_last());
    }
}

/// Counts the lines of a text.
pub fn count_lines(s: &str) -> (n: usize)
    ensures
        n == line_count(s@),
{
    let v = chars_of(s);
    let mut count: usize = 0;
    let mut i: usize = 0;
    while i < v.len()
        invariant
            v@ == s@,
            i <= v.len(),
            count == newline_count(v@.take(i as int)),
        decreases v.len() - i,
    {
        proof {
            lemma_newline_count_bound(v@.take(i as int));
            assert(v@.take((i + 1) as int).drop_last() == v@.take(i as int));
        }
        if v[i] == '\n' {
            count = count + 1;
        }
        i = i + 1;
    }
    assert(v@.take(v.len() as int) == v@);
    if v.len() > 0 && v[v.len() - 1] != '\n' {
        proof {
            lemma_newline_count_bound(v@.drop_last());
            assert(newline_count(v@) == newline_count(v@.drop_last()));
        }
        count = count + 1;
    }
    count
}

/// A stored script's name, trigger, length in lines and compilation error.
pub struct JsonScriptInfo {
    pub name: String,
    pub trigger: String,
    pub lines: usize,
    pub error: Option<JsonParseError>,
}

impl JsonScriptInfo {
    pub fn new(script: Script, error: Option<JsonParseError>) -> (r: JsonScriptInfo)
        ensures
            r.name@ == script@.name,
            r.trigger@ == trigger_event_name(script@.trigger),
            r.lines == line_count(script@.code),
            error_view(r.error) == error_view(error),
    {
        let (name, trigger, code) = script.into_parts();
        let lines = count_lines(code.as_str());
        JsonScriptInfo { name: name.into_string(), trigger: trigger.name(), lines, error }
    }
}

/// The answer to a script being stored: its compilation error, if any.
pub struct CompileResponse {
    pub error: Option<JsonParseError>,
}

/// A failure that the client is not told the details of.
#[derive(Debug, Copy, Clone, PartialEq, Eq, Structural)]
pub struct InternalError {}

/// An empty answer.
#[derive(Debug, Copy, Clone, PartialEq, Eq, Structural)]
pub struct JsonEmpty {}

/// The player a request was authenticated as.
pub struct Player {
    name: String,
}

impl Player {
    pub closed spec fn view_name(&self) -> Seq<char> {
        self.name@
    }

    pub fn new(name: String) -> (p: Player)
        ensures
            p.view_name() == name@,
    {
        Player { name }
    }

    pub fn name(&self) -> (s: &str)
        ensures
            s@ == self.view_name(),
    {
        self.name.as_str()
    }
}

/// A request about scripts.
pub enum ScriptsRequest {
    CreateScript(JsonScript),
    ReadScript(JsonScriptName),
    ReadAllScripts,
    UpdateScript(JsonScript),
    DeleteScript(JsonScriptName),
}

/// The answer to a request about scripts.
pub enum ScriptsResponse {
    Done,
    Error(ScriptError),
    Script(JsonScriptResponse),
    ScriptCompiled(Option<JsonParseError>),
    ScriptList(Vec<JsonScriptInfo>),
}

/// A stored script and its compilation error, as plain values.
pub struct StoredScript {
    pub script: ScriptView,
    pub error: Option<ParseErrorView>,
}

/// No two stored scripts share a name, and every name is a valid script name.
pub open spec fn names_unique(s: Seq<StoredScript>) -> bool {
    &&& forall|i: int, j: int|
        0 <= i < s.len() && 0 <= j < s.len() && i != j ==> #[trigger] s[i].script.name != #[trigger] s[j].script.name
    &&& forall|i: int| 0 <= i < s.len() ==> script_name_valid(#[trigger] s[i].script.name)
}

/// Whether a script of this name is stored.
pub open spec fn has_script(s: Seq<StoredScript>, name: Seq<char>) -> bool {
    exists|i: int| 0 <= i < s.len() && #[trigger] s[i].script.name == name
}

/// Where the script of this name is stored.
pub open spec fn script_index(s: Seq<StoredScript>, name: Seq<char>) -> int {
    choose|i: int| 0 <= i < s.len() && #[trigger] s[i].script.name == name
}

/// A change to the stored scripts that is still to be written to the database.
pub enum ScriptChange {
    Create(Box<Create>),
    Update(Box<Update>),
    Remove(Box<Remove>),
}

/// A pending change as plain values.
pub enum ChangeView {
    Create(Seq<char>, Seq<char>, Seq<char>),
    Update(Seq<char>, Seq<char>, Seq<char>),
    Remove(Seq<char>),
}

impl View for ScriptChange {
    type V = ChangeView;

    open spec fn view(&self) -> ChangeView {
        match self {
            ScriptChange::Create(c) => ChangeView::Create(c.view_parts().0, c.view_parts().1, c.view_parts().2),
            ScriptChange::Update(u) => ChangeView::Update(u.view_parts().0, u.view_parts().1, u.view_parts().2),
            ScriptChange::Remove(r) => ChangeView::Remove(r.view_name()),
        }
    }
}

pub open spec fn changes_view(s: Seq<ScriptChange>) -> Seq<ChangeView> {
    s.map_values(|c: ScriptChange| c@)
}

struct ScriptEntry {
    script: Script,
    error: Option<JsonParseError>,
}

impl ScriptEntry {
    closed spec fn stored(&self) -> StoredScript {
        StoredScript { script: self.script@, error: error_view(self.error) }
    }
}

spec fn entries_view(s: Seq<ScriptEntry>) -> Seq<StoredScript> {
    s.map_values(|e: ScriptEntry| e.stored())
}

/// The scripts of the world, each with the error it compiled with, and the changes to
/// them that are still to be stored.
pub struct ScriptLibrary {
    entries: Vec<ScriptEntry>,
    pending: Vec<ScriptChange>,
}

impl ScriptLibrary {
    /// The stored scripts, in the order they were created.
    pub closed spec fn scripts(&self) -> Seq<StoredScript> {
        entries_view(self.entries@)
    }

    /// The changes still to be written, in order.
    pub closed spec fn changes(&self) -> Seq<ChangeView> {
        changes_view(self.pending@)
    }

    pub open spec fn wf(&self) -> bool {
        names_unique(self.scripts())
    }

    pub fn new() -> (l: ScriptLibrary)
        ensures
            l.wf(),
            l.scripts() == Seq::<StoredScript>::empty(),
            l.changes() == Seq::<ChangeView>::empty(),
    {
        let l = ScriptLibrary { entries: Vec::new(), pending: Vec::new() };
        assert(l.scripts() =~= Seq::<StoredScript>::empty());
        assert(l.changes() =~= Seq::<ChangeView>::empty());
        l
    }

    /// Where the script of this name is stored, if it is.
    fn find(&self, name: &ScriptName) -> (r: Option<usize>)
        requires
            self.wf(),
        ensures
            match r {
                Some(i) => has_script(self.scripts(), name@) && i == script_index(self.scripts(), name@)
                    && i < self.scripts().len(),
                None => !has_script(self.scripts(), name@),
            },
    {
        let ghost s = self.scripts();
        let mut i: usize = 0;
        while i < self.entries.len()
            invariant
                s == self.scripts(),
                s.len() == self.entries.len(),
                names_unique(s),
                i <= self.entries.len(),
                forall|k: int| 0 <= k < i ==> #[trigger] s[k].script.name != name@,
            decreases self.entries.len() - i,
        {
            if self.entries[i].script.name().same(name) {
                assert(s[i as int].script.name == name@);
                proof {
                    assert(has_script(s, name@));
                    let j = script_index(s, name@);
                    assert(s[j].script.name == name@);
                }
                return Some(i);
            }
            i = i + 1;
        }
        None
    }

    /// Stores a new script with the error it compiled with; a script of the same name must
    /// not be stored yet.
    pub fn create(&mut self, script: Script, compiled: Option<JsonParseError>) -> (r: Result<Option<JsonParseError>, ScriptError>)
        requires
            old(self).wf(),
            script_name_valid(script@.name),
        ensures
            final(self).wf(),
            has_script(old(self).scripts(), script@.name) ==> r == Err::<Option<JsonParseError>, ScriptError>(ScriptError::DuplicateName)
                && final(self).scripts() == old(self).scripts() && final(self).changes() == old(self).changes(),
            !has_script(old(self).scripts(), script@.name) ==> (r matches Ok(e) && error_view(e) == error_view(compiled))
                && final(self).scripts() == old(self).scripts().push(StoredScript { script: script@, error: error_view(compiled) })
                && final(self).changes() == old(self).changes().push(ChangeView::Create(
                    script@.name, trigger_event_name(script@.trigger), script@.code)),
    {
        if self.find(script.name()).is_some() {
            return Err(ScriptError::DuplicateName);
        }
        let ghost sv = script@;
        let change = Create::new(script.name().as_str().to_owned(), script.trigger().name(), script.code());
        let result = duplicate_error(&compiled);
        let ghost old_scripts = self.scripts();
        self.entries.push(ScriptEntry { script, error: compiled });
        self.pending.push(ScriptChange::Create(change));
        proof {
            assert(self.scripts() =~= old_scripts.push(StoredScript { script: sv, error: error_view(result) }));
            assert(self.changes() =~= old(self).changes().push(ChangeView::Create(
                sv.name, trigger_event_name(sv.trigger), sv.code)));
            let t = self.scripts();
            assert forall|i: int, j: int|
                0 <= i < t.len() && 0 <= j < t.len() && i != j implies #[trigger] t[i].script.name != #[trigger] t[j].script.name by {
                if i < old_scripts.len() && j < old_scripts.len() {
                    assert(t[i] == old_scripts[i]);
                    assert(t[j] == old_scripts[j]);
                } else if i < old_scripts.len() {
                    assert(t[i] == old_scripts[i]);
                } else {
                    assert(t[j] == old_scripts[j]);
                }
            }
            assert forall|i: int| 0 <= i < t.len() implies script_name_valid(#[trigger] t[i].script.name) by {
                if i < old_scripts.len() {
                    assert(t[i] == old_scripts[i]);
                }
            }
        }
        Ok(result)
    }

    /// The script of this name and the error it compiled with.
    pub fn read(&self, name: &ScriptName) -> (r: Result<(Script, Option<JsonParseError>), ScriptError>)
        requires
            self.wf(),
        ensures
            !has_script(self.scripts(), name@) ==> r == Err::<(Script, Option<JsonParseError>), ScriptError>(ScriptError::ScriptNotFound),
            has_script(self.scripts(), name@) ==> (r matches Ok((s, e)) && (StoredScript { script: s@, error: error_view(e) })
                == self.scripts()[script_index(self.scripts(), name@)]),
    {
        match self.find(name) {
            Some(i) => {
                let entry = &self.entries[i];
                let ghost st = entry.stored();
                assert(st == self.scripts()[i as int]);
                Ok((entry.script.duplicate(), duplicate_error(&entry.error)))
            },
            None => Err(ScriptError::ScriptNotFound),
        }
    }

    /// Every stored script with the error it compiled with, in the order they were created.
    pub fn read_all(&self) -> (r: Vec<(Script, Option<JsonParseError>)>)
        ensures
            r.len() == self.scripts().len(),
            forall|i: int| 0 <= i < r.len() ==> (StoredScript { script: (#[trigger] r[i]).0@, error: error_view(r[i].1) })
                == self.scripts()[i],
    {
        let mut r: Vec<(Script, Option<JsonParseError>)> = Vec::new();
        let mut i: usize = 0;
        while i < self.entries.len()
            invariant
                i <= self.entries.len(),
                r.len() == i,
                forall|k: int| 0 <= k < i ==> (StoredScript { script: (#[trigger] r[k]).0@, error: error_view(r[k].1) })
                    == self.scripts()[k],
            decreases self.entries.len() - i,
        {
            let entry = &self.entries[i];
            r.push((entry.script.duplicate(), duplicate_error(&entry.error)));
            i = i + 1;
        }
        r
    }

    /// Replaces a stored script, keeping its place, with the error the new code compiled with.
    pub fn update(&mut self, script: Script, compiled: Option<JsonParseError>) -> (r: Result<Option<JsonParseError>, ScriptError>)
        requires
            old(self).wf(),
        ensures
            final(self).wf(),
            !has_script(old(self).scripts(), script@.name) ==> r == Err::<Option<JsonParseError>, ScriptError>(ScriptError::ScriptNotFound)
                && final(self).scripts() == old(self).scripts() && final(self).changes() == old(self).changes(),
            has_script(old(self).scripts(), script@.name) ==> (r matches Ok(e) && error_view(e) == error_view(compiled))
                && final(self).scripts() == old(self).scripts().update(
                    script_index(old(self).scripts(), script@.name),
                    StoredScript { script: script@, error: error_view(compiled) })
                && final(self).changes() == old(self).changes().push(ChangeView::Update(
                    script@.name, trigger_event_name(script@.trigger), script@.code)),
    {
        let found = self.find(script.name());
        match found {
            None => Err(ScriptError::ScriptNotFound),
            Some(i) => {
                let ghost sv = script@;
                let ghost old_scripts = self.scripts();
                let change = Update::new(script.name().as_str().to_owned(), script.trigger().name(), script.code());
                let result = duplicate_error(&compiled);
                self.entries.set(i, ScriptEntry { script, error: compiled });
                self.pending.push(ScriptChange::Update(change));
                proof {
                    assert(self.scripts() =~= old_scripts.update(i as int, StoredScript { script: sv, error: error_view(result) }));
                    assert(self.changes() =~= old(self).changes().push(ChangeView::Update(
                        sv.name, trigger_event_name(sv.trigger), sv.code)));
                    let t = self.scripts();
                    assert forall|a: int, b: int|
                        0 <= a < t.len() && 0 <= b < t.len() && a != b implies #[trigger] t[a].script.name != #[trigger] t[b].script.name by {
                        if a != i && b != i {
                            assert(t[a] == old_scripts[a]);
                            assert(t[b] == old_scripts[b]);
                        } else if a == i {
                            assert(t[b] == old_scripts[b]);
                            assert(old_scripts[i as int].script.name == sv.name);
                        } else {
                            assert(t[a] == old_scripts[a]);
                            assert(old_scripts[i as int].script.name == sv.name);
                        }
                    }
                    assert forall|a: int| 0 <= a < t.len() implies script_name_valid(#[trigger] t[a].script.name) by {
                        if a != i {
                            assert(t[a] == old_scripts[a]);
                        } else {
                            assert(old_scripts[i as int].script.name == sv.name);
                        }
                    }
                }
                Ok(result)
            },
        }
    }

    /// Removes the script of this name.
    pub fn delete(&mut self, name: &ScriptName) -> (r: Result<(), ScriptError>)
        requires
            old(self).wf(),
        ensures
            final(self).wf(),
            !has_script(old(self).scripts(), name@) ==> r == Err::<(), ScriptError>(ScriptError::ScriptNotFound)
                && final(self).scripts() == old(self).scripts() && final(self).changes() == old(self).changes(),
            has_script(old(self).scripts(), name@) ==> r is Ok
                && final(self).scripts() == old(self).scripts().remove(script_index(old(self).scripts(), name@))
                && final(self).changes() == old(self).changes().push(ChangeView::Remove(name@)),
    {
        match self.find(name) {
            None => Err(ScriptError::ScriptNotFound),
            Some(i) => {
                let ghost old_scripts = self.scripts();
                let change = Remove::new(name.as_str().to_owned());
                self.entries.remove(i);
                self.pending.push(ScriptChange::Remove(change));
                proof {
                    assert(self.scripts() =~= old_scripts.remove(i as int));
                    assert(self.changes() =~= old(self).changes().push(ChangeView::Remove(name@)));
                    let t = self.scripts();
                    assert forall|a: int, b: int|
                        0 <= a < t.len() && 0 <= b < t.len() && a != b implies #[trigger] t[a].script.name != #[trigger] t[b].script.name by {
                        let oa = if a < i { a } else { a + 1 };
                        let ob = if b < i { b } else { b + 1 };
                        assert(t[a] == old_scripts[oa]);
                        assert(t[b] == old_scripts[ob]);
                    }
                    assert forall|a: int| 0 <= a < t.len() implies script_name_valid(#[trigger] t[a].script.name) by {
                        let oa = if a < i { a } else { a + 1 };
                        assert(t[a] == old_scripts[oa]);
                    }
                }
                Ok(())
            },
        }
    }

    /// Hands out the changes still to be written, leaving none.
    pub fn take_updates(&mut self) -> (v: Vec<ScriptChange>)
        ensures
            changes_view(v@) == old(self).changes(),
            final(self).changes() == Seq::<ChangeView>::empty(),
            final(self).scripts() == old(self).scripts(),
    {
        let mut v: Vec<ScriptChange> = Vec::new();
        std::mem::swap(&mut v, &mut self.pending);
        assert(self.changes() =~= Seq::<ChangeView>::empty());
        v
    }
}


/// Whether some trigger event has this name.
pub open spec fn names_event(trigger: Seq<char>) -> bool {
    exists|t: TriggerEvent| trigger_event_name(t) == trigger
}

/// The trigger event of this name.
pub open spec fn event_named(trigger: Seq<char>) -> TriggerEvent {
    choose|t: TriggerEvent| trigger_event_name(t) == trigger
}

/// What is wrong with a script's name and trigger, checked in that order, if anything.
pub open spec fn script_text_error(name: Seq<char>, trigger: Seq<char>) -> Option<ScriptError> {
    if !script_name_valid(name) {
        Some(ScriptError::BadScriptName)
    } else if !names_event(trigger) {
        Some(ScriptError::BadTrigger)
    } else {
        None
    }
}

/// A script's name, trigger and code checked and turned into a script.
fn parse_script(name: String, trigger: String, code: String) -> (r: Result<Script, ScriptError>)
    ensures
        match script_text_error(name@, trigger@) {
            Some(e) => r == Err::<Script, ScriptError>(e),
            None => r matches Ok(s) && s@ == (ScriptView { name: name@, trigger: event_named(trigger@), code: code@ }),
        },
{
    let ghost nv = name@;
    let name = match ScriptName::try_from_string(name) {
        Ok(n) => n,
        Err(_) => return Err(ScriptError::BadScriptName),
    };
    match TriggerEvent::from_name(trigger.as_str()) {
        Some(t) => {
            proof {
                let c = event_named(trigger@);
                assert(trigger_event_name(c) == trigger@);
                trigger_event_names_distinct(t, c);
            }
            Ok(Script::new(name, t, code))
        },
        None => Err(ScriptError::BadTrigger),
    }
}

/// A request about scripts, as plain values.
pub enum RequestView {
    Create(Seq<char>, Seq<char>, Seq<char>),
    Read(Seq<char>),
    ReadAll,
    Update(Seq<char>, Seq<char>, Seq<char>),
    Delete(Seq<char>),
}

impl View for ScriptsRequest {
    type V = RequestView;

    open spec fn view(&self) -> RequestView {
        match self {
            ScriptsRequest::CreateScript(s) => RequestView::Create(s.name@, s.trigger@, s.code@),
            ScriptsRequest::ReadScript(n) => RequestView::Read(n.name@),
            ScriptsRequest::ReadAllScripts => RequestView::ReadAll,
            ScriptsRequest::UpdateScript(s) => RequestView::Update(s.name@, s.trigger@, s.code@),
            ScriptsRequest::DeleteScript(n) => RequestView::Delete(n.name@),
        }
    }
}

/// A script as a response shows it: name, trigger name, code and compilation error.
pub struct ShownScript {
    pub name: Seq<char>,
    pub trigger: Seq<char>,
    pub code: Seq<char>,
    pub error: Option<ParseErrorView>,
}

/// A script as a listing shows it: name, trigger name, lines and compilation error.
pub struct ListedScript {
    pub name: Seq<char>,
    pub trigger: Seq<char>,
    pub lines: nat,
    pub error: Option<ParseErrorView>,
}

/// An answer about scripts, as plain values.
pub enum ResponseView {
    Done,
    Error(ScriptError),
    Script(ShownScript),
    ScriptCompiled(Option<ParseErrorView>),
    ScriptList(Seq<ListedScript>),
}

pub open spec fn shown(r: &JsonScriptResponse) -> ShownScript {
    ShownScript { name: r.name@, trigger: r.trigger@, code: r.code@, error: error_view(r.error) }
}

pub open spec fn listed(i: &JsonScriptInfo) -> ListedScript {
    ListedScript { name: i.name@, trigger: i.trigger@, lines: i.lines as nat, error: error_view(i.error) }
}

impl View for ScriptsResponse {
    type V = ResponseView;

    open spec fn view(&self) -> ResponseView {
        match self {
            ScriptsResponse::Done => ResponseView::Done,
            ScriptsResponse::Error(e) => ResponseView::Error(*e),
            ScriptsResponse::Script(r) => ResponseView::Script(shown(r)),
            ScriptsResponse::ScriptCompiled(e) => ResponseView::ScriptCompiled(error_view(*e)),
            ScriptsResponse::ScriptList(v) => ResponseView::ScriptList(v@.map_values(|i: JsonScriptInfo| listed(&i))),
        }
    }
}

pub open spec fn show_stored(s: StoredScript) -> ShownScript {
    ShownScript { name: s.script.name, trigger: trigger_event_name(s.script.trigger), code: s.script.code, error: s.error }
}

pub open spec fn list_stored(s: StoredScript) -> ListedScript {
    ListedScript {
        name: s.script.name,
        trigger: trigger_event_name(s.script.trigger),
        lines: line_count(s.script.code),
        error: s.error,
    }
}

/// The answer to a request, given the stored scripts and the compilation error of the
/// request's code.
pub open spec fn web_response(s: Seq<StoredScript>, req: RequestView, compiled: Option<ParseErrorView>) -> ResponseView {
    match req {
        RequestView::Create(name, trigger, code) => match script_text_error(name, trigger) {
            Some(e) => ResponseView::Error(e),
            None => if has_script(s, name) {
                ResponseView::Error(ScriptError::DuplicateName)
            } else {
                ResponseView::ScriptCompiled(compiled)
            },
        },
        RequestView::Read(name) => if !script_name_valid(name) {
            ResponseView::Error(ScriptError::BadScriptName)
        } else if !has_script(s, name) {
            ResponseView::Error(ScriptError::ScriptNotFound)
        } else {
            ResponseView::Script(show_stored(s[script_index(s, name)]))
        },
        RequestView::ReadAll => ResponseView::ScriptList(s.map_values(|x: StoredScript| list_stored(x))),
        RequestView::Update(name, trigger, code) => match script_text_error(name, trigger) {
            Some(e) => ResponseView::Error(e),
            None => if !has_script(s, name) {
                ResponseView::Error(ScriptError::ScriptNotFound)
            } else {
                ResponseView::ScriptCompiled(compiled)
            },
        },
        RequestView::Delete(name) => if !script_name_valid(name) {
            ResponseView::Error(ScriptError::BadScriptName)
        } else if !has_script(s, name) {
            ResponseView::Error(ScriptError::ScriptNotFound)
        } else {
            ResponseView::Done
        },
    }
}

/// The stored scripts after a request.
pub open spec fn web_scripts_after(s: Seq<StoredScript>, req: RequestView, compiled: Option<ParseErrorView>) -> Seq<StoredScript> {
    match req {
        RequestView::Create(name, trigger, code) => if script_text_error(name, trigger) is None && !has_script(s, name) {
            s.push(StoredScript { script: ScriptView { name, trigger: event_named(trigger), code }, error: compiled })
        } else {
            s
        },
        RequestView::Update(name, trigger, code) => if script_text_error(name, trigger) is None && has_script(s, name) {
            s.update(script_index(s, name), StoredScript { script: ScriptView { name, trigger: event_named(trigger), code }, error: compiled })
        } else {
            s
        },
        RequestView::Delete(name) => if script_name_valid(name) && has_script(s, name) {
            s.remove(script_index(s, name))
        } else {
            s
        },
        _ => s,
    }
}

/// The changes a request leaves to be written.
pub open spec fn web_changes(s: Seq<StoredScript>, req: RequestView) -> Seq<ChangeView> {
    match req {
        RequestView::Create(name, trigger, code) => if script_text_error(name, trigger) is None && !has_script(s, name) {
            seq![ChangeView::Create(name, trigger, code)]
        } else {
            Seq::empty()
        },
        RequestView::Update(name, trigger, code) => if script_text_error(name, trigger) is None && has_script(s, name) {
            seq![ChangeView::Update(name, trigger, code)]
        } else {
            Seq::empty()
        },
        RequestView::Delete(name) => if script_name_valid(name) && has_script(s, name) {
            seq![ChangeView::Remove(name)]
        } else {
            Seq::empty()
        },
        _ => Seq::empty(),
    }
}

impl ScriptLibrary {
    /// Answers a request about scripts. `compiled` is the error the request's code
    /// compiled with, for a request that stores code.
    pub fn process_web(&mut self, request: ScriptsRequest, compiled: Option<JsonParseError>) -> (r: ScriptsResponse)
        requires
            old(self).wf(),
        ensures
            final(self).wf(),
            r@ == web_response(old(self).scripts(), request@, error_view(compiled)),
            final(self).scripts() == web_scripts_after(old(self).scripts(), request@, error_view(compiled)),
            final(self).changes() == old(self).changes() + web_changes(old(self).scripts(), request@),
    {
        let ghost rv = request@;
        let ghost cv = error_view(compiled);
        match request {
            ScriptsRequest::CreateScript(JsonScript { name, trigger, code }) => {
                match parse_script(name, trigger, code) {
                    Ok(script) => {
                        proof {
                            reveal_trigger_round_trip(script@.trigger);
                        }
                        match self.create(script, compiled) {
                            Ok(e) => ScriptsResponse::ScriptCompiled(e),
                            Err(e) => ScriptsResponse::Error(e),
                        }
                    },
                    Err(e) => {
                        assert(self.changes() =~= old(self).changes() + Seq::<ChangeView>::empty());
                        ScriptsResponse::Error(e)
                    },
                }
            },
            ScriptsRequest::ReadScript(JsonScriptName { name }) => {
                assert(self.changes() =~= old(self).changes() + Seq::<ChangeView>::empty());
                match ScriptName::try_from_string(name) {
                    Ok(n) => match self.read(&n) {
                        Ok((script, error)) => ScriptsResponse::Script(JsonScriptResponse::new(script, error)),
                        Err(e) => ScriptsResponse::Error(e),
                    },
                    Err(_) => ScriptsResponse::Error(ScriptError::BadScriptName),
                }
            },
            ScriptsRequest::ReadAllScripts => {
                assert(self.changes() =~= old(self).changes() + Seq::<ChangeView>::empty());
                let all = self.read_all();
                let mut infos: Vec<JsonScriptInfo> = Vec::new();
                let mut rest = all;
                let ghost s = self.scripts();
                let ghost n = rest.len();
                let mut i: usize = 0;
                while rest.len() > 0
                    invariant
                        i + rest.len() == n,
                        n == s.len(),
                        s == self.scripts(),
                        infos.len() == i,
                        forall|k: int| 0 <= k < i ==> listed(&#[trigger] infos@[k]) == list_stored(s[k]),
                        forall|k: int| 0 <= k < rest.len() ==> (StoredScript { script: (#[trigger] rest@[k]).0@, error: error_view(rest@[k].1) })
                            == s[i + k],
                    decreases rest.len(),
                {
                    let ghost before = rest@;
                    let (script, error) = rest.remove(0);
                    let info = JsonScriptInfo::new(script, error);
                    infos.push(info);
                    proof {
                        assert forall|k: int| 0 <= k < rest.len() implies (StoredScript { script: (#[trigger] rest@[k]).0@, error: error_view(rest@[k].1) })
                            == s[i + 1 + k] by {
                            assert(rest@[k] == before[k + 1]);
                        }
                    }
                    i = i + 1;
                }
                let r = ScriptsResponse::ScriptList(infos);
                assert(infos@.map_values(|x: JsonScriptInfo| listed(&x)) =~= s.map_values(|x: StoredScript| list_stored(x)));
                r
            },
            ScriptsRequest::UpdateScript(JsonScript { name, trigger, code }) => {
                match parse_script(name, trigger, code) {
                    Ok(script) => match self.update(script, compiled) {
                        Ok(e) => ScriptsResponse::ScriptCompiled(e),
                        Err(e) => ScriptsResponse::Error(e),
                    },
                    Err(e) => {
                        assert(self.changes() =~= old(self).changes() + Seq::<ChangeView>::empty());
                        ScriptsResponse::Error(e)
                    },
                }
            },
            ScriptsRequest::DeleteScript(JsonScriptName { name }) => {
                match ScriptName::try_from_string(name) {
                    Ok(n) => match self.delete(&n) {
                        Ok(()) => ScriptsResponse::Done,
                        Err(e) => ScriptsResponse::Error(e),
                    },
                    Err(_) => {
                        assert(self.changes() =~= old(self).changes() + Seq::<ChangeView>::empty());
                        ScriptsResponse::Error(ScriptError::BadScriptName)
                    },
                }
            },
        }
    }
}

proof fn reveal_trigger_round_trip(t: TriggerEvent)
    ensures
        event_named(trigger_event_name(t)) == t,
{
    let c = event_named(trigger_event_name(t));
    assert(trigger_event_name(c) == trigger_event_name(t));
    trigger_event_names_distinct(t, c);
}


/// After a script is created, reading its name gives back the script as it was written,
/// with the error its code compiled with.
pub proof fn read_after_create(s: Seq<StoredScript>, name: Seq<char>, trigger: Seq<char>, code: Seq<char>,
    compiled: Option<ParseErrorView>, other: Option<ParseErrorView>)
    requires
        names_unique(s),
        script_text_error(name, trigger) is None,
        !has_script(s, name),
    ensures
        web_response(s, RequestView::Create(name, trigger, code), compiled) == ResponseView::ScriptCompiled(compiled),
        web_response(
            web_scripts_after(s, RequestView::Create(name, trigger, code), compiled),
            RequestView::Read(name),
            other,
        ) == ResponseView::Script(ShownScript { name, trigger, code, error: compiled }),
{
    let t = web_scripts_after(s, RequestView::Create(name, trigger, code), compiled);
    let x = StoredScript { script: ScriptView { name, trigger: event_named(trigger), code }, error: compiled };
    assert(t == s.push(x));
    assert(t[s.len() as int] == x);
    assert(t[s.len() as int].script.name == name);
    assert(has_script(t, name));
    let i = script_index(t, name);
    assert(t[i].script.name == name);
    if i != s.len() {
        assert(t[i] == s[i]);
        assert(has_script(s, name));
    }
    let e = event_named(trigger);
    assert(trigger_event_name(e) == trigger);
}

/// Creating a script under a name that is already stored is refused and changes nothing.
pub proof fn create_existing_refused(s: Seq<StoredScript>, name: Seq<char>, trigger: Seq<char>, code: Seq<char>,
    compiled: Option<ParseErrorView>)
    requires
        script_text_error(name, trigger) is None,
        has_script(s, name),
    ensures
        web_response(s, RequestView::Create(name, trigger, code), compiled) == ResponseView::Error(ScriptError::DuplicateName),
        web_scripts_after(s, RequestView::Create(name, trigger, code), compiled) == s,
        web_changes(s, RequestView::Create(name, trigger, code)) == Seq::<ChangeView>::empty(),
{
}

/// After a script is updated, reading its name gives back the new trigger and code, with
/// the error the new code compiled with.
pub proof fn read_after_update(s: Seq<StoredScript>, name: Seq<char>, trigger: Seq<char>, code: Seq<char>,
    compiled: Option<ParseErrorView>, other: Option<ParseErrorView>)
    requires
        names_unique(s),
        script_text_error(name, trigger) is None,
        has_script(s, name),
    ensures
        web_response(s, RequestView::Update(name, trigger, code), compiled) == ResponseView::ScriptCompiled(compiled),
        web_response(
            web_scripts_after(s, RequestView::Update(name, trigger, code), compiled),
            RequestView::Read(name),
            other,
        ) == ResponseView::Script(ShownScript { name, trigger, code, error: compiled }),
{
    let k = script_index(s, name);
    assert(s[k].script.name == name);
    let x = StoredScript { script: ScriptView { name, trigger: event_named(trigger), code }, error: compiled };
    let t = web_scripts_after(s, RequestView::Update(name, trigger, code), compiled);
    assert(t == s.update(k, x));
    assert(t[k] == x);
    assert(t[k].script.name == name);
    assert(has_script(t, name));
    let i = script_index(t, name);
    assert(t[i].script.name == name);
    if i != k {
        assert(t[i] == s[i]);
    }
    let e = event_named(trigger);
    assert(trigger_event_name(e) == trigger);
}

/// After a script is deleted, reading its name finds nothing.
pub proof fn read_after_delete(s: Seq<StoredScript>, name: Seq<char>, other: Option<ParseErrorView>)
    requires
        names_unique(s),
        script_name_valid(name),
        has_script(s, name),
    ensures
        web_response(s, RequestView::Delete(name), other) == ResponseView::Done,
        web_response(web_scripts_after(s, RequestView::Delete(name), other), RequestView::Read(name), other)
            == ResponseView::Error(ScriptError::ScriptNotFound),
{
    let k = script_index(s, name);
    assert(s[k].script.name == name);
    let t = web_scripts_after(s, RequestView::Delete(name), other);
    assert(t == s.remove(k));
    if has_script(t, name) {
        let i = choose|i: int| 0 <= i < t.len() && #[trigger] t[i].script.name == name;
        let j = if i < k { i } else { i + 1 };
        assert(t[i] == s[j]);
        assert(j != k);
    }
}

/// A request that only reads changes neither the stored scripts nor the changes to write.
pub proof fn reads_change_nothing(s: Seq<StoredScript>, name: Seq<char>, compiled: Option<ParseErrorView>)
    ensures
        web_scripts_after(s, RequestView::Read(name), compiled) == s,
        web_scripts_after(s, RequestView::ReadAll, compiled) == s,
        web_changes(s, RequestView::Read(name)) == Seq::<ChangeView>::empty(),
        web_changes(s, RequestView::ReadAll) == Seq::<ChangeView>::empty(),
{
}

} // verus!
