use vstd::prelude::*;
use crate::chars::{chars_of, lower_char, push_str, string_from_chars};
use crate::client::{owned, same_text, EntityId};
use crate::commands::{parse_outcome, Call, Commands};
use crate::ids::{id_error_text, parse_i64_spec, Id, IdParseError, ObjectId, PrototypeId, RoomId};
use crate::object::{inheritable_field_of, mode_of, InheritableFields, Mode};
use crate::persist::room::{direction_of, Direction};
use crate::scripts::{script_name_valid, ScriptName, TriggerKind};
use crate::text::{
    next_token, split_char, split_on, split_spaces_trimmed, split_whitespace, strings_view,
    trimmed_pieces, ws_words, Tokenizer,
};

verus! {

/// What an action is aimed at.
pub enum ActionTarget {
    CurrentRoom,
    Object(ObjectId),
    PlayerSelf,
    Player(String),
    Prototype(PrototypeId),
}

/// An object or a prototype, by id.
#[derive(Debug, Copy, Clone, PartialEq, Eq, Structural)]
pub enum ObjectOrPrototype {
    Object(ObjectId),
    Prototype(PrototypeId),
}

/// Where a script is attached: to something with an id, or to a player by name.
pub enum AttachTarget {
    Id(Id),
    Player(String),
}

pub struct Drop {
    pub actor: EntityId,
    pub keywords: Vec<String>,
}

pub struct Exits {
    pub actor: EntityId,
}

pub struct Get {
    pub actor: EntityId,
    pub keywords: Vec<String>,
}

pub struct Initialize {
    pub actor: EntityId,
    pub target: ActionTarget,
}

pub struct Inventory {
    pub actor: EntityId,
}

pub struct Login {
    pub actor: EntityId,
}

pub struct Look {
    pub actor: EntityId,
    pub direction: Option<Direction>,
}

pub struct LookAt {
    pub actor: EntityId,
    pub keywords: Vec<String>,
}

pub struct Move {
    pub actor: EntityId,
    pub direction: Direction,
}

pub struct ObjectCreate {
    pub actor: EntityId,
    pub prototype_id: PrototypeId,
}

pub struct ObjectInfo {
    pub actor: EntityId,
    pub id: ObjectId,
}

pub struct ObjectInheritFields {
    pub actor: EntityId,
    pub id: ObjectId,
    pub fields: Vec<InheritableFields>,
}

pub struct ObjectRemove {
    pub actor: EntityId,
    pub id: ObjectId,
}

pub struct PrototypeCreate {
    pub actor: EntityId,
}

pub struct PrototypeInfo {
    pub actor: EntityId,
    pub id: PrototypeId,
}

pub struct PrototypeRemove {
    pub actor: EntityId,
    pub id: PrototypeId,
}

pub struct Restart {
    pub actor: EntityId,
}

pub struct RoomCreate {
    pub actor: EntityId,
    pub direction: Option<Direction>,
}

pub struct RoomInfo {
    pub actor: EntityId,
}

pub struct RoomLink {
    pub actor: EntityId,
    pub direction: Direction,
    pub destination: RoomId,
}

pub struct RoomRemove {
    pub actor: EntityId,
}

pub struct RoomUnlink {
    pub actor: EntityId,
    pub direction: Direction,
}

pub struct RoomUpdateRegions {
    pub actor: EntityId,
    pub remove: bool,
    pub regions: Vec<String>,
}

/// Words spoken aloud in the room.
pub struct Say {
    pub actor: EntityId,
    pub message: String,
}

pub struct ScriptAttach {
    pub actor: EntityId,
    pub script: ScriptName,
    pub trigger: TriggerKind,
    pub target: AttachTarget,
    pub timer: Option<String>,
}

pub struct ScriptDetach {
    pub actor: EntityId,
    pub script: ScriptName,
    pub target: AttachTarget,
}

pub struct ShowError {
    pub actor: EntityId,
    pub target: ActionTarget,
    pub script: ScriptName,
}

pub struct Shutdown {
    pub actor: EntityId,
}

pub struct Stats {
    pub actor: EntityId,
}

pub struct Teleport {
    pub actor: EntityId,
    pub room_id: RoomId,
}

pub struct UpdateDescription {
    pub actor: EntityId,
    pub target: ActionTarget,
    pub description: String,
}

/// New keywords for an object or a prototype; the prototype form carries no mode.
pub struct UpdateKeywords {
    pub actor: EntityId,
    pub id: ObjectOrPrototype,
    pub mode: Option<Mode>,
    pub keywords: Vec<String>,
}

pub struct UpdateName {
    pub actor: EntityId,
    pub target: ActionTarget,
    pub name: String,
}

pub struct UpdateObjectFlags {
    pub actor: EntityId,
    pub id: ObjectOrPrototype,
    pub flags: Vec<String>,
    pub clear: bool,
}

pub struct Use {
    pub actor: EntityId,
    pub keywords: Vec<String>,
}

pub struct Who {
    pub actor: EntityId,
}

/// Something a player or a script asks the world to do.
pub enum Action {
    Drop(Drop),
    Exits(Exits),
    Get(Get),
    Initialize(Initialize),
    Inventory(Inventory),
    Login(Login),
    Look(Look),
    LookAt(LookAt),
    Move(Move),
    ObjectCreate(ObjectCreate),
    ObjectInfo(ObjectInfo),
    ObjectInheritFields(ObjectInheritFields),
    ObjectRemove(ObjectRemove),
    PrototypeCreate(PrototypeCreate),
    PrototypeInfo(PrototypeInfo),
    PrototypeRemove(PrototypeRemove),
    Restart(Restart),
    RoomCreate(RoomCreate),
    RoomInfo(RoomInfo),
    RoomLink(RoomLink),
    RoomRemove(RoomRemove),
    RoomUnlink(RoomUnlink),
    RoomUpdateRegions(RoomUpdateRegions),
    Say(Say),
    ScriptAttach(ScriptAttach),
    ScriptDetach(ScriptDetach),
    ShowError(ShowError),
    Shutdown(Shutdown),
    Stats(Stats),
    Teleport(Teleport),
    UpdateDescription(UpdateDescription),
    UpdateKeywords(UpdateKeywords),
    UpdateName(UpdateName),
    UpdateObjectFlags(UpdateObjectFlags),
    Use(Use),
    Who(Who),
}

/// The entity that asks for an action.
pub open spec fn actor_of(a: Action) -> EntityId {
    match a {
        Action::Drop(x) => x.actor,
        Action::Exits(x) => x.actor,
        Action::Get(x) => x.actor,
        Action::Initialize(x) => x.actor,
        Action::Inventory(x) => x.actor,
        Action::Login(x) => x.actor,
        Action::Look(x) => x.actor,
        Action::LookAt(x) => x.actor,
        Action::Move(x) => x.actor,
        Action::ObjectCreate(x) => x.actor,
        Action::ObjectInfo(x) => x.actor,
        Action::ObjectInheritFields(x) => x.actor,
        Action::ObjectRemove(x) => x.actor,
        Action::PrototypeCreate(x) => x.actor,
        Action::PrototypeInfo(x) => x.actor,
        Action::PrototypeRemove(x) => x.actor,
        Action::Restart(x) => x.actor,
        Action::RoomCreate(x) => x.actor,
        Action::RoomInfo(x) => x.actor,
        Action::RoomLink(x) => x.actor,
        Action::RoomRemove(x) => x.actor,
        Action::RoomUnlink(x) => x.actor,
        Action::RoomUpdateRegions(x) => x.actor,
        Action::Say(x) => x.actor,
        Action::ScriptAttach(x) => x.actor,
        Action::ScriptDetach(x) => x.actor,
        Action::ShowError(x) => x.actor,
        Action::Shutdown(x) => x.actor,
        Action::Stats(x) => x.actor,
        Action::Teleport(x) => x.actor,
        Action::UpdateDescription(x) => x.actor,
        Action::UpdateKeywords(x) => x.actor,
        Action::UpdateName(x) => x.actor,
        Action::UpdateObjectFlags(x) => x.actor,
        Action::Use(x) => x.actor,
        Action::Who(x) => x.actor,
    }
}

impl Action {
    pub fn actor(&self) -> (e: EntityId)
        ensures
            e == actor_of(*self),
    {
        match self {
            Action::Drop(x) => x.actor,
            Action::Exits(x) => x.actor,
            Action::Get(x) => x.actor,
            Action::Initialize(x) => x.actor,
            Action::Inventory(x) => x.actor,
            Action::Login(x) => x.actor,
            Action::Look(x) => x.actor,
            Action::LookAt(x) => x.actor,
            Action::Move(x) => x.actor,
            Action::ObjectCreate(x) => x.actor,
            Action::ObjectInfo(x) => x.actor,
            Action::ObjectInheritFields(x) => x.actor,
            Action::ObjectRemove(x) => x.actor,
            Action::PrototypeCreate(x) => x.actor,
            Action::PrototypeInfo(x) => x.actor,
            Action::PrototypeRemove(x) => x.actor,
            Action::Restart(x) => x.actor,
            Action::RoomCreate(x) => x.actor,
            Action::RoomInfo(x) => x.actor,
            Action::RoomLink(x) => x.actor,
            Action::RoomRemove(x) => x.actor,
            Action::RoomUnlink(x) => x.actor,
            Action::RoomUpdateRegions(x) => x.actor,
            Action::Say(x) => x.actor,
            Action::ScriptAttach(x) => x.actor,
            Action::ScriptDetach(x) => x.actor,
            Action::ShowError(x) => x.actor,
            Action::Shutdown(x) => x.actor,
            Action::Stats(x) => x.actor,
            Action::Teleport(x) => x.actor,
            Action::UpdateDescription(x) => x.actor,
            Action::UpdateKeywords(x) => x.actor,
            Action::UpdateName(x) => x.actor,
            Action::UpdateObjectFlags(x) => x.actor,
            Action::Use(x) => x.actor,
            Action::Who(x) => x.actor,
        }
    }
}

/// The result is an error with exactly this text.
pub open spec fn err_is(r: Result<Action, String>, msg: Seq<char>) -> bool {
    r matches Err(e) && e@ == msg
}

/// What follows the next token of `rest`.
pub open spec fn after_token(rest: Seq<char>) -> Seq<char> {
    match next_token(rest) {
        Some((_, used)) => rest.subrange(used, rest.len() as int),
        None => rest,
    }
}

fn text_error(msg: &str) -> (r: Result<Action, String>)
    ensures
        err_is(r, msg@),
{
    Err(owned(msg))
}

/// `look` alone looks at the room, `look <direction>` through an exit, and
/// `look at <keywords>` at something.
pub open spec fn look_outcome(actor: EntityId, rest: Seq<char>, r: Result<Action, String>) -> bool {
    match next_token(rest) {
        Some((token, used)) => {
            let more = rest.subrange(used, rest.len() as int);
            if token == "at"@ {
                if more.len() == 0 {
                    err_is(r, "Look at what?"@)
                } else {
                    r matches Ok(Action::LookAt(a)) && a.actor == actor && strings_view(a.keywords@)
                        == ws_words(more)
                }
            } else {
                match direction_of(token) {
                    Some(d) => r matches Ok(Action::Look(l)) && l.actor == actor && l.direction
                        == Some(d),
                    None => err_is(r, "I don't know how to look "@ + token + "."@),
                }
            }
        },
        None => r matches Ok(Action::Look(l)) && l.actor == actor && l.direction is None,
    }
}

pub fn parse_look(player: EntityId, tokenizer: Tokenizer) -> (r: Result<Action, String>)
    requires
        tokenizer.wf(),
    ensures
        look_outcome(player, tokenizer.rest_view(), r),
{
    let mut tokenizer = tokenizer;
    match tokenizer.next() {
        Some(token) => {
            if same_text(token, "at") {
                let rest = tokenizer.rest();
                if rest.is_empty() {
                    return text_error("Look at what?");
                }
                let keywords = split_whitespace(rest);
                Ok(Action::LookAt(LookAt { actor: player, keywords }))
            } else {
                match Direction::from_str(token) {
                    Some(direction) => Ok(Action::Look(Look { actor: player, direction: Some(direction) })),
                    None => {
                        let mut out: Vec<char> = Vec::new();
                        push_str(&mut out, "I don't know how to look ");
                        push_str(&mut out, token);
                        push_str(&mut out, ".");
                        Err(string_from_chars(&out))
                    },
                }
            }
        },
        None => Ok(Action::Look(Look { actor: player, direction: None })),
    }
}

/// The keywords of a `drop`, `get` or `use`: the white-space separated words of the
/// rest of the input, which must not be empty.
pub open spec fn keywords_outcome(rest: Seq<char>, missing: Seq<char>, r: Result<Action, String>,
    made: spec_fn(Action) -> Option<Seq<String>>) -> bool {
    if rest.len() == 0 {
        err_is(r, missing)
    } else {
        r matches Ok(a) && made(a) matches Some(k) && strings_view(k) == ws_words(rest)
    }
}

pub open spec fn dropped(a: Action) -> Option<Seq<String>> {
    match a {
        Action::Drop(d) => Some(d.keywords@),
        _ => None,
    }
}

pub open spec fn gotten(a: Action) -> Option<Seq<String>> {
    match a {
        Action::Get(d) => Some(d.keywords@),
        _ => None,
    }
}

pub open spec fn used(a: Action) -> Option<Seq<String>> {
    match a {
        Action::Use(d) => Some(d.keywords@),
        _ => None,
    }
}

pub fn parse_drop(player: EntityId, tokenizer: Tokenizer) -> (r: Result<Action, String>)
    requires
        tokenizer.wf(),
    ensures
        keywords_outcome(tokenizer.rest_view(), "Drop what?"@, r, |a: Action| dropped(a)),
        r matches Ok(a) ==> actor_of(a) == player,
{
    let rest = tokenizer.rest();
    if rest.is_empty() {
        return text_error("Drop what?");
    }
    Ok(Action::Drop(Drop { actor: player, keywords: split_whitespace(rest) }))
}

pub fn parse_get(player: EntityId, tokenizer: Tokenizer) -> (r: Result<Action, String>)
    requires
        tokenizer.wf(),
    ensures
        keywords_outcome(tokenizer.rest_view(), "Get what?"@, r, |a: Action| gotten(a)),
        r matches Ok(a) ==> actor_of(a) == player,
{
    let rest = tokenizer.rest();
    if rest.is_empty() {
        return text_error("Get what?");
    }
    Ok(Action::Get(Get { actor: player, keywords: split_whitespace(rest) }))
}

pub fn parse_use(player: EntityId, tokenizer: Tokenizer) -> (r: Result<Action, String>)
    requires
        tokenizer.wf(),
    ensures
        keywords_outcome(tokenizer.rest_view(), "Use what?"@, r, |a: Action| used(a)),
        r matches Ok(a) ==> actor_of(a) == player,
{
    let rest = tokenizer.rest();
    if rest.is_empty() {
        return text_error("Use what?");
    }
    Ok(Action::Use(Use { actor: player, keywords: split_whitespace(rest) }))
}

/// `teleport <room id>`.
pub open spec fn teleport_outcome(actor: EntityId, rest: Seq<char>, r: Result<Action, String>) -> bool {
    match next_token(rest) {
        Some((token, _)) => match parse_i64_spec(token) {
            Some(v) if v >= 0 => r matches Ok(Action::Teleport(t)) && t.actor == actor && t.room_id
                == RoomId(v),
            _ => err_is(r, id_error_text(IdParseError::RoomId)),
        },
        None => err_is(r, "Teleport to where?"@),
    }
}

pub fn parse_teleport(player: EntityId, tokenizer: Tokenizer) -> (r: Result<Action, String>)
    requires
        tokenizer.wf(),
    ensures
        teleport_outcome(player, tokenizer.rest_view(), r),
{
    let mut tokenizer = tokenizer;
    if let Some(destination) = tokenizer.next() {
        match RoomId::from_str(destination) {
            Ok(room_id) => Ok(Action::Teleport(Teleport { actor: player, room_id })),
            Err(e) => Err(e.message()),
        }
    } else {
        text_error("Teleport to where?")
    }
}

/// `stats` takes no arguments.
pub fn parse_stats(player: EntityId, _tokenizer: Tokenizer) -> (r: Result<Action, String>)
    ensures
        r matches Ok(Action::Stats(s)) && s.actor == player,
{
    Ok(Action::Stats(Stats { actor: player }))
}

/// A non-negative decimal id, where the token is one.
pub open spec fn id_value(token: Seq<char>) -> Option<i64> {
    match parse_i64_spec(token) {
        Some(v) => if v >= 0 {
            Some(v)
        } else {
            None
        },
        None => None,
    }
}

/// The fields named by a list of words, where every word names one.
pub open spec fn fields_of(words: Seq<Seq<char>>) -> Option<Seq<InheritableFields>>
    decreases words.len(),
{
    if words.len() == 0 {
        Some(seq![])
    } else {
        match fields_of(words.drop_last()) {
            Some(fs) => match inheritable_field_of(words.last()) {
                Some(f) => Some(fs.push(f)),
                None => None,
            },
            None => None,
        }
    }
}

fn parse_fields(words: &Vec<String>) -> (r: Option<Vec<InheritableFields>>)
    ensures
        match fields_of(strings_view(words@)) {
            Some(fs) => r matches Some(v) && v@ == fs,
            None => r is None,
        },
{
    let ghost ws = strings_view(words@);
    let mut out: Vec<InheritableFields> = Vec::new();
    let mut i: usize = 0;
    while i < words.len()
        invariant
            i <= words.len(),
            ws == strings_view(words@),
            fields_of(ws.take(i as int)) == Some(out@),
        decreases words.len() - i,
    {
        proof {
            assert(ws.take(i + 1).drop_last() =~= ws.take(i as int));
        }
        match InheritableFields::from_str(words[i].as_str()) {
            Some(f) => {
                out.push(f);
            },
            None => {
                proof {
                    lemma_fields_of_prefix_none(ws, i + 1);
                }
                return None;
            },
        }
        i = i + 1;
    }
    assert(ws.take(words.len() as int) =~= ws);
    Some(out)
}

proof fn lemma_fields_of_prefix_none(ws: Seq<Seq<char>>, k: int)
    requires
        0 <= k <= ws.len(),
        fields_of(ws.take(k)) is None,
    ensures
        fields_of(ws) is None,
    decreases ws.len() - k,
{
    if k < ws.len() {
        assert(ws.take(k + 1).drop_last() =~= ws.take(k));
        lemma_fields_of_prefix_none(ws, k + 1);
    } else {
        assert(ws.take(k) =~= ws);
    }
}

pub open spec fn script_name_error() -> Seq<char> {
    "Failed to parse script name: must be ASCII and contain no whitespace."@
}

pub open spec fn flags_missing() -> Seq<char> {
    "Enter a space separated list of flags. Valid flags: fixed, subtle."@
}

pub open spec fn targets_object(t: ActionTarget, id: i64) -> bool {
    t matches ActionTarget::Object(o) && o.value() == id
}

pub open spec fn targets_prototype(t: ActionTarget, id: i64) -> bool {
    t matches ActionTarget::Prototype(p) && p.value() == id
}

pub open spec fn is_object(x: ObjectOrPrototype, id: i64) -> bool {
    x matches ObjectOrPrototype::Object(o) && o.value() == id
}

pub open spec fn is_prototype(x: ObjectOrPrototype, id: i64) -> bool {
    x matches ObjectOrPrototype::Prototype(p) && p.value() == id
}

/// The subcommands of `object <id>`.
pub open spec fn object_sub_outcome(actor: EntityId, id: i64, rest: Seq<char>, r: Result<Action, String>) -> bool {
    match next_token(rest) {
        None => err_is(r, "Enter an object subcommand: desc, info, keywords, name, remove, set, or unset."@),
        Some((sub, used)) => {
            let more = rest.subrange(used, rest.len() as int);
            if sub == "desc"@ {
                if more.len() == 0 {
                    err_is(r, "Enter a long description."@)
                } else {
                    r matches Ok(Action::UpdateDescription(u)) && u.actor == actor
                        && targets_object(u.target, id) && u.description@ == more
                }
            } else if sub == "errors"@ {
                if more.len() == 0 {
                    err_is(r, "Enter a script to look for its errors."@)
                } else {
                    match next_token(more) {
                        Some((name, _)) => if script_name_valid(name) {
                            r matches Ok(Action::ShowError(e)) && e.actor == actor
                                && targets_object(e.target, id) && e.script@ == name
                        } else {
                            err_is(r, script_name_error())
                        },
                        None => err_is(r, "Enter a script to look for its errors."@),
                    }
                }
            } else if sub == "info"@ {
                r matches Ok(Action::ObjectInfo(i)) && i.actor == actor && i.id.value() == id
            } else if sub == "inherit"@ {
                if more.len() == 0 {
                    err_is(r, "Enter a space separated list of fields to inherit."@)
                } else {
                    match fields_of(ws_words(more)) {
                        Some(fs) => r matches Ok(Action::ObjectInheritFields(i)) && i.actor == actor
                            && i.id.value() == id && i.fields@ == fs,
                        None => err_is(r, "Enter valid inheritable fields: desc, flags, keywords, name, and scripts"@),
                    }
                }
            } else if sub == "init"@ {
                r matches Ok(Action::Initialize(i)) && i.actor == actor
                    && targets_object(i.target, id)
            } else if sub == "keywords"@ {
                match next_token(more) {
                    None => err_is(r, "Enter a keyword alteration mode: add, remove, or set."@),
                    Some((m, used2)) => match mode_of(m) {
                        None => err_is(r, "Enter a valid keyword alteration mode: add, remove, or set."@),
                        Some(mode) => {
                            let words = more.subrange(used2, more.len() as int);
                            if words.len() == 0 {
                                err_is(r, "Enter a space separated list of keywords."@)
                            } else {
                                r matches Ok(Action::UpdateKeywords(k)) && k.actor == actor
                                    && is_object(k.id, id)
                                    && k.mode == Some(mode) && strings_view(k.keywords@) == trimmed_pieces(words)
                            }
                        },
                    },
                }
            } else if sub == "name"@ {
                if more.len() == 0 {
                    err_is(r, "Enter a short description."@)
                } else {
                    r matches Ok(Action::UpdateName(u)) && u.actor == actor
                        && targets_object(u.target, id) && u.name@ == more
                }
            } else if sub == "remove"@ {
                r matches Ok(Action::ObjectRemove(x)) && x.actor == actor && x.id.value() == id
            } else if sub == "set"@ || sub == "unset"@ {
                if more.len() == 0 {
                    err_is(r, flags_missing())
                } else {
                    r matches Ok(Action::UpdateObjectFlags(f)) && f.actor == actor
                        && is_object(f.id, id)
                        && strings_view(f.flags@) == ws_words(more) && f.clear == (sub == "unset"@)
                }
            } else {
                err_is(r, "Enter a valid object subcommand: desc, info, keywords, name, remove, set, or unset."@)
            }
        },
    }
}

/// `object new <prototype id>`, or `object <id> <subcommand> ...`.
pub open spec fn object_outcome(actor: EntityId, rest: Seq<char>, r: Result<Action, String>) -> bool {
    match next_token(rest) {
        None => err_is(r, "Enter an object ID or subcommand: new."@),
        Some((token, used)) => {
            let more = rest.subrange(used, rest.len() as int);
            if token == "new"@ {
                match next_token(more) {
                    None => err_is(r, "Enter a prototype ID."@),
                    Some((p, _)) => match id_value(p) {
                        Some(v) => r matches Ok(Action::ObjectCreate(c)) && c.actor == actor
                            && c.prototype_id.value() == v,
                        None => err_is(r, id_error_text(IdParseError::PrototypeId)),
                    },
                }
            } else {
                match id_value(token) {
                    Some(v) => object_sub_outcome(actor, v, more, r),
                    None => err_is(r, id_error_text(IdParseError::ObjectId)),
                }
            }
        },
    }
}

/// Reads a script name token that the caller knows is there.
fn script_token(tokenizer: &mut Tokenizer) -> (r: Result<ScriptName, String>)
    requires
        old(tokenizer).wf(),
        old(tokenizer).rest_view().len() > 0,
    ensures
        match next_token(old(tokenizer).rest_view()) {
            Some((name, _)) => if script_name_valid(name) {
                r matches Ok(n) && n@ == name
            } else {
                r matches Err(e) && e@ == script_name_error()
            },
            None => false,
        },
{
    match tokenizer.next() {
        Some(name) => match ScriptName::try_from_string(owned(name)) {
            Ok(n) => Ok(n),
            Err(e) => Err(e.message()),
        },
        // The rest is not empty, so there is always a token.
        None => Err(owned("")),
    }
}

fn parse_object_subcommand(player: EntityId, id: ObjectId, tokenizer: Tokenizer) -> (r: Result<Action, String>)
    requires
        tokenizer.wf(),
    ensures
        object_sub_outcome(player, id.value(), tokenizer.rest_view(), r),
{
    let mut tokenizer = tokenizer;
    let sub = match tokenizer.next() {
        Some(t) => t,
        None => {
            return text_error("Enter an object subcommand: desc, info, keywords, name, remove, set, or unset.");
        },
    };
    let rest = tokenizer.rest();
    if same_text(sub, "desc") {
        if rest.is_empty() {
            text_error("Enter a long description.")
        } else {
            Ok(Action::UpdateDescription(UpdateDescription {
                actor: player,
                target: ActionTarget::Object(id),
                description: owned(rest),
            }))
        }
    } else if same_text(sub, "errors") {
        if rest.is_empty() {
            text_error("Enter a script to look for its errors.")
        } else {
            match script_token(&mut tokenizer) {
                Ok(script) => Ok(Action::ShowError(ShowError { actor: player, target: ActionTarget::Object(id), script })),
                Err(e) => Err(e),
            }
        }
    } else if same_text(sub, "info") {
        Ok(Action::ObjectInfo(ObjectInfo { actor: player, id }))
    } else if same_text(sub, "inherit") {
        if rest.is_empty() {
            text_error("Enter a space separated list of fields to inherit.")
        } else {
            let words = split_whitespace(rest);
            match parse_fields(&words) {
                Some(fields) => Ok(Action::ObjectInheritFields(ObjectInheritFields { actor: player, id, fields })),
                None => text_error("Enter valid inheritable fields: desc, flags, keywords, name, and scripts"),
            }
        }
    } else if same_text(sub, "init") {
        Ok(Action::Initialize(Initialize { actor: player, target: ActionTarget::Object(id) }))
    } else if same_text(sub, "keywords") {
        match tokenizer.next() {
            Some(m) => match Mode::from_str(m) {
                Some(mode) => {
                    let words = tokenizer.rest();
                    if words.is_empty() {
                        text_error("Enter a space separated list of keywords.")
                    } else {
                        Ok(Action::UpdateKeywords(UpdateKeywords {
                            actor: player,
                            id: ObjectOrPrototype::Object(id),
                            mode: Some(mode),
                            keywords: split_spaces_trimmed(words),
                        }))
                    }
                },
                None => text_error("Enter a valid keyword alteration mode: add, remove, or set."),
            },
            None => text_error("Enter a keyword alteration mode: add, remove, or set."),
        }
    } else if same_text(sub, "name") {
        if rest.is_empty() {
            text_error("Enter a short description.")
        } else {
            Ok(Action::UpdateName(UpdateName { actor: player, target: ActionTarget::Object(id), name: owned(rest) }))
        }
    } else if same_text(sub, "remove") {
        Ok(Action::ObjectRemove(ObjectRemove { actor: player, id }))
    } else if same_text(sub, "set") || same_text(sub, "unset") {
        let clear = same_text(sub, "unset");
        if rest.is_empty() {
            text_error("Enter a space separated list of flags. Valid flags: fixed, subtle.")
        } else {
            Ok(Action::UpdateObjectFlags(UpdateObjectFlags {
                actor: player,
                id: ObjectOrPrototype::Object(id),
                flags: split_whitespace(rest),
                clear,
            }))
        }
    } else {
        text_error("Enter a valid object subcommand: desc, info, keywords, name, remove, set, or unset.")
    }
}

/// Parses the arguments of the `object` command.
pub fn parse_object(player: EntityId, tokenizer: Tokenizer) -> (r: Result<Action, String>)
    requires
        tokenizer.wf(),
    ensures
        object_outcome(player, tokenizer.rest_view(), r),
{
    let mut tokenizer = tokenizer;
    let token = match tokenizer.next() {
        Some(t) => t,
        None => {
            return text_error("Enter an object ID or subcommand: new.");
        },
    };
    if same_text(token, "new") {
        match tokenizer.next() {
            Some(p) => match PrototypeId::from_str(p) {
                Ok(prototype_id) => Ok(Action::ObjectCreate(ObjectCreate { actor: player, prototype_id })),
                Err(e) => Err(e.message()),
            },
            None => text_error("Enter a prototype ID."),
        }
    } else {
        match ObjectId::from_str(token) {
            Ok(id) => parse_object_subcommand(player, id, tokenizer),
            Err(e) => Err(e.message()),
        }
    }
}

/// The subcommands of `prototype <id>`.
pub open spec fn prototype_sub_outcome(actor: EntityId, id: i64, rest: Seq<char>, r: Result<Action, String>) -> bool {
    match next_token(rest) {
        None => err_is(r, "Enter a prototype subcommand: desc, info, keywords, name, remove, set, or unset."@),
        Some((sub, used)) => {
            let more = rest.subrange(used, rest.len() as int);
            if sub == "info"@ {
                r matches Ok(Action::PrototypeInfo(i)) && i.actor == actor && i.id.value() == id
            } else if sub == "keywords"@ {
                if more.len() == 0 {
                    err_is(r, "Enter a space separated list of keywords."@)
                } else {
                    r matches Ok(Action::UpdateKeywords(k)) && k.actor == actor && is_prototype(k.id, id)
                        && k.mode is None && strings_view(k.keywords@) == trimmed_pieces(more)
                }
            } else if sub == "desc"@ {
                if more.len() == 0 {
                    err_is(r, "Enter a long description."@)
                } else {
                    r matches Ok(Action::UpdateDescription(u)) && u.actor == actor
                        && targets_prototype(u.target, id) && u.description@ == more
                }
            } else if sub == "remove"@ {
                r matches Ok(Action::PrototypeRemove(x)) && x.actor == actor && x.id.value() == id
            } else if sub == "set"@ || sub == "unset"@ {
                if more.len() == 0 {
                    err_is(r, flags_missing())
                } else {
                    r matches Ok(Action::UpdateObjectFlags(f)) && f.actor == actor && is_prototype(f.id, id)
                        && strings_view(f.flags@) == ws_words(more) && f.clear == (sub == "unset"@)
                }
            } else if sub == "name"@ {
                if more.len() == 0 {
                    err_is(r, "Enter a short description."@)
                } else {
                    r matches Ok(Action::UpdateName(u)) && u.actor == actor && targets_prototype(u.target, id)
                        && u.name@ == more
                }
            } else {
                err_is(r, "Enter a valid prototype subcommand: desc, info, keywords, name, remove, set, or unset."@)
            }
        },
    }
}

/// `prototype new`, or `prototype <id> <subcommand> ...`.
pub open spec fn prototype_outcome(actor: EntityId, rest: Seq<char>, r: Result<Action, String>) -> bool {
    match next_token(rest) {
        None => err_is(r, "Enter a prototype ID or subcommand: new."@),
        Some((token, used)) => {
            let more = rest.subrange(used, rest.len() as int);
            if token == "new"@ {
                r matches Ok(Action::PrototypeCreate(c)) && c.actor == actor
            } else {
                match id_value(token) {
                    Some(v) => prototype_sub_outcome(actor, v, more, r),
                    None => err_is(r, id_error_text(IdParseError::PrototypeId)),
                }
            }
        },
    }
}

fn parse_prototype_subcommand(player: EntityId, id: PrototypeId, tokenizer: Tokenizer) -> (r: Result<Action, String>)
    requires
        tokenizer.wf(),
    ensures
        prototype_sub_outcome(player, id.value(), tokenizer.rest_view(), r),
{
    let mut tokenizer = tokenizer;
    let sub = match tokenizer.next() {
        Some(t) => t,
        None => {
            return text_error("Enter a prototype subcommand: desc, info, keywords, name, remove, set, or unset.");
        },
    };
    let rest = tokenizer.rest();
    if same_text(sub, "info") {
        Ok(Action::PrototypeInfo(PrototypeInfo { actor: player, id }))
    } else if same_text(sub, "keywords") {
        if rest.is_empty() {
            text_error("Enter a space separated list of keywords.")
        } else {
            Ok(Action::UpdateKeywords(UpdateKeywords {
                actor: player,
                id: ObjectOrPrototype::Prototype(id),
                mode: None,
                keywords: split_spaces_trimmed(rest),
            }))
        }
    } else if same_text(sub, "desc") {
        if rest.is_empty() {
            text_error("Enter a long description.")
        } else {
            Ok(Action::UpdateDescription(UpdateDescription {
                actor: player,
                target: ActionTarget::Prototype(id),
                description: owned(rest),
            }))
        }
    } else if same_text(sub, "remove") {
        Ok(Action::PrototypeRemove(PrototypeRemove { actor: player, id }))
    } else if same_text(sub, "set") || same_text(sub, "unset") {
        let clear = same_text(sub, "unset");
        if rest.is_empty() {
            text_error("Enter a space separated list of flags. Valid flags: fixed, subtle.")
        } else {
            Ok(Action::UpdateObjectFlags(UpdateObjectFlags {
                actor: player,
                id: ObjectOrPrototype::Prototype(id),
                flags: split_whitespace(rest),
                clear,
            }))
        }
    } else if same_text(sub, "name") {
        if rest.is_empty() {
            text_error("Enter a short description.")
        } else {
            Ok(Action::UpdateName(UpdateName { actor: player, target: ActionTarget::Prototype(id), name: owned(rest) }))
        }
    } else {
        text_error("Enter a valid prototype subcommand: desc, info, keywords, name, remove, set, or unset.")
    }
}

/// Parses the arguments of the `prototype` command.
pub fn parse_prototype(player: EntityId, tokenizer: Tokenizer) -> (r: Result<Action, String>)
    requires
        tokenizer.wf(),
    ensures
        prototype_outcome(player, tokenizer.rest_view(), r),
{
    let mut tokenizer = tokenizer;
    let token = match tokenizer.next() {
        Some(t) => t,
        None => {
            return text_error("Enter a prototype ID or subcommand: new.");
        },
    };
    if same_text(token, "new") {
        Ok(Action::PrototypeCreate(PrototypeCreate { actor: player }))
    } else {
        match PrototypeId::from_str(token) {
            Ok(id) => parse_prototype_subcommand(player, id, tokenizer),
            Err(e) => Err(e.message()),
        }
    }
}

/// Whether Unicode lowercasing `s` gives the lowercase ASCII word `w`: each character is
/// the letter itself, its ASCII capital, or, for `k`, the Kelvin sign, whose lowercase
/// is `k`; no other character lowercases to ASCII letters.
pub open spec fn lowercases_to(s: Seq<char>, w: Seq<char>) -> bool {
    &&& s.len() == w.len()
    &&& forall|i: int| #![trigger s[i]] 0 <= i < s.len() ==> lower_char(s[i]) == w[i] || (s[i] == '\u{212A}' && w[i] == 'k')
}

fn lowercase_is(s: &str, w: &str) -> (b: bool)
    ensures
        b == lowercases_to(s@, w@),
{
    let x = chars_of(s);
    let y = chars_of(w);
    if x.len() != y.len() {
        return false;
    }
    let mut i: usize = 0;
    while i < x.len()
        invariant
            i <= x.len() == y.len(),
            x@ == s@,
            y@ == w@,
            forall|k: int| #![trigger x@[k]] 0 <= k < i ==> lower_char(x@[k]) == y@[k] || (x@[k] == '\u{212A}' && y@[k] == 'k'),
        decreases x.len() - i,
    {
        let c = x[i];
        let l = if 'A' <= c && c <= 'Z' {
            let b: u8 = ((c as u32) + 32) as u8;
            b as char
        } else {
            c
        };
        if !(l == y[i] || (c == '\u{212A}' && y[i] == 'k')) {
            assert(!(lower_char(x@[i as int]) == y@[i as int] || (x@[i as int] == '\u{212A}' && y@[i as int] == 'k')));
            return false;
        }
        i = i + 1;
    }
    true
}

pub open spec fn direction_invalid() -> Seq<char> {
    "Enter a valid direction: up, down, north, east, south, west."@
}

/// The subcommands of `room`, whose name is matched without regard to case.
pub open spec fn room_outcome(actor: EntityId, rest: Seq<char>, r: Result<Action, String>) -> bool {
    match next_token(rest) {
        None => err_is(r, "Enter a room subcommand: info, desc, link, new, regions, remove, or unlink."@),
        Some((sub, used)) => {
            let more = rest.subrange(used, rest.len() as int);
            if lowercases_to(sub, "error"@) {
                if more.len() == 0 {
                    err_is(r, "Enter a script to look for its errors."@)
                } else {
                    match next_token(more) {
                        Some((name, _)) => if script_name_valid(name) {
                            r matches Ok(Action::ShowError(e)) && e.actor == actor && e.target is CurrentRoom
                                && e.script@ == name
                        } else {
                            err_is(r, script_name_error())
                        },
                        None => err_is(r, "Enter a script to look for its errors."@),
                    }
                }
            } else if lowercases_to(sub, "desc"@) {
                if more.len() == 0 {
                    err_is(r, "Enter a description."@)
                } else {
                    r matches Ok(Action::UpdateDescription(u)) && u.actor == actor && u.target is CurrentRoom
                        && u.description@ == more
                }
            } else if lowercases_to(sub, "info"@) {
                r matches Ok(Action::RoomInfo(i)) && i.actor == actor
            } else if lowercases_to(sub, "init"@) {
                r matches Ok(Action::Initialize(i)) && i.actor == actor && i.target is CurrentRoom
            } else if lowercases_to(sub, "link"@) {
                match next_token(more) {
                    None => err_is(r, "Enter a direction."@),
                    Some((d, used2)) => match direction_of(d) {
                        None => err_is(r, direction_invalid()),
                        Some(dir) => {
                            let more2 = more.subrange(used2, more.len() as int);
                            match next_token(more2) {
                                None => err_is(r, "Enter a destination room ID."@),
                                Some((dest, _)) => match id_value(dest) {
                                    Some(v) => r matches Ok(Action::RoomLink(l)) && l.actor == actor
                                        && l.direction == dir && l.destination == RoomId(v),
                                    None => err_is(r, id_error_text(IdParseError::RoomId)),
                                },
                            }
                        },
                    },
                }
            } else if lowercases_to(sub, "name"@) {
                if more.len() == 0 {
                    err_is(r, "Enter a name."@)
                } else {
                    r matches Ok(Action::UpdateName(u)) && u.actor == actor && u.target is CurrentRoom
                        && u.name@ == more
                }
            } else if lowercases_to(sub, "new"@) {
                match next_token(more) {
                    None => r matches Ok(Action::RoomCreate(c)) && c.actor == actor && c.direction is None,
                    Some((d, _)) => match direction_of(d) {
                        Some(dir) => r matches Ok(Action::RoomCreate(c)) && c.actor == actor
                            && c.direction == Some(dir),
                        None => err_is(r, direction_invalid()),
                    },
                }
            } else if lowercases_to(sub, "regions"@) {
                match next_token(more) {
                    None => err_is(r, "Enter a region operation: add or remove."@),
                    Some((op, used2)) => {
                        let more2 = more.subrange(used2, more.len() as int);
                        if more2.len() == 0 {
                            err_is(r, "Enter one or more space separated regions."@)
                        } else if op == "add"@ || op == "remove"@ {
                            r matches Ok(Action::RoomUpdateRegions(u)) && u.actor == actor
                                && u.remove == (op == "remove"@) && strings_view(u.regions@) == split_on(more2, ' ')
                        } else {
                            err_is(r, "Enter a valid region operation: add or remove."@)
                        }
                    },
                }
            } else if lowercases_to(sub, "remove"@) {
                r matches Ok(Action::RoomRemove(x)) && x.actor == actor
            } else if lowercases_to(sub, "unlink"@) {
                match next_token(more) {
                    None => err_is(r, "Enter a direction."@),
                    Some((d, _)) => match direction_of(d) {
                        Some(dir) => r matches Ok(Action::RoomUnlink(u)) && u.actor == actor && u.direction == dir,
                        None => err_is(r, direction_invalid()),
                    },
                }
            } else {
                err_is(r, "Enter a valid room subcommand: info, desc, link, new, regions, remove, or unlink."@)
            }
        },
    }
}

/// Parses the arguments of the `room` command.
pub fn parse_room(player: EntityId, tokenizer: Tokenizer) -> (r: Result<Action, String>)
    requires
        tokenizer.wf(),
    ensures
        room_outcome(player, tokenizer.rest_view(), r),
{
    let mut tokenizer = tokenizer;
    let sub = match tokenizer.next() {
        Some(t) => t,
        None => {
            return text_error("Enter a room subcommand: info, desc, link, new, regions, remove, or unlink.");
        },
    };
    let rest = tokenizer.rest();
    if lowercase_is(sub, "error") {
        if rest.is_empty() {
            text_error("Enter a script to look for its errors.")
        } else {
            match script_token(&mut tokenizer) {
                Ok(script) => Ok(Action::ShowError(ShowError { actor: player, target: ActionTarget::CurrentRoom, script })),
                Err(e) => Err(e),
            }
        }
    } else if lowercase_is(sub, "desc") {
        if rest.is_empty() {
            text_error("Enter a description.")
        } else {
            Ok(Action::UpdateDescription(UpdateDescription {
                actor: player,
                target: ActionTarget::CurrentRoom,
                description: owned(rest),
            }))
        }
    } else if lowercase_is(sub, "info") {
        Ok(Action::RoomInfo(RoomInfo { actor: player }))
    } else if lowercase_is(sub, "init") {
        Ok(Action::Initialize(Initialize { actor: player, target: ActionTarget::CurrentRoom }))
    } else if lowercase_is(sub, "link") {
        match tokenizer.next() {
            None => text_error("Enter a direction."),
            Some(d) => match Direction::from_str(d) {
                None => text_error("Enter a valid direction: up, down, north, east, south, west."),
                Some(direction) => match tokenizer.next() {
                    None => text_error("Enter a destination room ID."),
                    Some(dest) => match RoomId::from_str(dest) {
                        Ok(destination) => Ok(Action::RoomLink(RoomLink { actor: player, direction, destination })),
                        Err(e) => Err(e.message()),
                    },
                },
            },
        }
    } else if lowercase_is(sub, "name") {
        if rest.is_empty() {
            text_error("Enter a name.")
        } else {
            Ok(Action::UpdateName(UpdateName { actor: player, target: ActionTarget::CurrentRoom, name: owned(rest) }))
        }
    } else if lowercase_is(sub, "new") {
        match tokenizer.next() {
            None => Ok(Action::RoomCreate(RoomCreate { actor: player, direction: None })),
            Some(d) => match Direction::from_str(d) {
                Some(direction) => Ok(Action::RoomCreate(RoomCreate { actor: player, direction: Some(direction) })),
                None => text_error("Enter a valid direction: up, down, north, east, south, west."),
            },
        }
    } else if lowercase_is(sub, "regions") {
        match tokenizer.next() {
            None => text_error("Enter a region operation: add or remove."),
            Some(op) => {
                let regions_text = tokenizer.rest();
                if regions_text.is_empty() {
                    text_error("Enter one or more space separated regions.")
                } else if same_text(op, "add") || same_text(op, "remove") {
                    let remove = same_text(op, "remove");
                    Ok(Action::RoomUpdateRegions(RoomUpdateRegions {
                        actor: player,
                        remove,
                        regions: split_char(regions_text, ' '),
                    }))
                } else {
                    text_error("Enter a valid region operation: add or remove.")
                }
            },
        }
    } else if lowercase_is(sub, "remove") {
        Ok(Action::RoomRemove(RoomRemove { actor: player }))
    } else if lowercase_is(sub, "unlink") {
        match tokenizer.next() {
            None => text_error("Enter a direction."),
            Some(d) => match Direction::from_str(d) {
                Some(direction) => Ok(Action::RoomUnlink(RoomUnlink { actor: player, direction })),
                None => text_error("Enter a valid direction: up, down, north, east, south, west."),
            },
        }
    } else {
        text_error("Enter a valid room subcommand: info, desc, link, new, regions, remove, or unlink.")
    }
}

/// What a script command names as its target, as plain values.
pub enum TargetSpec {
    Object(i64),
    Player(Seq<char>),
    Prototype(i64),
    Room(i64),
}

pub open spec fn attach_target_is(t: AttachTarget, e: TargetSpec) -> bool {
    match e {
        TargetSpec::Object(v) => t matches AttachTarget::Id(Id::Object(o)) && o.value() == v,
        TargetSpec::Player(name) => t matches AttachTarget::Player(n) && n@ == name,
        TargetSpec::Prototype(v) => t matches AttachTarget::Id(Id::Prototype(p)) && p.value() == v,
        TargetSpec::Room(v) => t == AttachTarget::Id(Id::Room(RoomId(v))),
    }
}

pub open spec fn timer_view(t: Option<String>) -> Option<Seq<char>> {
    match t {
        Some(s) => Some(s@),
        None => None,
    }
}

/// The action a script command makes: an attachment with its trigger and timer name, or
/// (for `None`) a detachment.
pub open spec fn script_action_is(r: Result<Action, String>, actor: EntityId, script: Seq<char>,
    attach: Option<(TriggerKind, Option<Seq<char>>)>, target: TargetSpec) -> bool {
    match attach {
        Some((kind, timer)) => r matches Ok(Action::ScriptAttach(a)) && a.actor == actor && a.script@ == script
            && a.trigger == kind && timer_view(a.timer) == timer && attach_target_is(a.target, target),
        None => r matches Ok(Action::ScriptDetach(d)) && d.actor == actor && d.script@ == script
            && attach_target_is(d.target, target),
    }
}

/// The target of a script command: a target type, then an id or a player name.
pub open spec fn params_outcome(actor: EntityId, script: Seq<char>, rest: Seq<char>,
    attach: Option<(TriggerKind, Option<Seq<char>>)>, r: Result<Action, String>) -> bool {
    match next_token(rest) {
        None => err_is(r, "Enter a target type: object, player, prototype, or room."@),
        Some((kind, used)) => {
            let more = rest.subrange(used, rest.len() as int);
            match next_token(more) {
                None => err_is(r, "Enter a object ID, player name, prototype ID, or room ID."@),
                Some((id, _)) => if kind == "object"@ {
                    match id_value(id) {
                        Some(v) => script_action_is(r, actor, script, attach, TargetSpec::Object(v)),
                        None => err_is(r, id_error_text(IdParseError::ObjectId)),
                    }
                } else if kind == "player"@ {
                    script_action_is(r, actor, script, attach, TargetSpec::Player(id))
                } else if kind == "prototype"@ {
                    match id_value(id) {
                        Some(v) => script_action_is(r, actor, script, attach, TargetSpec::Prototype(v)),
                        None => err_is(r, id_error_text(IdParseError::PrototypeId)),
                    }
                } else if kind == "room"@ {
                    match id_value(id) {
                        Some(v) => script_action_is(r, actor, script, attach, TargetSpec::Room(v)),
                        None => err_is(r, id_error_text(IdParseError::RoomId)),
                    }
                } else {
                    err_is(r, "Enter a valid target type: object, player, prototype, or room."@)
                },
            }
        },
    }
}

/// `script <name> (attach-init|attach-post|attach-pre|attach-timer <timer>|detach) <type> <id>`.
pub open spec fn script_outcome(actor: EntityId, rest: Seq<char>, r: Result<Action, String>) -> bool {
    match next_token(rest) {
        None => err_is(r, "Enter a script name."@),
        Some((name, used)) => if !script_name_valid(name) {
            err_is(r, script_name_error())
        } else {
            let more = rest.subrange(used, rest.len() as int);
            match next_token(more) {
                None => err_is(r, "Enter a subcommand: attach-init, attach-post, attach-pre, attach-timer, or detach."@),
                Some((command, used2)) => {
                    let more2 = more.subrange(used2, more.len() as int);
                    if command == "attach-init"@ {
                        params_outcome(actor, name, more2, Some((TriggerKind::Init, None)), r)
                    } else if command == "attach-post"@ {
                        params_outcome(actor, name, more2, Some((TriggerKind::PostEvent, None)), r)
                    } else if command == "attach-pre"@ {
                        params_outcome(actor, name, more2, Some((TriggerKind::PreEvent, None)), r)
                    } else if command == "attach-timer"@ {
                        match next_token(more2) {
                            None => err_is(r, "Enter a timer name."@),
                            Some((timer, used3)) => params_outcome(actor, name, more2.subrange(used3, more2.len() as int),
                                Some((TriggerKind::Timer, Some(timer))), r),
                        }
                    } else if command == "detach"@ {
                        params_outcome(actor, name, more2, None, r)
                    } else {
                        err_is(r, "Enter a valid subcommand: attach-init, attach-post, attach-pre, attach-timer, or detach."@)
                    }
                },
            }
        },
    }
}

/// What a script command does once its target is known.
enum ScriptCommand {
    AttachInit,
    AttachPostAction,
    AttachPreAction,
    AttachTimer(String),
    Detach,
}

spec fn command_attach(c: ScriptCommand) -> Option<(TriggerKind, Option<Seq<char>>)> {
    match c {
        ScriptCommand::AttachInit => Some((TriggerKind::Init, None)),
        ScriptCommand::AttachPostAction => Some((TriggerKind::PostEvent, None)),
        ScriptCommand::AttachPreAction => Some((TriggerKind::PreEvent, None)),
        ScriptCommand::AttachTimer(t) => Some((TriggerKind::Timer, Some(t@))),
        ScriptCommand::Detach => None,
    }
}

fn into_action(command: ScriptCommand, actor: EntityId, script: ScriptName, target: AttachTarget,
    Ghost(expected): Ghost<TargetSpec>) -> (r: Result<Action, String>)
    requires
        attach_target_is(target, expected),
    ensures
        script_action_is(r, actor, script@, command_attach(command), expected),
{
    match command {
        ScriptCommand::AttachInit => Ok(Action::ScriptAttach(ScriptAttach {
            actor,
            script,
            trigger: TriggerKind::Init,
            target,
            timer: None,
        })),
        ScriptCommand::AttachPostAction => Ok(Action::ScriptAttach(ScriptAttach {
            actor,
            script,
            trigger: TriggerKind::PostEvent,
            target,
            timer: None,
        })),
        ScriptCommand::AttachPreAction => Ok(Action::ScriptAttach(ScriptAttach {
            actor,
            script,
            trigger: TriggerKind::PreEvent,
            target,
            timer: None,
        })),
        ScriptCommand::AttachTimer(name) => Ok(Action::ScriptAttach(ScriptAttach {
            actor,
            script,
            trigger: TriggerKind::Timer,
            target,
            timer: Some(name),
        })),
        ScriptCommand::Detach => Ok(Action::ScriptDetach(ScriptDetach { actor, script, target })),
    }
}

fn parse_params(player: EntityId, script: ScriptName, tokenizer: Tokenizer, command: ScriptCommand) -> (r: Result<Action, String>)
    requires
        tokenizer.wf(),
    ensures
        params_outcome(player, script@, tokenizer.rest_view(), command_attach(command), r),
{
    let mut tokenizer = tokenizer;
    let target_type = match tokenizer.next() {
        Some(t) => t,
        None => {
            return text_error("Enter a target type: object, player, prototype, or room.");
        },
    };
    let id = match tokenizer.next() {
        Some(t) => t,
        None => {
            return text_error("Enter a object ID, player name, prototype ID, or room ID.");
        },
    };
    if same_text(target_type, "object") {
        match ObjectId::from_str(id) {
            Ok(o) => into_action(command, player, script, AttachTarget::Id(Id::Object(o)), Ghost(TargetSpec::Object(o.value()))),
            Err(e) => Err(e.message()),
        }
    } else if same_text(target_type, "player") {
        into_action(command, player, script, AttachTarget::Player(owned(id)), Ghost(TargetSpec::Player(id@)))
    } else if same_text(target_type, "prototype") {
        match PrototypeId::from_str(id) {
            Ok(p) => into_action(command, player, script, AttachTarget::Id(Id::Prototype(p)), Ghost(TargetSpec::Prototype(p.value()))),
            Err(e) => Err(e.message()),
        }
    } else if same_text(target_type, "room") {
        match RoomId::from_str(id) {
            Ok(room) => into_action(command, player, script, AttachTarget::Id(Id::Room(room)), Ghost(TargetSpec::Room(room.0))),
            Err(e) => Err(e.message()),
        }
    } else {
        text_error("Enter a valid target type: object, player, prototype, or room.")
    }
}

/// Parses the arguments of the `script` command.
pub fn parse_script(player: EntityId, tokenizer: Tokenizer) -> (r: Result<Action, String>)
    requires
        tokenizer.wf(),
    ensures
        script_outcome(player, tokenizer.rest_view(), r),
{
    let mut tokenizer = tokenizer;
    let name = match tokenizer.next() {
        Some(t) => t,
        None => {
            return text_error("Enter a script name.");
        },
    };
    let script = match ScriptName::try_from_string(owned(name)) {
        Ok(n) => n,
        Err(e) => {
            return Err(e.message());
        },
    };
    let command = match tokenizer.next() {
        Some(c) => c,
        None => {
            return text_error("Enter a subcommand: attach-init, attach-post, attach-pre, attach-timer, or detach.");
        },
    };
    if same_text(command, "attach-init") {
        parse_params(player, script, tokenizer, ScriptCommand::AttachInit)
    } else if same_text(command, "attach-post") {
        parse_params(player, script, tokenizer, ScriptCommand::AttachPostAction)
    } else if same_text(command, "attach-pre") {
        parse_params(player, script, tokenizer, ScriptCommand::AttachPreAction)
    } else if same_text(command, "attach-timer") {
        match tokenizer.next() {
            Some(timer_name) => parse_params(player, script, tokenizer, ScriptCommand::AttachTimer(owned(timer_name))),
            None => text_error("Enter a timer name."),
        }
    } else if same_text(command, "detach") {
        parse_params(player, script, tokenizer, ScriptCommand::Detach)
    } else {
        text_error("Enter a valid subcommand: attach-init, attach-post, attach-pre, attach-timer, or detach.")
    }
}

/// What running a command by its full name on its arguments gives: `None` for the
/// commands whose arguments are read elsewhere (`emote`, `me`, `player`, `say`, `send`)
/// and for names of no command.
pub open spec fn call_outcome(actor: EntityId, name: Seq<char>, args: Seq<char>, r: Option<Result<Action, String>>) -> bool {
    if name == "description"@ {
        r matches Some(Ok(Action::UpdateDescription(u))) && u.actor == actor && u.target is PlayerSelf
            && u.description@ == args
    } else if name == "down"@ {
        r matches Some(Ok(Action::Move(m))) && m.actor == actor && m.direction == Direction::Down
    } else if name == "east"@ {
        r matches Some(Ok(Action::Move(m))) && m.actor == actor && m.direction == Direction::East
    } else if name == "north"@ {
        r matches Some(Ok(Action::Move(m))) && m.actor == actor && m.direction == Direction::North
    } else if name == "south"@ {
        r matches Some(Ok(Action::Move(m))) && m.actor == actor && m.direction == Direction::South
    } else if name == "up"@ {
        r matches Some(Ok(Action::Move(m))) && m.actor == actor && m.direction == Direction::Up
    } else if name == "west"@ {
        r matches Some(Ok(Action::Move(m))) && m.actor == actor && m.direction == Direction::West
    } else if name == "drop"@ {
        r matches Some(x) && keywords_outcome(args, "Drop what?"@, x, |a: Action| dropped(a))
            && (x matches Ok(a) ==> actor_of(a) == actor)
    } else if name == "exits"@ {
        r matches Some(Ok(Action::Exits(e))) && e.actor == actor
    } else if name == "get"@ {
        r matches Some(x) && keywords_outcome(args, "Get what?"@, x, |a: Action| gotten(a))
            && (x matches Ok(a) ==> actor_of(a) == actor)
    } else if name == "inventory"@ {
        r matches Some(Ok(Action::Inventory(i))) && i.actor == actor
    } else if name == "look"@ {
        r matches Some(x) && look_outcome(actor, args, x)
    } else if name == "object"@ {
        r matches Some(x) && object_outcome(actor, args, x)
    } else if name == "prototype"@ {
        r matches Some(x) && prototype_outcome(actor, args, x)
    } else if name == "restart"@ {
        r matches Some(Ok(Action::Restart(x))) && x.actor == actor
    } else if name == "room"@ {
        r matches Some(x) && room_outcome(actor, args, x)
    } else if name == "scripts"@ {
        r matches Some(x) && script_outcome(actor, args, x)
    } else if name == "stats"@ {
        r matches Some(Ok(Action::Stats(x))) && x.actor == actor
    } else if name == "shutdown"@ {
        r matches Some(Ok(Action::Shutdown(x))) && x.actor == actor
    } else if name == "teleport"@ {
        r matches Some(x) && teleport_outcome(actor, args, x)
    } else if name == "use"@ {
        r matches Some(x) && keywords_outcome(args, "Use what?"@, x, |a: Action| used(a))
            && (x matches Ok(a) ==> actor_of(a) == actor)
    } else if name == "who"@ {
        r matches Some(Ok(Action::Who(x))) && x.actor == actor
    } else {
        r is None
    }
}

/// Runs a command, named in full, on its arguments.
pub fn run_call(actor: EntityId, call: &Call) -> (r: Option<Result<Action, String>>)
    ensures
        call_outcome(actor, call.command@, call.arguments@, r),
{
    let name = call.command.as_str();
    let t = Tokenizer::new(call.arguments.as_str());
    if same_text(name, "description") {
        Some(Ok(Action::UpdateDescription(UpdateDescription {
            actor,
            target: ActionTarget::PlayerSelf,
            description: owned(t.rest()),
        })))
    } else if same_text(name, "down") {
        Some(Ok(Action::Move(Move { actor, direction: Direction::Down })))
    } else if same_text(name, "east") {
        Some(Ok(Action::Move(Move { actor, direction: Direction::East })))
    } else if same_text(name, "north") {
        Some(Ok(Action::Move(Move { actor, direction: Direction::North })))
    } else if same_text(name, "south") {
        Some(Ok(Action::Move(Move { actor, direction: Direction::South })))
    } else if same_text(name, "up") {
        Some(Ok(Action::Move(Move { actor, direction: Direction::Up })))
    } else if same_text(name, "west") {
        Some(Ok(Action::Move(Move { actor, direction: Direction::West })))
    } else if same_text(name, "drop") {
        Some(parse_drop(actor, t))
    } else if same_text(name, "exits") {
        Some(Ok(Action::Exits(Exits { actor })))
    } else if same_text(name, "get") {
        Some(parse_get(actor, t))
    } else if same_text(name, "inventory") {
        Some(Ok(Action::Inventory(Inventory { actor })))
    } else if same_text(name, "look") {
        Some(parse_look(actor, t))
    } else if same_text(name, "object") {
        Some(parse_object(actor, t))
    } else if same_text(name, "prototype") {
        Some(parse_prototype(actor, t))
    } else if same_text(name, "restart") {
        Some(Ok(Action::Restart(Restart { actor })))
    } else if same_text(name, "room") {
        Some(parse_room(actor, t))
    } else if same_text(name, "scripts") {
        Some(parse_script(actor, t))
    } else if same_text(name, "stats") {
        Some(parse_stats(actor, t))
    } else if same_text(name, "shutdown") {
        Some(Ok(Action::Shutdown(Shutdown { actor })))
    } else if same_text(name, "teleport") {
        Some(parse_teleport(actor, t))
    } else if same_text(name, "use") {
        Some(parse_use(actor, t))
    } else if same_text(name, "who") {
        Some(Ok(Action::Who(Who { actor })))
    } else {
        None
    }
}

/// Reads a line a player typed into an action: the command is found by `commands`, then
/// its arguments are parsed; `None` where the command's arguments are read elsewhere.
pub fn parse_command(commands: &Commands, actor: EntityId, input: &str, restricted: bool) -> (r: Option<Result<Action, String>>)
    requires
        commands.wf(),
    ensures
        exists|c: Result<(Seq<char>, Seq<char>), Seq<char>>| #[trigger] parse_outcome(commands, input@, restricted, c) && match c {
            Err(e) => r matches Some(Err(m)) && m@ == e,
            Ok((name, args)) => call_outcome(actor, name, args, r),
        },
{
    match commands.parse(input, restricted) {
        Ok(call) => run_call(actor, &call),
        Err(e) => Some(Err(e)),
    }
}

} // verus!
