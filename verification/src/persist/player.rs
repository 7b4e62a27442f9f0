use vstd::prelude::*;
use crate::ids::{ObjectId, PlayerId, RoomId};
use crate::persist::{push_statement, statement, statements_view, two_binds, BindValue, BindView, Statement, StatementView};

verus! {

/// Moves a player to a room.
pub struct Room {
    player_id: PlayerId,
    room_id: RoomId,
}

impl Room {
    pub closed spec fn view_parts(&self) -> (PlayerId, RoomId) {
        (self.player_id, self.room_id)
    }

    pub fn new(player_id: PlayerId, room_id: RoomId) -> (r: Box<Room>)
        ensures
            r.view_parts() == (player_id, room_id),
    {
        Box::new(Room { player_id, room_id })
    }

    pub fn statements(&self) -> (v: Vec<Statement>)
        ensures
            statements_view(v@) == seq![StatementView {
                sql: "UPDATE players SET room = ? WHERE id = ?"@,
                binds: seq![BindView::Int(self.view_parts().1.0), BindView::Int(self.view_parts().0.0)],
            }],
    {
        let mut v: Vec<Statement> = Vec::new();
        push_statement(&mut v, statement(
            "UPDATE players SET room = ? WHERE id = ?",
            two_binds(BindValue::Int(self.room_id.0), BindValue::Int(self.player_id.0)),
        ));
        v
    }
}

/// Records that a player carries an object.
pub struct AddObject {
    player_id: PlayerId,
    object_id: ObjectId,
}

impl AddObject {
    pub closed spec fn view_parts(&self) -> (PlayerId, ObjectId) {
        (self.player_id, self.object_id)
    }

    pub fn new(player_id: PlayerId, object_id: ObjectId) -> (r: Box<AddObject>)
        ensures
            r.view_parts() == (player_id, object_id),
    {
        Box::new(AddObject { player_id, object_id })
    }

    pub fn statements(&self) -> (v: Vec<Statement>)
        ensures
            statements_view(v@) == seq![StatementView {
                sql: "INSERT INTO player_objects (player_id, object_id) VALUES (?, ?)"@,
                binds: seq![BindView::Int(self.view_parts().0.0), BindView::Int(self.view_parts().1.value())],
            }],
    {
        let mut v: Vec<Statement> = Vec::new();
        push_statement(&mut v, statement(
            "INSERT INTO player_objects (player_id, object_id) VALUES (?, ?)",
            two_binds(BindValue::Int(self.player_id.0), BindValue::Int(self.object_id.get())),
        ));
        v
    }
}

/// Sets the description of a player.
pub struct Description {
    id: PlayerId,
    description: String,
}

impl Description {
    pub closed spec fn view_parts(&self) -> (PlayerId, Seq<char>) {
        (self.id, self.description@)
    }

    pub fn new(id: PlayerId, description: String) -> (r: Box<Description>)
        ensures
            r.view_parts() == (id, description@),
    {
        Box::new(Description { id, description })
    }

    pub fn statements(&self) -> (v: Vec<Statement>)
        ensures
            statements_view(v@) == seq![StatementView {
                sql: "UPDATE players SET description = ? WHERE id = ?"@,
                binds: seq![BindView::Text(self.view_parts().1), BindView::Int(self.view_parts().0.0)],
            }],
    {
        let mut v: Vec<Statement> = Vec::new();
        push_statement(&mut v, statement(
            "UPDATE players SET description = ? WHERE id = ?",
            two_binds(BindValue::Text(self.description.clone()), BindValue::Int(self.id.0)),
        ));
        v
    }
}

/// Sets the flags of a player, as bits.
pub struct Flags {
    id: PlayerId,
    flags: i64,
}

impl Flags {
    pub closed spec fn view_parts(&self) -> (PlayerId, i64) {
        (self.id, self.flags)
    }

    pub fn new(id: PlayerId, flags: i64) -> (r: Box<Flags>)
        ensures
            r.view_parts() == (id, flags),
    {
        Box::new(Flags { id, flags })
    }

    pub fn statements(&self) -> (v: Vec<Statement>)
        ensures
            statements_view(v@) == seq![StatementView {
                sql: "UPDATE players SET flags = ? WHERE id = ?"@,
                binds: seq![BindView::Int(self.view_parts().1), BindView::Int(self.view_parts().0.0)],
            }],
    {
        let mut v: Vec<Statement> = Vec::new();
        push_statement(&mut v, statement(
            "UPDATE players SET flags = ? WHERE id = ?",
            two_binds(BindValue::Int(self.flags), BindValue::Int(self.id.0)),
        ));
        v
    }
}

/// Records that a player no longer carries an object.
pub struct RemoveObject {
    player_id: PlayerId,
    object_id: ObjectId,
}

impl RemoveObject {
    pub closed spec fn view_parts(&self) -> (PlayerId, ObjectId) {
        (self.player_id, self.object_id)
    }

    pub fn new(player_id: PlayerId, object_id: ObjectId) -> (r: Box<RemoveObject>)
        ensures
            r.view_parts() == (player_id, object_id),
    {
        Box::new(RemoveObject { player_id, object_id })
    }

    pub fn statements(&self) -> (v: Vec<Statement>)
        ensures
            statements_view(v@) == seq![StatementView {
                sql: "DELETE FROM player_objects WHERE player_id = ? AND object_id = ?"@,
                binds: seq![BindView::Int(self.view_parts().0.0), BindView::Int(self.view_parts().1.value())],
            }],
    {
        let mut v: Vec<Statement> = Vec::new();
        push_statement(&mut v, statement(
            "DELETE FROM player_objects WHERE player_id = ? AND object_id = ?",
            two_binds(BindValue::Int(self.player_id.0), BindValue::Int(self.object_id.get())),
        ));
        v
    }
}

} // verus!
