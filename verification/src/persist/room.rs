use vstd::prelude::*;
use crate::ids::{ObjectId, RoomId};
use crate::persist::{
    one_bind, push_statement, statement, statements_view, three_binds, two_binds, BindValue,
    BindView, Statement, StatementView,
};
use crate::client::same_text;
use crate::text::strings_view;

verus! {

/// The six ways out of a room.
#[derive(Debug, Copy, Clone, PartialEq, Eq, Structural)]
pub enum Direction {
    North,
    East,
    South,
    West,
    Up,
    Down,
}

/// The word a direction is stored and typed as.
pub open spec fn direction_word(d: Direction) -> Seq<char> {
    match d {
        Direction::North => "north"@,
        Direction::East => "east"@,
        Direction::South => "south"@,
        Direction::West => "west"@,
        Direction::Up => "up"@,
        Direction::Down => "down"@,
    }
}

impl Direction {
    pub fn as_str(&self) -> (s: &'static str)
        ensures
            s@ == direction_word(*self),
    {
        match self {
            Direction::North => "north",
            Direction::East => "east",
            Direction::South => "south",
            Direction::West => "west",
            Direction::Up => "up",
            Direction::Down => "down",
        }
    }

    /// The direction a word names (the match is exact).
    pub fn from_str(s: &str) -> (r: Option<Direction>)
        ensures
            r == direction_of(s@),
    {
        if same_text(s, "north") {
            Some(Direction::North)
        } else if same_text(s, "east") {
            Some(Direction::East)
        } else if same_text(s, "south") {
            Some(Direction::South)
        } else if same_text(s, "west") {
            Some(Direction::West)
        } else if same_text(s, "up") {
            Some(Direction::Up)
        } else if same_text(s, "down") {
            Some(Direction::Down)
        } else {
            None
        }
    }
}

/// The direction a word names, where it names one.
pub open spec fn direction_of(s: Seq<char>) -> Option<Direction> {
    if s == "north"@ {
        Some(Direction::North)
    } else if s == "east"@ {
        Some(Direction::East)
    } else if s == "south"@ {
        Some(Direction::South)
    } else if s == "west"@ {
        Some(Direction::West)
    } else if s == "up"@ {
        Some(Direction::Up)
    } else if s == "down"@ {
        Some(Direction::Down)
    } else {
        None
    }
}

/// A direction read back from the word it is stored as is the same direction.
pub proof fn direction_word_round_trip(d: Direction)
    ensures
        direction_of(direction_word(d)) == Some(d),
{
    reveal_strlit("north");
    reveal_strlit("east");
    reveal_strlit("south");
    reveal_strlit("west");
    reveal_strlit("up");
    reveal_strlit("down");
    assert("east"@[0] == 'e' && "west"@[0] == 'w' && "south"@[0] == 's');
    assert("up"@[0] == 'u' && "down"@[0] == 'd' && "north"@[0] == 'n');
}

/// Stores an exit from one room to another.
pub struct AddExit {
    from_id: RoomId,
    to_id: RoomId,
    direction: Direction,
}

impl AddExit {
    pub closed spec fn view_parts(&self) -> (RoomId, RoomId, Direction) {
        (self.from_id, self.to_id, self.direction)
    }

    pub fn new(from_id: RoomId, to_id: RoomId, direction: Direction) -> (a: Box<AddExit>)
        ensures
            a.view_parts() == (from_id, to_id, direction),
    {
        Box::new(AddExit { from_id, to_id, direction })
    }

    pub fn statements(&self) -> (v: Vec<Statement>)
        ensures
            statements_view(v@) == seq![StatementView {
                sql: "INSERT INTO exits (room_from, room_to, direction) VALUES (?, ?, ?)"@,
                binds: seq![
                    BindView::Int(self.view_parts().0.0),
                    BindView::Int(self.view_parts().1.0),
                    BindView::Text(direction_word(self.view_parts().2)),
                ],
            }],
    {
        let mut v: Vec<Statement> = Vec::new();
        push_statement(&mut v, statement(
            "INSERT INTO exits (room_from, room_to, direction) VALUES (?, ?, ?)",
            three_binds(
                BindValue::Int(self.from_id.0),
                BindValue::Int(self.to_id.0),
                BindValue::Text(self.direction.as_str().to_owned()),
            ),
        ));
        v
    }
}

/// Deletes the exit of a room in one direction.
pub struct RemoveExit {
    id: RoomId,
    direction: Direction,
}

impl RemoveExit {
    pub closed spec fn view_parts(&self) -> (RoomId, Direction) {
        (self.id, self.direction)
    }

    pub fn new(id: RoomId, direction: Direction) -> (r: Box<RemoveExit>)
        ensures
            r.view_parts() == (id, direction),
    {
        Box::new(RemoveExit { id, direction })
    }

    pub fn statements(&self) -> (v: Vec<Statement>)
        ensures
            statements_view(v@) == seq![StatementView {
                sql: "DELETE FROM exits WHERE room_from = ? AND direction = ?"@,
                binds: seq![
                    BindView::Int(self.view_parts().0.0),
                    BindView::Text(direction_word(self.view_parts().1)),
                ],
            }],
    {
        let mut v: Vec<Statement> = Vec::new();
        push_statement(&mut v, statement(
            "DELETE FROM exits WHERE room_from = ? AND direction = ?",
            two_binds(BindValue::Int(self.id.0), BindValue::Text(self.direction.as_str().to_owned())),
        ));
        v
    }
}

/// Deletes a room.
pub struct Delete {
    id: RoomId,
}

impl Delete {
    pub closed spec fn view_id(&self) -> RoomId {
        self.id
    }

    pub fn new(id: RoomId) -> (d: Box<Delete>)
        ensures
            d.view_id() == id,
    {
        Box::new(Delete { id })
    }

    pub fn statements(&self) -> (v: Vec<Statement>)
        ensures
            statements_view(v@) == seq![StatementView {
                sql: "DELETE FROM rooms WHERE id = ?"@,
                binds: seq![BindView::Int(self.view_id().0)],
            }],
    {
        let mut v: Vec<Statement> = Vec::new();
        push_statement(&mut v, statement("DELETE FROM rooms WHERE id = ?", one_bind(BindValue::Int(self.id.0))));
        v
    }
}

/// One step of changing the regions a room belongs to. Linking looks the region up by
/// name, creates it when there is none, and records that the room belongs to it;
/// unlinking removes that record where the region exists.
pub enum RegionStep {
    ClearRoom(RoomId),
    Link(RoomId, String),
    Unlink(RoomId, String),
}

pub enum RegionStepView {
    ClearRoom(RoomId),
    Link(RoomId, Seq<char>),
    Unlink(RoomId, Seq<char>),
}

impl View for RegionStep {
    type V = RegionStepView;

    open spec fn view(&self) -> RegionStepView {
        match self {
            RegionStep::ClearRoom(id) => RegionStepView::ClearRoom(*id),
            RegionStep::Link(id, name) => RegionStepView::Link(*id, name@),
            RegionStep::Unlink(id, name) => RegionStepView::Unlink(*id, name@),
        }
    }
}

pub open spec fn steps_view(s: Seq<RegionStep>) -> Seq<RegionStepView> {
    s.map_values(|r: RegionStep| r@)
}

/// Links a room to each region, in order.
pub open spec fn link_steps(id: RoomId, regions: Seq<Seq<char>>) -> Seq<RegionStepView> {
    regions.map_values(|r: Seq<char>| RegionStepView::Link(id, r))
}

/// Unlinks a room from each region, in order.
pub open spec fn unlink_steps(id: RoomId, regions: Seq<Seq<char>>) -> Seq<RegionStepView> {
    regions.map_values(|r: Seq<char>| RegionStepView::Unlink(id, r))
}

/// Appends a link or unlink step for each region.
fn push_region_steps(out: &mut Vec<RegionStep>, id: RoomId, regions: &Vec<String>, link: bool)
    ensures
        steps_view(final(out)@) == steps_view(old(out)@) + if link {
            link_steps(id, strings_view(regions@))
        } else {
            unlink_steps(id, strings_view(regions@))
        },
{
    let ghost start = steps_view(out@);
    let mut i: usize = 0;
    while i < regions.len()
        invariant
            i <= regions.len(),
            steps_view(out@) == start + if link {
                link_steps(id, strings_view(regions@.take(i as int)))
            } else {
                unlink_steps(id, strings_view(regions@.take(i as int)))
            },
        decreases regions.len() - i,
    {
        let name = regions[i].clone();
        let ghost nv = name@;
        let ghost before = out@;
        let ghost prev = strings_view(regions@.take(i as int));
        if link {
            out.push(RegionStep::Link(id, name));
            assert(steps_view(out@) =~= steps_view(before).push(RegionStepView::Link(id, nv)));
        } else {
            out.push(RegionStep::Unlink(id, name));
            assert(steps_view(out@) =~= steps_view(before).push(RegionStepView::Unlink(id, nv)));
        }
        i = i + 1;
        proof {
            assert(regions@.take(i as int) == regions@.take((i - 1) as int).push(regions@[i - 1]));
            assert(strings_view(regions@.take(i as int)) =~= prev.push(nv));
            assert(link_steps(id, prev.push(nv)) =~= link_steps(id, prev).push(RegionStepView::Link(id, nv)));
            assert(unlink_steps(id, prev.push(nv)) =~= unlink_steps(id, prev).push(RegionStepView::Unlink(id, nv)));
        }
    }
    assert(regions@.take(regions.len() as int) == regions@);
}

/// Adds a room to regions.
pub struct AddRegions {
    id: RoomId,
    regions: Vec<String>,
}

impl AddRegions {
    pub closed spec fn view_id(&self) -> RoomId {
        self.id
    }

    pub closed spec fn view_regions(&self) -> Seq<Seq<char>> {
        strings_view(self.regions@)
    }

    pub fn new(id: RoomId, regions: Vec<String>) -> (a: Box<AddRegions>)
        ensures
            a.view_id() == id,
            a.view_regions() == strings_view(regions@),
    {
        Box::new(AddRegions { id, regions })
    }

    /// A link step for each region, in order.
    pub fn steps(&self) -> (v: Vec<RegionStep>)
        ensures
            steps_view(v@) == link_steps(self.view_id(), self.view_regions()),
    {
        let mut v: Vec<RegionStep> = Vec::new();
        push_region_steps(&mut v, self.id, &self.regions, true);
        assert(steps_view(v@) =~= link_steps(self.view_id(), self.view_regions()));
        v
    }
}

/// Takes a room out of regions.
pub struct RemoveRegions {
    id: RoomId,
    regions: Vec<String>,
}

impl RemoveRegions {
    pub closed spec fn view_id(&self) -> RoomId {
        self.id
    }

    pub closed spec fn view_regions(&self) -> Seq<Seq<char>> {
        strings_view(self.regions@)
    }

    pub fn new(id: RoomId, regions: Vec<String>) -> (r: Box<RemoveRegions>)
        ensures
            r.view_id() == id,
            r.view_regions() == strings_view(regions@),
    {
        Box::new(RemoveRegions { id, regions })
    }

    /// An unlink step for each region, in order.
    pub fn steps(&self) -> (v: Vec<RegionStep>)
        ensures
            steps_view(v@) == unlink_steps(self.view_id(), self.view_regions()),
    {
        let mut v: Vec<RegionStep> = Vec::new();
        push_region_steps(&mut v, self.id, &self.regions, false);
        assert(steps_view(v@) =~= unlink_steps(self.view_id(), self.view_regions()));
        v
    }
}

/// Replaces the regions a room belongs to.
pub struct SetRegions {
    id: RoomId,
    regions: Vec<String>,
}

impl SetRegions {
    pub closed spec fn view_id(&self) -> RoomId {
        self.id
    }

    pub closed spec fn view_regions(&self) -> Seq<Seq<char>> {
        strings_view(self.regions@)
    }

    pub fn new(id: RoomId, regions: Vec<String>) -> (s: Box<SetRegions>)
        ensures
            s.view_id() == id,
            s.view_regions() == strings_view(regions@),
    {
        Box::new(SetRegions { id, regions })
    }

    /// Clears the room's regions, then a link step for each region, in order.
    pub fn steps(&self) -> (v: Vec<RegionStep>)
        ensures
            steps_view(v@) == seq![RegionStepView::ClearRoom(self.view_id())] + link_steps(self.view_id(), self.view_regions()),
    {
        let mut v: Vec<RegionStep> = Vec::new();
        v.push(RegionStep::ClearRoom(self.id));
        assert(steps_view(v@) =~= seq![RegionStepView::ClearRoom(self.view_id())]);
        push_region_steps(&mut v, self.id, &self.regions, true);
        v
    }
}

/// Records that an object lies in a room.
pub struct AddObject {
    room_id: RoomId,
    object_id: ObjectId,
}

impl AddObject {
    pub closed spec fn view_parts(&self) -> (RoomId, ObjectId) {
        (self.room_id, self.object_id)
    }

    pub fn new(room_id: RoomId, object_id: ObjectId) -> (r: Box<AddObject>)
        ensures
            r.view_parts() == (room_id, object_id),
    {
        Box::new(AddObject { room_id, object_id })
    }

    pub fn statements(&self) -> (v: Vec<Statement>)
        ensures
            statements_view(v@) == seq![StatementView {
                sql: "INSERT INTO room_objects (room_id, object_id) VALUES (?, ?)"@,
                binds: seq![BindView::Int(self.view_parts().0.0), BindView::Int(self.view_parts().1.value())],
            }],
    {
        let mut v: Vec<Statement> = Vec::new();
        push_statement(&mut v, statement(
            "INSERT INTO room_objects (room_id, object_id) VALUES (?, ?)",
            two_binds(BindValue::Int(self.room_id.0), BindValue::Int(self.object_id.get())),
        ));
        v
    }
}

/// Stores a new room.
pub struct Create {
    id: RoomId,
    name: String,
    description: String,
}

impl Create {
    pub closed spec fn view_parts(&self) -> (RoomId, Seq<char>, Seq<char>) {
        (self.id, self.name@, self.description@)
    }

    pub fn new(id: RoomId, name: String, description: String) -> (r: Box<Create>)
        ensures
            r.view_parts() == (id, name@, description@),
    {
        Box::new(Create { id, name, description })
    }

    pub fn statements(&self) -> (v: Vec<Statement>)
        ensures
            statements_view(v@) == seq![StatementView {
                sql: "INSERT INTO rooms (id, name, description) VALUES (?, ?, ?)"@,
                binds: seq![BindView::Int(self.view_parts().0.0), BindView::Text(self.view_parts().1), BindView::Text(self.view_parts().2)],
            }],
    {
        let mut v: Vec<Statement> = Vec::new();
        push_statement(&mut v, statement(
            "INSERT INTO rooms (id, name, description) VALUES (?, ?, ?)",
            three_binds(BindValue::Int(self.id.0), BindValue::Text(self.name.clone()), BindValue::Text(self.description.clone())),
        ));
        v
    }
}

/// Sets the description of a room.
pub struct Description {
    id: RoomId,
    description: String,
}

impl Description {
    pub closed spec fn view_parts(&self) -> (RoomId, Seq<char>) {
        (self.id, self.description@)
    }

    pub fn new(id: RoomId, description: String) -> (r: Box<Description>)
        ensures
            r.view_parts() == (id, description@),
    {
        Box::new(Description { id, description })
    }

    pub fn statements(&self) -> (v: Vec<Statement>)
        ensures
            statements_view(v@) == seq![StatementView {
                sql: "UPDATE rooms SET description = ? WHERE id = ?"@,
                binds: seq![BindView::Text(self.view_parts().1), BindView::Int(self.view_parts().0.0)],
            }],
    {
        let mut v: Vec<Statement> = Vec::new();
        push_statement(&mut v, statement(
            "UPDATE rooms SET description = ? WHERE id = ?",
            two_binds(BindValue::Text(self.description.clone()), BindValue::Int(self.id.0)),
        ));
        v
    }
}

/// Sets the name of a room.
pub struct Name {
    id: RoomId,
    name: String,
}

impl Name {
    pub closed spec fn view_parts(&self) -> (RoomId, Seq<char>) {
        (self.id, self.name@)
    }

    pub fn new(id: RoomId, name: String) -> (r: Box<Name>)
        ensures
            r.view_parts() == (id, name@),
    {
        Box::new(Name { id, name })
    }

    pub fn statements(&self) -> (v: Vec<Statement>)
        ensures
            statements_view(v@) == seq![StatementView {
                sql: "UPDATE rooms SET name = ? WHERE id = ?"@,
                binds: seq![BindView::Text(self.view_parts().1), BindView::Int(self.view_parts().0.0)],
            }],
    {
        let mut v: Vec<Statement> = Vec::new();
        push_statement(&mut v, statement(
            "UPDATE rooms SET name = ? WHERE id = ?",
            two_binds(BindValue::Text(self.name.clone()), BindValue::Int(self.id.0)),
        ));
        v
    }
}

/// Records that an object no longer lies in a room.
pub struct RemoveObject {
    room_id: RoomId,
    object_id: ObjectId,
}

impl RemoveObject {
    pub closed spec fn view_parts(&self) -> (RoomId, ObjectId) {
        (self.room_id, self.object_id)
    }

    pub fn new(room_id: RoomId, object_id: ObjectId) -> (r: Box<RemoveObject>)
        ensures
            r.view_parts() == (room_id, object_id),
    {
        Box::new(RemoveObject { room_id, object_id })
    }

    pub fn statements(&self) -> (v: Vec<Statement>)
        ensures
            statements_view(v@) == seq![StatementView {
                sql: "DELETE FROM room_objects WHERE room_id = ? AND object_id = ?"@,
                binds: seq![BindView::Int(self.view_parts().0.0), BindView::Int(self.view_parts().1.value())],
            }],
    {
        let mut v: Vec<Statement> = Vec::new();
        push_statement(&mut v, statement(
            "DELETE FROM room_objects WHERE room_id = ? AND object_id = ?",
            two_binds(BindValue::Int(self.room_id.0), BindValue::Int(self.object_id.get())),
        ));
        v
    }
}

} // verus!
