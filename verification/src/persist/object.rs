use vstd::prelude::*;
use crate::ids::{ObjectId, PrototypeId};
use crate::object::{Flags as ObjectFlagBits, InheritableFields};
use crate::persist::{one_bind, push_statement, statement, statements_view, three_binds, two_binds, BindValue, BindView, Statement, StatementView};
use crate::text::{join, join_words, strings_view};

verus! {

/// Records a new object made from a prototype; it takes its scripts from the prototype.
pub struct Create {
    id: ObjectId,
    prototype: PrototypeId,
}

impl Create {
    pub closed spec fn view_parts(&self) -> (ObjectId, PrototypeId) {
        (self.id, self.prototype)
    }

    pub fn new(id: ObjectId, prototype: PrototypeId) -> (c: Box<Create>)
        ensures
            c.view_parts() == (id, prototype),
    {
        Box::new(Create { id, prototype })
    }

    pub fn statements(&self) -> (v: Vec<Statement>)
        ensures
            statements_view(v@) == seq![StatementView {
                sql: "INSERT INTO objects (id, prototype_id, inherit_scripts, name) VALUES (?, ?, ?, NULL)"@,
                binds: seq![
                    BindView::Int(self.view_parts().0.value()),
                    BindView::Int(self.view_parts().1.value()),
                    BindView::Bool(true),
                ],
            }],
    {
        let mut v: Vec<Statement> = Vec::new();
        push_statement(&mut v, statement(
            "INSERT INTO objects (id, prototype_id, inherit_scripts, name) VALUES (?, ?, ?, NULL)",
            three_binds(BindValue::Int(self.id.get()), BindValue::Int(self.prototype.get()), BindValue::Bool(true)),
        ));
        v
    }
}

/// Sets the long description of an object.
pub struct Description {
    id: ObjectId,
    description: String,
}

impl Description {
    pub closed spec fn view_parts(&self) -> (ObjectId, Seq<char>) {
        (self.id, self.description@)
    }

    pub fn new(id: ObjectId, description: String) -> (d: Box<Description>)
        ensures
            d.view_parts() == (id, description@),
    {
        Box::new(Description { id, description })
    }

    pub fn statements(&self) -> (v: Vec<Statement>)
        ensures
            statements_view(v@) == seq![StatementView {
                sql: "UPDATE objects SET description = ? WHERE id = ?"@,
                binds: seq![BindView::Text(self.view_parts().1), BindView::Int(self.view_parts().0.value())],
            }],
    {
        let mut v: Vec<Statement> = Vec::new();
        push_statement(&mut v, statement(
            "UPDATE objects SET description = ? WHERE id = ?",
            two_binds(BindValue::Text(self.description.clone()), BindValue::Int(self.id.get())),
        ));
        v
    }
}

/// Sets the flags of an object.
pub struct Flags {
    id: ObjectId,
    flags: ObjectFlagBits,
}

impl Flags {
    pub closed spec fn view_parts(&self) -> (ObjectId, i64) {
        (self.id, self.flags.bits)
    }

    pub fn new(id: ObjectId, flags: ObjectFlagBits) -> (f: Box<Flags>)
        ensures
            f.view_parts() == (id, flags.bits),
    {
        Box::new(Flags { id, flags })
    }

    pub fn statements(&self) -> (v: Vec<Statement>)
        ensures
            statements_view(v@) == seq![StatementView {
                sql: "UPDATE objects SET flags = ? WHERE id = ?"@,
                binds: seq![BindView::Int(self.view_parts().1), BindView::Int(self.view_parts().0.value())],
            }],
    {
        let mut v: Vec<Statement> = Vec::new();
        push_statement(&mut v, statement(
            "UPDATE objects SET flags = ? WHERE id = ?",
            two_binds(BindValue::Int(self.flags.bits), BindValue::Int(self.id.get())),
        ));
        v
    }
}

/// The statements that make one field of an object follow its prototype again: the
/// column is cleared, and for scripts the object's own scripts are dropped.
pub open spec fn inherit_field_plan(id: i64, f: InheritableFields) -> Seq<StatementView> {
    match f {
        InheritableFields::Flags => seq![StatementView {
            sql: "UPDATE objects SET flags = null WHERE id = ?"@,
            binds: seq![BindView::Int(id)],
        }],
        InheritableFields::Name => seq![StatementView {
            sql: "UPDATE objects SET name = null WHERE id = ?"@,
            binds: seq![BindView::Int(id)],
        }],
        InheritableFields::Description => seq![StatementView {
            sql: "UPDATE objects SET description = null WHERE id = ?"@,
            binds: seq![BindView::Int(id)],
        }],
        InheritableFields::Keywords => seq![StatementView {
            sql: "UPDATE objects SET keywords = null WHERE id = ?"@,
            binds: seq![BindView::Int(id)],
        }],
        InheritableFields::Scripts => seq![
            StatementView {
                sql: "UPDATE objects SET inherit_scripts = true WHERE id = ?"@,
                binds: seq![BindView::Int(id)],
            },
            StatementView {
                sql: "DELETE FROM object_scripts WHERE object_id = ?"@,
                binds: seq![BindView::Int(id)],
            },
        ],
    }
}

/// The statements for a list of fields, field by field in order.
pub open spec fn inherit_plan(id: i64, fields: Seq<InheritableFields>) -> Seq<StatementView>
    decreases fields.len(),
{
    if fields.len() == 0 {
        seq![]
    } else {
        inherit_plan(id, fields.drop_last()) + inherit_field_plan(id, fields.last())
    }
}

/// Makes fields of an object follow its prototype again.
pub struct Inherit {
    id: ObjectId,
    fields: Vec<InheritableFields>,
}

impl Inherit {
    pub closed spec fn view_parts(&self) -> (ObjectId, Seq<InheritableFields>) {
        (self.id, self.fields@)
    }

    pub fn new(id: ObjectId, fields: Vec<InheritableFields>) -> (i: Box<Inherit>)
        ensures
            i.view_parts() == (id, fields@),
    {
        Box::new(Inherit { id, fields })
    }

    pub fn statements(&self) -> (v: Vec<Statement>)
        ensures
            statements_view(v@) == inherit_plan(self.view_parts().0.value(), self.view_parts().1),
    {
        let id = self.id.get();
        let mut v: Vec<Statement> = Vec::new();
        let mut i: usize = 0;
        while i < self.fields.len()
            invariant
                i <= self.fields.len(),
                id == self.id.value(),
                statements_view(v@) == inherit_plan(id as i64, self.fields@.take(i as int)),
            decreases self.fields.len() - i,
        {
            let ghost before = statements_view(v@);
            let field = self.fields[i];
            match field {
                InheritableFields::Flags => {
                    push_statement(&mut v, statement(
                        "UPDATE objects SET flags = null WHERE id = ?", one_bind(BindValue::Int(id))));
                },
                InheritableFields::Name => {
                    push_statement(&mut v, statement(
                        "UPDATE objects SET name = null WHERE id = ?", one_bind(BindValue::Int(id))));
                },
                InheritableFields::Description => {
                    push_statement(&mut v, statement(
                        "UPDATE objects SET description = null WHERE id = ?", one_bind(BindValue::Int(id))));
                },
                InheritableFields::Keywords => {
                    push_statement(&mut v, statement(
                        "UPDATE objects SET keywords = null WHERE id = ?", one_bind(BindValue::Int(id))));
                },
                InheritableFields::Scripts => {
                    push_statement(&mut v, statement(
                        "UPDATE objects SET inherit_scripts = true WHERE id = ?", one_bind(BindValue::Int(id))));
                    push_statement(&mut v, statement(
                        "DELETE FROM object_scripts WHERE object_id = ?", one_bind(BindValue::Int(id))));
                },
            }
            proof {
                let t = self.fields@.take(i + 1);
                assert(t.drop_last() =~= self.fields@.take(i as int));
                assert(t.last() == field);
                assert(statements_view(v@) =~= before + inherit_field_plan(id as i64, field));
            }
            i = i + 1;
        }
        assert(self.fields@.take(self.fields.len() as int) =~= self.fields@);
        v
    }
}

/// Sets the keywords of an object, stored joined by commas.
pub struct Keywords {
    id: ObjectId,
    keywords: Vec<String>,
}

impl Keywords {
    pub closed spec fn view_parts(&self) -> (ObjectId, Seq<Seq<char>>) {
        (self.id, strings_view(self.keywords@))
    }

    pub fn new(id: ObjectId, keywords: Vec<String>) -> (k: Box<Keywords>)
        ensures
            k.view_parts() == (id, strings_view(keywords@)),
    {
        Box::new(Keywords { id, keywords })
    }

    pub fn statements(&self) -> (v: Vec<Statement>)
        ensures
            statements_view(v@) == seq![StatementView {
                sql: "UPDATE objects SET keywords = ? WHERE id = ?"@,
                binds: seq![
                    BindView::Text(join(self.view_parts().1, ","@)),
                    BindView::Int(self.view_parts().0.value()),
                ],
            }],
    {
        let joined = join_words(&self.keywords, ",");
        let mut v: Vec<Statement> = Vec::new();
        push_statement(&mut v, statement(
            "UPDATE objects SET keywords = ? WHERE id = ?",
            two_binds(BindValue::Text(joined), BindValue::Int(self.id.get())),
        ));
        v
    }
}

/// Sets the short description of an object.
pub struct Name {
    id: ObjectId,
    name: String,
}

impl Name {
    pub closed spec fn view_parts(&self) -> (ObjectId, Seq<char>) {
        (self.id, self.name@)
    }

    pub fn new(id: ObjectId, name: String) -> (n: Box<Name>)
        ensures
            n.view_parts() == (id, name@),
    {
        Box::new(Name { id, name })
    }

    pub fn statements(&self) -> (v: Vec<Statement>)
        ensures
            statements_view(v@) == seq![StatementView {
                sql: "UPDATE objects SET name = ? WHERE id = ?"@,
                binds: seq![BindView::Text(self.view_parts().1), BindView::Int(self.view_parts().0.value())],
            }],
    {
        let mut v: Vec<Statement> = Vec::new();
        push_statement(&mut v, statement(
            "UPDATE objects SET name = ? WHERE id = ?",
            two_binds(BindValue::Text(self.name.clone()), BindValue::Int(self.id.get())),
        ));
        v
    }
}

/// Deletes an object.
pub struct Remove {
    object_id: ObjectId,
}

impl Remove {
    pub closed spec fn view_parts(&self) -> ObjectId {
        self.object_id
    }

    pub fn new(object_id: ObjectId) -> (r: Box<Remove>)
        ensures
            r.view_parts() == object_id,
    {
        Box::new(Remove { object_id })
    }

    pub fn statements(&self) -> (v: Vec<Statement>)
        ensures
            statements_view(v@) == seq![StatementView {
                sql: "DELETE FROM objects WHERE id = ?"@,
                binds: seq![BindView::Int(self.view_parts().value())],
            }],
    {
        let mut v: Vec<Statement> = Vec::new();
        push_statement(&mut v, statement("DELETE FROM objects WHERE id = ?", one_bind(BindValue::Int(self.object_id.get()))));
        v
    }
}

} // verus!
