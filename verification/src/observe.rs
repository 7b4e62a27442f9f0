use vstd::prelude::*;
use crate::chars::{push_str, string_from_chars};
use crate::client::{owned, EntityId};
use crate::commands::{listed_sorted, sorted_word_list};
use crate::object::{sort_strings, sorted_lex, Flags};
use crate::persist::room::{direction_word, Direction};
use crate::targeting::Target;
use crate::text::{join, join_words, strings_view};

verus! {

/// The words of a list of exits.
pub open spec fn exit_words(exits: Seq<Direction>) -> Seq<Seq<char>> {
    exits.map_values(|d: Direction| direction_word(d))
}

/// What a player is told of the exits of their room.
pub open spec fn exits_text(exits: Seq<Direction>, r: Seq<char>) -> bool {
    if exits.len() == 0 {
        r == "This room has no obvious exits."@
    } else {
        exists|l: Seq<char>| #[trigger] listed_sorted(exit_words(exits), l) && r == (if exits.len() == 1 {
            "There is an exit "@
        } else {
            "There are exits "@
        }) + l + "."@
    }
}

pub fn exits_message(exits: &Vec<Direction>) -> (r: String)
    ensures
        exits_text(exits@, r@),
{
    if exits.len() == 0 {
        return owned("This room has no obvious exits.");
    }
    let mut words: Vec<String> = Vec::new();
    let mut i: usize = 0;
    while i < exits.len()
        invariant
            i <= exits.len(),
            strings_view(words@) == exit_words(exits@.take(i as int)),
        decreases exits.len() - i,
    {
        let ghost raw = words@;
        let w = owned(exits[i].as_str());
        words.push(w);
        proof {
            raw.lemma_push_map_commute(|s: String| s@, w);
            assert(exit_words(exits@.take(i + 1)) =~= exit_words(exits@.take(i as int)).push(direction_word(exits@[i as int])));
        }
        i = i + 1;
    }
    assert(exits@.take(exits.len() as int) =~= exits@);
    let list = sorted_word_list(words);
    let mut out: Vec<char> = Vec::new();
    if exits.len() == 1 {
        push_str(&mut out, "There is an exit ");
    } else {
        push_str(&mut out, "There are exits ");
    }
    push_str(&mut out, list.as_str());
    push_str(&mut out, ".");
    let r = string_from_chars(&out);
    assert(listed_sorted(exit_words(exits@), list@));
    r
}

/// Each name indented by two spaces.
pub open spec fn indented(names: Seq<Seq<char>>) -> Seq<Seq<char>> {
    names.map_values(|n: Seq<char>| "  "@ + n)
}

/// The list of players online: their names, indented, sorted, one per line.
pub open spec fn who_text(names: Seq<Seq<char>>, r: Seq<char>) -> bool {
    exists|s: Seq<Seq<char>>| #[trigger] sorted_lex(s) && s.to_multiset() == indented(names).to_multiset()
        && r == "Online players:\r\n"@ + join(s, "\r\n"@)
}

pub fn who_message(names: &Vec<String>) -> (r: String)
    ensures
        who_text(strings_view(names@), r@),
{
    let mut lines: Vec<String> = Vec::new();
    let mut i: usize = 0;
    while i < names.len()
        invariant
            i <= names.len(),
            strings_view(lines@) == indented(strings_view(names@).take(i as int)),
        decreases names.len() - i,
    {
        let mut out: Vec<char> = Vec::new();
        push_str(&mut out, "  ");
        push_str(&mut out, names[i].as_str());
        let ghost raw = lines@;
        let w = string_from_chars(&out);
        lines.push(w);
        proof {
            raw.lemma_push_map_commute(|s: String| s@, w);
            assert(indented(strings_view(names@).take(i + 1)) =~= indented(strings_view(names@).take(i as int)).push(
                "  "@ + names@[i as int]@,
            ));
        }
        i = i + 1;
    }
    assert(strings_view(names@).take(names.len() as int) =~= strings_view(names@));
    let sorted = sort_strings(&lines);
    let body = join_words(&sorted, "\r\n");
    let mut out: Vec<char> = Vec::new();
    push_str(&mut out, "Online players:\r\n");
    push_str(&mut out, body.as_str());
    let r = string_from_chars(&out);
    assert(sorted_lex(strings_view(sorted@)));
    r
}

/// The names of the players other than `actor`, in order.
pub open spec fn others(players: Seq<(EntityId, String)>, actor: EntityId) -> Seq<Seq<char>>
    decreases players.len(),
{
    if players.len() == 0 {
        seq![]
    } else if players.last().0 != actor {
        others(players.drop_last(), actor).push(players.last().1@)
    } else {
        others(players.drop_last(), actor)
    }
}

/// The names of the objects that are not subtle, in order.
pub open spec fn visible_objects(objects: Seq<(String, Flags)>) -> Seq<Seq<char>>
    decreases objects.len(),
{
    if objects.len() == 0 {
        seq![]
    } else if objects.last().1.bits & 2 != 2 {
        visible_objects(objects.drop_last()).push(objects.last().0@)
    } else {
        visible_objects(objects.drop_last())
    }
}

/// A room's description with the lists of others and of objects filled in.
pub open spec fn look_parts(name: Seq<char>, description: Seq<char>, o: Seq<Seq<char>>, pl: Seq<char>,
    v: Seq<Seq<char>>, ol: Seq<char>) -> Seq<char> {
    "|white|"@ + name + "|-|\r\n"@ + description + (if o.len() == 0 {
        Seq::<char>::empty()
    } else {
        "\r\n"@ + pl + (if o.len() == 1 {
            " is here."@
        } else {
            " are here."@
        })
    }) + (if v.len() == 0 {
        Seq::<char>::empty()
    } else {
        "\r\nYou see "@ + ol + "."@
    })
}

/// What a player sees of a room: its name in white, its description, who else is there,
/// and the objects that are not subtle.
pub open spec fn look_text(actor: EntityId, name: Seq<char>, description: Seq<char>, players: Seq<(EntityId, String)>,
    objects: Seq<(String, Flags)>, r: Seq<char>) -> bool {
    let o = others(players, actor);
    let v = visible_objects(objects);
    exists|pl: Seq<char>, ol: Seq<char>|
        (o.len() > 0 ==> listed_sorted(o, pl)) && (v.len() > 0 ==> listed_sorted(v, ol))
            && r == #[trigger] look_parts(name, description, o, pl, v, ol)
}

fn other_names(players: &Vec<(EntityId, String)>, actor: EntityId) -> (v: Vec<String>)
    ensures
        strings_view(v@) == others(players@, actor),
{
    let mut v: Vec<String> = Vec::new();
    let mut i: usize = 0;
    while i < players.len()
        invariant
            i <= players.len(),
            strings_view(v@) == others(players@.take(i as int), actor),
        decreases players.len() - i,
    {
        proof {
            assert(players@.take(i + 1).drop_last() =~= players@.take(i as int));
            assert(players@.take(i + 1).last() == players@[i as int]);
        }
        if players[i].0 != actor {
            let ghost raw = v@;
            let w = owned(players[i].1.as_str());
            v.push(w);
            proof {
                raw.lemma_push_map_commute(|s: String| s@, w);
            }
        }
        i = i + 1;
    }
    assert(players@.take(players.len() as int) =~= players@);
    v
}

fn visible_names(objects: &Vec<(String, Flags)>) -> (v: Vec<String>)
    ensures
        strings_view(v@) == visible_objects(objects@),
{
    let mut v: Vec<String> = Vec::new();
    let mut i: usize = 0;
    while i < objects.len()
        invariant
            i <= objects.len(),
            strings_view(v@) == visible_objects(objects@.take(i as int)),
        decreases objects.len() - i,
    {
        proof {
            assert(objects@.take(i + 1).drop_last() =~= objects@.take(i as int));
            assert(objects@.take(i + 1).last() == objects@[i as int]);
        }
        if !objects[i].1.contains(Flags::subtle()) {
            let ghost raw = v@;
            let w = owned(objects[i].0.as_str());
            v.push(w);
            proof {
                raw.lemma_push_map_commute(|s: String| s@, w);
            }
        }
        i = i + 1;
    }
    assert(objects@.take(objects.len() as int) =~= objects@);
    v
}

/// Describes a room to a player: `players` are the named players in it, `objects` the
/// named objects with their flags.
pub fn look_message(actor: EntityId, name: &str, description: &str, players: &Vec<(EntityId, String)>,
    objects: &Vec<(String, Flags)>) -> (r: String)
    ensures
        look_text(actor, name@, description@, players@, objects@, r@),
{
    let mut out: Vec<char> = Vec::new();
    push_str(&mut out, "|white|");
    push_str(&mut out, name);
    push_str(&mut out, "|-|\r\n");
    push_str(&mut out, description);
    let ghost head = out@;
    let present = other_names(players, actor);
    let n = present.len();
    let ghost o = others(players@, actor);
    let ghost mut pl: Seq<char> = Seq::empty();
    if n > 0 {
        let list = sorted_word_list(present);
        proof {
            pl = list@;
        }
        push_str(&mut out, "\r\n");
        push_str(&mut out, list.as_str());
        if n == 1 {
            push_str(&mut out, " is here.");
        } else {
            push_str(&mut out, " are here.");
        }
    }
    let ghost mid = out@;
    assert(mid == head + (if o.len() == 0 {
        Seq::<char>::empty()
    } else {
        "\r\n"@ + pl + (if o.len() == 1 {
            " is here."@
        } else {
            " are here."@
        })
    }));
    let shown = visible_names(objects);
    let ghost v = visible_objects(objects@);
    let ghost mut ol: Seq<char> = Seq::empty();
    if shown.len() > 0 {
        let list = sorted_word_list(shown);
        proof {
            ol = list@;
        }
        push_str(&mut out, "\r\nYou see ");
        push_str(&mut out, list.as_str());
        push_str(&mut out, ".");
    }
    assert(out@ == mid + (if v.len() == 0 {
        Seq::<char>::empty()
    } else {
        "\r\nYou see "@ + ol + "."@
    }));
    let r = string_from_chars(&out);
    assert((o.len() > 0 ==> listed_sorted(o, pl)) && (v.len() > 0 ==> listed_sorted(v, ol)));
    assert(r@ == look_parts(name@, description@, o, pl, v, ol));
    r
}

/// What looking at something shows: its name in white and its description, or that
/// nothing goes by those keywords.
pub open spec fn look_at_text(target: Option<Target>, keywords: Seq<Seq<char>>, r: Seq<Seq<char>>) -> bool {
    match target {
        Some(t) => r == seq!["|white|"@ + t.name@ + "|-|"@, t.desc@],
        None => exists|l: Seq<char>| #[trigger] listed_sorted(keywords, l) && r == seq![
            "You find nothing called \""@ + l + "\" to look at."@,
        ],
    }
}

pub fn look_at_messages(target: Option<Target>, keywords: Vec<String>) -> (r: Vec<String>)
    ensures
        look_at_text(target, strings_view(keywords@), strings_view(r@)),
{
    let ghost kw = strings_view(keywords@);
    let mut r: Vec<String> = Vec::new();
    match &target {
        Some(t) => {
            let mut out: Vec<char> = Vec::new();
            push_str(&mut out, "|white|");
            push_str(&mut out, t.name.as_str());
            push_str(&mut out, "|-|");
            r.push(string_from_chars(&out));
            r.push(owned(t.desc.as_str()));
            assert(strings_view(r@) =~= seq!["|white|"@ + t.name@ + "|-|"@, t.desc@]);
        },
        None => {
            let list = sorted_word_list(keywords);
            let mut out: Vec<char> = Vec::new();
            push_str(&mut out, "You find nothing called \"");
            push_str(&mut out, list.as_str());
            push_str(&mut out, "\" to look at.");
            r.push(string_from_chars(&out));
            assert(strings_view(r@) =~= seq!["You find nothing called \""@ + list@ + "\" to look at."@]);
            assert(listed_sorted(kw, list@));
        },
    }
    r
}

/// Each name on a line of its own, indented by two spaces.
pub open spec fn inventory_lines(names: Seq<Seq<char>>) -> Seq<char>
    decreases names.len(),
{
    if names.len() == 0 {
        seq![]
    } else {
        inventory_lines(names.drop_last()) + "\r\n  "@ + names.last()
    }
}

/// What a player carries, by name, in order.
pub fn inventory_message(names: &Vec<String>) -> (r: String)
    ensures
        r@ == if names.len() == 0 {
            "|white|You have nothing.|-|"@
        } else {
            "|white|You have:|-|"@ + inventory_lines(strings_view(names@))
        },
{
    let mut out: Vec<char> = Vec::new();
    if names.len() == 0 {
        push_str(&mut out, "|white|You have nothing.|-|");
        return string_from_chars(&out);
    }
    push_str(&mut out, "|white|You have:|-|");
    let ghost head = out@;
    let mut i: usize = 0;
    while i < names.len()
        invariant
            i <= names.len(),
            out@ == head + inventory_lines(strings_view(names@).take(i as int)),
        decreases names.len() - i,
    {
        push_str(&mut out, "\r\n  ");
        push_str(&mut out, names[i].as_str());
        proof {
            let t = strings_view(names@).take(i + 1);
            assert(t.drop_last() =~= strings_view(names@).take(i as int));
            assert(t.last() == names@[i as int]@);
        }
        i = i + 1;
    }
    assert(strings_view(names@).take(names.len() as int) =~= strings_view(names@));
    string_from_chars(&out)
}

/// Every player in the room but the one who logged in, in order.
pub open spec fn others_present(players: Seq<EntityId>, actor: EntityId) -> Seq<EntityId>
    decreases players.len(),
{
    if players.len() == 0 {
        seq![]
    } else if players.last() != actor {
        others_present(players.drop_last(), actor).push(players.last())
    } else {
        others_present(players.drop_last(), actor)
    }
}

/// The notices a login sends: `<name> arrives.` to every other player in the room.
pub fn login_notices(actor: EntityId, name: &str, players: &Vec<EntityId>) -> (v: Vec<(EntityId, String)>)
    ensures
        v@.len() == others_present(players@, actor).len(),
        forall|k: int| 0 <= k < v@.len() ==> (#[trigger] v@[k]).0 == others_present(players@, actor)[k] && v@[k].1@
            == name@ + " arrives."@,
{
    let mut v: Vec<(EntityId, String)> = Vec::new();
    let mut i: usize = 0;
    while i < players.len()
        invariant
            i <= players.len(),
            v@.len() == others_present(players@.take(i as int), actor).len(),
            forall|k: int| 0 <= k < v@.len() ==> (#[trigger] v@[k]).0 == others_present(players@.take(i as int), actor)[k]
                && v@[k].1@ == name@ + " arrives."@,
        decreases players.len() - i,
    {
        proof {
            assert(players@.take(i + 1).drop_last() =~= players@.take(i as int));
            assert(players@.take(i + 1).last() == players@[i as int]);
        }
        if players[i] != actor {
            let mut out: Vec<char> = Vec::new();
            push_str(&mut out, name);
            push_str(&mut out, " arrives.");
            v.push((players[i], string_from_chars(&out)));
        }
        i = i + 1;
    }
    assert(players@.take(players.len() as int) =~= players@);
    v
}

} // verus!
