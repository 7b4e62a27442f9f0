use remud::client::EntityId;
use remud::object::Keywords;
use remud::targeting::{EntityInfo, Params, TargetFinder};

fn info(e: u64, name: &str, desc: &str, keywords: Option<&[&str]>) -> EntityInfo {
    EntityInfo {
        entity: EntityId(e),
        name: name.to_string(),
        desc: desc.to_string(),
        keywords: keywords.map(|k| Keywords::from_list(k.iter().map(|w| w.to_string()).collect())),
    }
}

fn world() -> TargetFinder {
    TargetFinder {
        name_desc: vec![
            info(1, "Ann Lee", "A traveller.", None),
            info(10, "a red box", "It is red.", Some(&["red", "box"])),
            info(11, "a blue box", "It is blue.", Some(&["blue", "box"])),
            info(12, "a coin", "Shiny.", Some(&["coin"])),
        ],
        rooms: vec![(EntityId(100), vec![EntityId(1)])],
        contents: vec![(EntityId(100), vec![EntityId(10), EntityId(11)]), (EntityId(5), vec![EntityId(12)])],
    }
}

fn words(s: &str) -> Option<Vec<String>> {
    Some(s.split(' ').map(|w| w.to_string()).collect())
}

#[test]
fn players_by_full_name() {
    let w = world();
    let t = w.resolve(Params::new(EntityId(5), EntityId(100), words("Ann Lee"))).unwrap();
    assert_eq!(t.entity, EntityId(1));
    assert_eq!(t.desc, "A traveller.");
    assert!(w.resolve_player("Ann", EntityId(100)).is_none());
}

#[test]
fn objects_by_keywords() {
    let w = world();
    assert_eq!(w.resolve(Params::new(EntityId(5), EntityId(100), words("box"))).unwrap().entity, EntityId(10));
    assert_eq!(w.resolve(Params::new(EntityId(5), EntityId(100), words("blue"))).unwrap().name, "a blue box");
    assert_eq!(w.resolve(Params::new(EntityId(5), EntityId(100), words("coin"))).unwrap().entity, EntityId(12));
    let mut p = Params::new(EntityId(5), EntityId(100), words("coin"));
    p.objects_carried = false;
    assert!(w.resolve(p).is_none());
    assert!(w.resolve(Params::new(EntityId(5), EntityId(100), None)).is_none());
    assert!(w.resolve_object(&["box".to_string()], EntityId(77)).is_none());
}
