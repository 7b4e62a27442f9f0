use remud::commands::{sorted_word_list, Commands, Help};

fn call(c: &Commands, input: &str, restricted: bool) -> Result<(String, String), String> {
    c.parse(input, restricted).map(|call| (call.command, call.arguments))
}

#[test]
fn commands_by_prefix() {
    let c = Commands::default();
    assert_eq!(call(&c, "look at box", false), Ok(("look".to_string(), "at box".to_string())));
    assert_eq!(call(&c, "inv", true), Ok(("inventory".to_string(), "".to_string())));
    assert_eq!(call(&c, "", false), Err("Go on, then.".to_string()));
    assert_eq!(call(&c, "xyzzy", false), Err("I don't know what that means.".to_string()));
    assert_eq!(
        call(&c, "s", true),
        Err("Be more specific: say, send, south, and stats could match.".to_string())
    );
    assert_eq!(call(&c, "teleport 1", true), Err("I don't know what that means.".to_string()));
    assert_eq!(call(&c, "teleport 1", false), Ok(("teleport".to_string(), "1".to_string())));
}

#[test]
fn shortcuts() {
    let c = Commands::default();
    assert_eq!(call(&c, "'hi there", false), Ok(("say".to_string(), "hi there".to_string())));
    assert_eq!(call(&c, "/waves", true), Ok(("me".to_string(), "waves".to_string())));
}

#[test]
fn guidance() {
    let c = Commands::default();
    assert_eq!(
        call(&c, "help down", false),
        Err("|white|Usage:|-| down\r\n\r\nMoves you to the room below, if possible.".to_string())
    );
    assert_eq!(call(&c, "help teleport", true), Err("There is no guidance for \"teleport.\"".to_string()));
    assert_eq!(call(&c, "help nothing", true), Err("There is no guidance for \"nothing.\"".to_string()));
    assert_eq!(
        call(&c, "help look nothing", true),
        Err("There is no guidance subtopic \"nothing\" for \"look.\"".to_string())
    );
    match call(&c, "help", true) {
        Err(t) => {
            assert!(t.starts_with("|SteelBlue3|Welcome to the City Six guidance system.\r\n\r\nGuidance is available on the following topics:|-|\r\n"));
            assert!(t.contains("|white|look|-|"));
            assert!(!t.contains("|white|teleport|-|"));
        },
        Ok(_) => panic!("help is not a command to run"),
    }
}

#[test]
fn usage_is_drawn() {
    let h = Help::new("drop <keyword> [<keyword>..] || x", "Drops.").with_example("drop bear");
    assert_eq!(
        h.render(),
        "|white|Usage:|-| drop |white|<|-|keyword|white|>|-| |white|[|-||white|<|-|keyword|white|>|-||white|..|-||white|]|-| |white||||-| x\r\n\r\nDrops.\r\n\r\n|white|Example:|-| drop bear"
    );
}

#[test]
fn subtopics_are_sorted() {
    let h = Help::new_simple("d")
        .with_subhelp("b", Help::new_simple("bee"))
        .with_subhelp("a", Help::new_simple("ay"))
        .with_subhelp("b", Help::new_simple("bee again"));
    assert_eq!(h.render(), "d\r\n\r\n|white|Subtopics:|-| a and b");
    assert_eq!(h.subhelp("b").unwrap().render(), "bee again");
    assert!(h.subhelp("c").is_none());
}

#[test]
fn sorted_lists() {
    let w = |v: &[&str]| v.iter().map(|s| s.to_string()).collect::<Vec<String>>();
    assert_eq!(sorted_word_list(w(&["c", "a", "b"])), "a, b, and c");
    assert_eq!(sorted_word_list(w(&["b", "a", "b"])), "a and b");
    assert_eq!(sorted_word_list(w(&[])), "");
}
