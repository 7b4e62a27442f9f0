use remud::harness::{contains_text, split_received, JsonScript, JsonScriptName, Match, Matcher, Trigger};

fn lines(v: &[&str]) -> Vec<String> {
    v.iter().map(|s| s.to_string()).collect()
}

#[test]
fn text_search() {
    assert!(contains_text("hello world", "lo w"));
    assert!(contains_text("abc", ""));
    assert!(!contains_text("abc", "abcd"));
    assert!(!contains_text("abc", "ac"));
}

#[test]
fn exact_matching() {
    let out = lines(&["You say hi.", "", "The Void"]);
    let m = Matcher::exact(vec![Match::including("say".to_string()), Match::Blank, Match::exclude("Room".to_string())]);
    assert!(m.test(&out));
    let m = Matcher::exact_includes(lines(&["say", "Void"]));
    assert!(!m.test(&out));
    let m = Matcher::exact(vec![Match::exclude("say".to_string()), Match::Blank, Match::Blank]);
    assert!(!m.test(&out));
}

#[test]
fn ordered_matching() {
    let out = lines(&["one", "two", "three"]);
    assert!(Matcher::ordered(lines(&["one", "three"])).test(&out));
    assert!(!Matcher::ordered(lines(&["three", "one"])).test(&out));
    assert!(Matcher::ordered(lines(&["t", "t"])).test(&out));
    assert!(!Matcher::ordered(lines(&["t", "t", "t"])).test(&out));
}

#[test]
fn unordered_matching() {
    let out = lines(&["one", "two", "three"]);
    assert!(Matcher::includes(lines(&["three", "one"])).test(&out));
    assert!(!Matcher::includes(lines(&["four"])).test(&out));
    assert!(Matcher::excludes(lines(&["four", "five"])).test(&out));
    assert!(!Matcher::excludes(lines(&["wo"])).test(&out));
    assert!(Matcher::unordered(vec![Match::including("one".to_string()), Match::exclude("zero".to_string())]).test(&out));
}

#[test]
fn received_text_splits_at_prompt() {
    let (out, rest) = split_received("  first  \r\n\r\nsecond\r\n> more");
    assert_eq!(out, lines(&["first", "second"]));
    assert_eq!(rest, "> more");
    let (out, rest) = split_received("partial");
    assert!(out.is_empty());
    assert_eq!(rest, "partial");
    let (out, rest) = split_received("> ");
    assert!(out.is_empty());
    assert_eq!(rest, "> ");
}

#[test]
fn client_triggers() {
    assert_eq!(Trigger::LookAt.to_string(), "LookAt");
    assert_eq!(Trigger::from_str("Use"), Some(Trigger::Use));
    assert_eq!(Trigger::from_str("use"), None);
    let s = JsonScript::new("greet", Trigger::Say, "code");
    assert_eq!(s.name(), "greet");
    assert_eq!(s.trigger(), Trigger::Say);
    assert_eq!(s.code(), "code");
    assert_eq!(JsonScriptName::from_str("greet").as_str(), "greet");
}
