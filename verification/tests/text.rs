use remud::engine::{name_valid, verify_len};
use remud::text::{trim, word_list, Tokenizer};

fn words(ws: &[&str]) -> Vec<String> {
    ws.iter().map(|w| w.to_string()).collect()
}

#[test]
fn word_list_forms() {
    assert_eq!(word_list(words(&[])), "");
    assert_eq!(word_list(words(&["a"])), "a");
    assert_eq!(word_list(words(&["a", "b"])), "a and b");
    assert_eq!(word_list(words(&["a", "b", "c"])), "a, b, and c");
    assert_eq!(word_list(words(&["red", "green", "blue", "gray"])), "red, green, blue, and gray");
}

#[test]
fn tokenizer_splits_on_whitespace() {
    let mut t = Tokenizer::new("  look   at\tthe box");
    assert_eq!(t.next(), Some("look"));
    assert_eq!(t.rest(), "  at\tthe box");
    assert_eq!(t.next(), Some("at"));
    assert_eq!(t.next(), Some("the"));
    assert_eq!(t.next(), Some("box"));
    assert_eq!(t.next(), None);
    assert_eq!(t.rest(), "");
}

#[test]
fn tokenizer_trailing_whitespace_gives_empty_token() {
    let mut t = Tokenizer::new("look  ");
    assert_eq!(t.next(), Some("look"));
    assert_eq!(t.next(), Some(""));
    assert_eq!(t.next(), None);
    let mut t = Tokenizer::new("");
    assert_eq!(t.next(), None);
}

#[test]
fn tokenizer_unicode_whitespace() {
    let mut t = Tokenizer::new("héllo\u{3000}wörld");
    assert_eq!(t.next(), Some("héllo"));
    assert_eq!(t.next(), Some("wörld"));
}

#[test]
fn trim_both_ends() {
    assert_eq!(trim("  name \t"), "name");
    assert_eq!(trim("   "), "");
    assert_eq!(trim("a b"), "a b");
}

#[test]
fn names() {
    assert!(name_valid("Shaen"));
    assert!(name_valid("O'Brien the-1st_"));
    assert!(!name_valid("a"));
    assert!(name_valid("ab"));
    assert!(name_valid(&"x".repeat(32)));
    assert!(!name_valid(&"x".repeat(33)));
    assert!(!name_valid("bad!name"));
    assert!(!name_valid("émile"));
}

#[test]
fn password_lengths() {
    assert_eq!(verify_len("abcd"), Some("|Red1|Weak password detected.|-|".to_string()));
    assert_eq!(verify_len("abcde"), None);
    assert_eq!(verify_len(&"p".repeat(1024)), None);
    assert_eq!(verify_len(&"p".repeat(1025)), Some("|Red1|Password too strong :(|-|".to_string()));
    // the length is counted in bytes
    assert_eq!(verify_len("éé"), Some("|Red1|Weak password detected.|-|".to_string()));
    assert_eq!(verify_len("ééé"), None);
}

#[test]
fn tokenizer_hands_out_the_words() {
    let mut t = remud::text::Tokenizer::new("  look at   the box ");
    let mut got = Vec::new();
    while let Some(w) = t.next() {
        got.push(w.to_string());
    }
    assert_eq!(got, vec!["look", "at", "the", "box"]);
    let mut t = remud::text::Tokenizer::new("look  ");
    assert_eq!(t.next(), Some("look"));
    assert_eq!(t.next(), Some(""));
    assert_eq!(t.next(), None);
}
