use remud::color::ColorSupport;
use remud::session::{render_for_telnet, EngineResponse, FrameAction, Output, TelnetInput};

fn lines(v: &[&str]) -> Vec<String> {
    v.iter().map(|s| s.to_string()).collect()
}

fn items(r: &EngineResponse) -> Vec<String> {
    match r {
        EngineResponse::Output(q) => q
            .iter()
            .map(|o| match o {
                Output::Message(m) => format!("message:{}", m),
                Output::Prompt { format, sensitive } => format!("prompt:{}:{}", format, sensitive),
            })
            .collect(),
    }
}

#[test]
fn responses_from_messages() {
    let r = EngineResponse::from_messages_prompt(lines(&["a", "b"]), true);
    assert_eq!(items(&r), lines(&["message:a", "message:b", "prompt:> :true"]));
    let r = EngineResponse::from_messages(lines(&["only"]));
    assert_eq!(items(&r), lines(&["message:only"]));
    let r = EngineResponse::from_output(Output::Message("hi".to_string()));
    assert_eq!(items(&r), lines(&["message:hi", "prompt:> :false"]));
    let r = EngineResponse::from_output(Output::Prompt { format: ">> ".to_string(), sensitive: true });
    assert_eq!(items(&r), lines(&["prompt:>> :true"]));
}

#[test]
fn typed_lines_are_split_and_edited() {
    let mut t = TelnetInput::new();
    t.receive(b"look\r\nsa");
    t.receive(b"y hi\x08\x08hello\r\n\x01\xffnext");
    match t.after_frame(false) {
        FrameAction::Configure => {},
        _ => panic!("negotiation should go on"),
    }
    match t.after_frame(true) {
        FrameAction::Ready => {},
        _ => panic!("the client should become ready"),
    }
    match t.after_frame(true) {
        FrameAction::Deliver(v) => assert_eq!(v, lines(&["look", "say hello"])),
        _ => panic!("lines should be delivered"),
    }
    t.receive(b"\r\n");
    match t.after_frame(false) {
        FrameAction::Deliver(v) => assert_eq!(v, lines(&["next"])),
        _ => panic!("lines should be delivered"),
    }
    match t.after_frame(false) {
        FrameAction::Deliver(v) => assert!(v.is_empty()),
        _ => panic!("nothing is waiting"),
    }
}

#[test]
fn telnet_rendering() {
    let out = render_for_telnet("hi", ColorSupport::NoColor).unwrap();
    assert_eq!(out, b"hi".to_vec());
    let out = render_for_telnet("hi", ColorSupport::Colors256).unwrap();
    assert_eq!(String::from_utf8(out).unwrap(), "\x1b[38;5;145mhi\x1b[m");
    assert_eq!(render_for_telnet("caf\u{e9}", ColorSupport::NoColor), None);
    assert!(render_for_telnet("|#010101|dark", ColorSupport::TrueColor).is_some());
    assert!(render_for_telnet("|#010101|dark", ColorSupport::Colors256).is_some());
}
