use remud::client::{ClientEvent, ClientId, SendPrompt};
use remud::clients::{ClientMessage, Clients};
use remud::engine::{hash_input, verify_password, VerifyError};
use remud::login::{Request, StateId};

#[test]
fn connect_then_ready_asks_for_a_name() {
    let mut clients = Clients::new();
    let step = clients.handle(ClientMessage::Connect(ClientId(1)));
    assert!(step.reply.is_none() && step.despawn.is_none() && !step.disconnected);
    let step = clients.handle(ClientMessage::Ready(ClientId(1)));
    let reply = step.reply.unwrap();
    assert!(!reply.output.is_empty());
    assert!(reply.output.last().unwrap().prompt == SendPrompt::Prompt);
    let step = clients.handle(ClientMessage::Input(ClientId(1), "Shaen".to_string()));
    let reply = step.reply.unwrap();
    assert!(matches!(&reply.requests[..], [Request::CheckPlayer(n)] if n == "Shaen"));
}

#[test]
fn unknown_clients_get_nothing() {
    let mut clients = Clients::new();
    let step = clients.handle(ClientMessage::Input(ClientId(3), "hi".to_string()));
    assert!(step.reply.is_none());
    let step = clients.handle(ClientMessage::Disconnect(ClientId(3)));
    assert!(step.disconnected);
    assert!(step.despawn.is_none());
}

#[test]
fn disconnect_resets_the_login() {
    let mut clients = Clients::new();
    clients.handle(ClientMessage::Connect(ClientId(2)));
    clients.handle(ClientMessage::Ready(ClientId(2)));
    let reply = clients.process(ClientId(2), ClientEvent::Disconnect);
    assert!(reply.is_some());
    assert!(clients.get(ClientId(2)).unwrap().player().is_none());
    let step = clients.handle(ClientMessage::Disconnect(ClientId(2)));
    assert!(step.disconnected);
    assert!(clients.get(ClientId(2)).is_none());
    let _ = StateId::NotConnected;
}

#[test]
fn hashed_password_verifies() {
    let hash = hash_input("hunter42").ok().unwrap();
    assert!(hash.starts_with("$argon2"));
    assert!(verify_password(hash.as_str(), "hunter42").is_ok());
    assert!(matches!(verify_password(hash.as_str(), "hunter43"), Err(VerifyError::BadPassword)));
    match verify_password("not a hash", "x") {
        Err(VerifyError::Unknown(m)) => assert!(m.starts_with("Hash parsing error: ")),
        _ => panic!("a malformed hash is an unknown error"),
    }
}
