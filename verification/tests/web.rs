use remud::web::{after_logout, issue_outcome, refresh_decision, RefreshStep};
use remud::web::{
    access_scopes, bearer_token, check_access_scopes, check_refresh_scope, parse_port, refresh_scopes,
    rejection_reply, token_standing, AuthError, Refusal, TlsOptions, TokenStanding, WebOptions,
};
use remud::script_api::ScriptError;

fn strings(v: &[&str]) -> Vec<String> {
    v.iter().map(|s| s.to_string()).collect()
}

#[test]
fn uri_with_and_without_tls() {
    let plain = WebOptions::new(2080, "./keys", vec!["http://localhost"], None);
    assert_eq!(plain.uri(), "http://0.0.0.0:2080");
    assert_eq!(plain.cors(), &["http://localhost"]);
    assert_eq!(plain.address(), ([0, 0, 0, 0], 2080));
    let tls = WebOptions::new(443, "./keys", vec![], Some(TlsOptions::new("mud.example", "ops@example")));
    assert_eq!(tls.uri(), "https://mud.example:443");
    assert!(tls.cors().is_empty());
}

#[test]
fn ports() {
    assert_eq!(parse_port("2004"), Ok(2004));
    assert_eq!(parse_port("+80"), Ok(80));
    assert_eq!(parse_port("0"), Ok(0));
    assert_eq!(parse_port("65535"), Ok(65535));
    let msg = "ports should be an integer between 1024 and 65,535 inclusive.".to_string();
    assert_eq!(parse_port("65536"), Err(msg.clone()));
    assert_eq!(parse_port("-1"), Err(msg.clone()));
    assert_eq!(parse_port(""), Err(msg.clone()));
    assert_eq!(parse_port("+"), Err(msg.clone()));
    assert_eq!(parse_port("20x4"), Err(msg.clone()));
    assert_eq!(parse_port("99999999999"), Err(msg));
}

#[test]
fn rejection_replies() {
    let r = rejection_reply(Refusal::NotFound);
    assert_eq!((r.code, r.message.as_str(), r.challenge), (404, "NOT_FOUND", false));
    let r = rejection_reply(Refusal::Script(ScriptError::DuplicateName));
    assert_eq!((r.code, r.message.as_str(), r.challenge), (409, "DUPLICATE_SCRIPT_NAME", false));
    let r = rejection_reply(Refusal::Script(ScriptError::BadTrigger));
    assert_eq!((r.code, r.message.as_str()), (400, "BAD_TRIGGER"));
    let r = rejection_reply(Refusal::Auth(AuthError::AuthenticationError));
    assert_eq!((r.code, r.message.as_str(), r.challenge), (401, "BAD_USERNAME_OR_PASSWORD", true));
    let r = rejection_reply(Refusal::Auth(AuthError::VerificationError));
    assert_eq!((r.code, r.message.as_str(), r.challenge), (401, "UNAUTHORIZED", true));
    let r = rejection_reply(Refusal::Internal);
    assert_eq!((r.code, r.message.as_str(), r.challenge), (500, "UNHANDLED_REJECTION", false));
}

#[test]
fn bearer_tokens() {
    assert_eq!(bearer_token("Bearer abc.def"), Some("abc.def".to_string()));
    assert_eq!(bearer_token("  Bearer\t tok  extra"), Some("tok".to_string()));
    assert_eq!(bearer_token("Bearer"), None);
    assert_eq!(bearer_token("Bearer   "), None);
    assert_eq!(bearer_token(""), None);
}

#[test]
fn scope_checks() {
    let immortal = access_scopes(true);
    assert_eq!(immortal, strings(&["access", "scripts"]));
    assert_eq!(access_scopes(false), strings(&["access"]));
    assert_eq!(check_access_scopes(&immortal, &strings(&["scripts"])), Ok(()));
    assert_eq!(check_access_scopes(&access_scopes(false), &strings(&["scripts"])), Err(AuthError::InadequateAccess));
    assert_eq!(check_access_scopes(&refresh_scopes(), &strings(&[])), Err(AuthError::InadequateAccess));
    assert_eq!(check_refresh_scope(&refresh_scopes()), Ok(()));
    assert_eq!(check_refresh_scope(&immortal), Err(AuthError::InadequateAccess));
}

#[test]
fn token_standings() {
    assert_eq!(token_standing(100, Some(100)), TokenStanding::Current);
    assert_eq!(token_standing(100, Some(99)), TokenStanding::Superseded);
    assert_eq!(token_standing(100, None), TokenStanding::Missing);
}

#[test]
fn refresh_requests_are_decided_in_order() {
    let refresh = refresh_scopes();
    let access = access_scopes(false);
    assert_eq!(refresh_decision(false, &refresh, 5, Ok(Some(5))), RefreshStep::Refuse(Refusal::Auth(AuthError::VerificationError)));
    assert_eq!(refresh_decision(true, &access, 5, Err(())), RefreshStep::Refuse(Refusal::Auth(AuthError::InadequateAccess)));
    assert_eq!(refresh_decision(true, &refresh, 5, Err(())), RefreshStep::Refuse(Refusal::Internal));
    assert_eq!(refresh_decision(true, &refresh, 5, Ok(None)), RefreshStep::Refuse(Refusal::Auth(AuthError::InvalidToken)));
    assert_eq!(refresh_decision(true, &refresh, 5, Ok(Some(4))), RefreshStep::LogOut);
    assert_eq!(refresh_decision(true, &refresh, 5, Ok(Some(5))), RefreshStep::Issue);
    assert_eq!(after_logout(true), Refusal::Auth(AuthError::InvalidToken));
    assert_eq!(after_logout(false), Refusal::Internal);
    assert_eq!(issue_outcome(true, true, true), None);
    assert_eq!(issue_outcome(true, false, true), Some(Refusal::Internal));
}
