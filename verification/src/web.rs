use vstd::prelude::*;
use crate::chars::{chars_of, decimal, push_str, push_u64, string_from_chars, digit_value, is_digit};
use crate::client::same_text;
use crate::ids::{all_digits, unsigned_part};
use crate::chars::decimal_value;
use crate::script_api::{Player, ScriptError};
use crate::text::{is_whitespace, is_whitespace_char, leading_ws, lemma_leading_ws, strings_view};

verus! {

/// The domain and contact address used to obtain a TLS certificate.
pub struct TlsOptions<'a> {
    domain: &'a str,
    email: &'a str,
}

impl<'a> TlsOptions<'a> {
    pub closed spec fn view_domain(&self) -> Seq<char> {
        self.domain@
    }

    pub closed spec fn view_email(&self) -> Seq<char> {
        self.email@
    }

    pub fn new(domain: &'a str, email: &'a str) -> (t: TlsOptions<'a>)
        ensures
            t.view_domain() == domain@,
            t.view_email() == email@,
    {
        TlsOptions { domain, email }
    }

    pub fn domain(&self) -> (s: &'a str)
        ensures
            s@ == self.view_domain(),
    {
        self.domain
    }

    pub fn email(&self) -> (s: &'a str)
        ensures
            s@ == self.view_email(),
    {
        self.email
    }
}

/// How the web API is served: its port, where its keys are kept, the origins allowed to
/// call it, and TLS where it is enabled.
pub struct WebOptions<'a> {
    port: u16,
    keys: &'a str,
    cors: Vec<&'a str>,
    tls: Option<TlsOptions<'a>>,
}

/// The address the API is reached at: `https://`, the TLS domain, a colon and the port
/// with TLS; `http://0.0.0.0:` and the port without.
pub open spec fn uri_spec(port: u16, domain: Option<Seq<char>>) -> Seq<char> {
    match domain {
        Some(d) => "https://"@ + d + ":"@ + decimal(port as nat),
        None => "http://0.0.0.0:"@ + decimal(port as nat),
    }
}

impl<'a> WebOptions<'a> {
    pub closed spec fn view_port(&self) -> u16 {
        self.port
    }

    pub closed spec fn view_keys(&self) -> Seq<char> {
        self.keys@
    }

    pub closed spec fn view_cors(&self) -> Seq<&'a str> {
        self.cors@
    }

    pub closed spec fn view_domain(&self) -> Option<Seq<char>> {
        match self.tls {
            Some(t) => Some(t.view_domain()),
            None => None,
        }
    }

    pub fn new(port: u16, keys: &'a str, cors: Vec<&'a str>, tls: Option<TlsOptions<'a>>) -> (w: WebOptions<'a>)
        ensures
            w.view_port() == port,
            w.view_keys() == keys@,
            w.view_cors() == cors@,
            w.view_domain() == match tls {
                Some(t) => Some(t.view_domain()),
                None => None::<Seq<char>>,
            },
    {
        WebOptions { port, keys, cors, tls }
    }

    /// The address clients reach the API at.
    pub fn uri(&self) -> (s: String)
        ensures
            s@ == uri_spec(self.view_port(), self.view_domain()),
    {
        let mut v: Vec<char> = Vec::new();
        match &self.tls {
            Some(t) => {
                push_str(&mut v, "https://");
                push_str(&mut v, t.domain);
                push_str(&mut v, ":");
            },
            None => push_str(&mut v, "http://0.0.0.0:"),
        }
        push_u64(&mut v, self.port as u64);
        string_from_chars(&v)
    }

    /// The origins allowed to call the API; none means any.
    pub fn cors(&self) -> (c: &[&'a str])
        ensures
            c@ == self.view_cors(),
    {
        self.cors.as_slice()
    }

    /// Where the keys are kept.
    pub fn keys(&self) -> (k: &'a str)
        ensures
            k@ == self.view_keys(),
    {
        self.keys
    }

    /// The TLS settings, where TLS is enabled.
    pub fn tls(&self) -> (t: &Option<TlsOptions<'a>>)
        ensures
            match *t {
                Some(o) => self.view_domain() == Some(o.view_domain()),
                None => self.view_domain() is None,
            },
    {
        &self.tls
    }

    /// The socket address the API listens on: every interface, at the port.
    pub fn address(&self) -> (a: ([u8; 4], u16))
        ensures
            a.0@ == seq![0u8, 0u8, 0u8, 0u8],
            a.1 == self.view_port(),
    {
        let a: [u8; 4] = [0, 0, 0, 0];
        assert(a@ =~= seq![0u8, 0u8, 0u8, 0u8]);
        (a, self.port)
    }
}

/// The value of a decimal port number: an optional `+`, then digits, whose value is at
/// most 65535.
pub open spec fn parse_port_spec(s: Seq<char>) -> Option<u16> {
    let digits = if s.len() > 0 && s[0] == '+' {
        s.drop_first()
    } else {
        s
    };
    if digits.len() == 0 || !all_digits(digits) || decimal_value(digits) > 65535 {
        None
    } else {
        Some(decimal_value(digits) as u16)
    }
}

/// The message shown for a port that cannot be read.
pub open spec fn bad_port_message() -> Seq<char> {
    "ports should be an integer between 1024 and 65,535 inclusive."@
}

proof fn lemma_decimal_value_step(d: Seq<char>, k: int)
    requires
        0 <= k < d.len(),
    ensures
        decimal_value(d.take(k + 1)) == decimal_value(d.take(k)) * 10 + digit_value(d[k]),
{
    assert(d.take(k + 1).drop_last() == d.take(k));
}

proof fn lemma_decimal_value_mono(d: Seq<char>, k: int)
    requires
        0 <= k <= d.len(),
        all_digits(d),
    ensures
        decimal_value(d.take(k)) <= decimal_value(d),
        decimal_value(d.take(k)) >= 0,
    decreases d.len() - k,
{
    if k < d.len() {
        lemma_decimal_value_step(d, k);
        assert(is_digit(d[k]));
        lemma_decimal_value_mono(d, k + 1);
    } else {
        assert(d.take(k) == d);
        lemma_decimal_value_nonneg(d);
    }
}

proof fn lemma_decimal_value_nonneg(d: Seq<char>)
    requires
        all_digits(d),
    ensures
        decimal_value(d) >= 0,
    decreases d.len(),
{
    if d.len() > 0 {
        assert(all_digits(d.drop_last())) by {
            assert forall|k: int| 0 <= k < d.drop_last().len() implies #[trigger] is_digit(d.drop_last()[k]) by {
                assert(d.drop_last()[k] == d[k]);
            }
        }
        lemma_decimal_value_nonneg(d.drop_last());
        assert(is_digit(d.last()));
    }
}

/// Reads a port number.
pub fn parse_port(port: &str) -> (r: Result<u16, String>)
    ensures
        match parse_port_spec(port@) {
            Some(p) => r == Ok::<u16, String>(p),
            None => r matches Err(m) && m@ == bad_port_message(),
        },
{
    let v = chars_of(port);
    let start: usize = if v.len() > 0 && v[0] == '+' {
        1
    } else {
        0
    };
    let ghost digits = v@.subrange(start as int, v.len() as int);
    proof {
        if start == 1 {
            assert(digits == v@.drop_first());
        } else {
            assert(digits == v@);
        }
    }
    let fail = "ports should be an integer between 1024 and 65,535 inclusive.";
    if start == v.len() {
        return Err(fail.to_owned());
    }
    let mut value: u32 = 0;
    let mut i: usize = start;
    while i < v.len()
        invariant
            start <= i <= v.len(),
            v@ == port@,
            digits == v@.subrange(start as int, v.len() as int),
            digits == if port@.len() > 0 && port@[0] == '+' {
                port@.drop_first()
            } else {
                port@
            },
            fail@ == bad_port_message(),
            forall|k: int| 0 <= k < i - start ==> #[trigger] is_digit(digits[k]),
            value == decimal_value(digits.take(i - start)),
            value <= 65535,
        decreases v.len() - i,
    {
        let c = v[i];
        proof {
            assert(digits[i - start] == c);
            lemma_decimal_value_step(digits, i - start);
        }
        if !('0' <= c && c <= '9') {
            assert(!all_digits(digits)) by {
                assert(!is_digit(digits[i - start]));
            }
            return Err(fail.to_owned());
        }
        let d: u32 = (c as u32) - ('0' as u32);
        value = value * 10 + d;
        i = i + 1;
        if value > 65535 {
            proof {
                assert forall|k: int| 0 <= k < i - start implies #[trigger] is_digit(digits.take(i - start)[k]) by {
                    assert(digits.take(i - start)[k] == digits[k]);
                }
                if all_digits(digits) {
                    lemma_decimal_value_mono(digits, i - start);
                }
            }
            return Err(fail.to_owned());
        }
    }
    assert(digits.take(v.len() - start) == digits);
    Ok(value as u16)
}

/// Why an API request was not authenticated or authorized.
#[derive(Debug, Copy, Clone, PartialEq, Eq, Structural)]
pub enum AuthError {
    AuthenticationError,
    InvalidAuthHeader,
    InvalidToken,
    VerificationError,
    InadequateAccess,
}

/// Why a request was refused, as the API's error handler sees it.
#[derive(Debug, Copy, Clone, PartialEq, Eq, Structural)]
pub enum Refusal {
    NotFound,
    Script(ScriptError),
    Auth(AuthError),
    Internal,
    Unhandled,
}

/// What the API answers to a refused request: the status code, the message in the body,
/// and whether a `WWW-Authenticate: Bearer realm="remud"` header is added.
pub struct ErrorReply {
    pub code: u16,
    pub message: String,
    pub challenge: bool,
}

pub open spec fn reply_code(r: Refusal) -> u16 {
    match r {
        Refusal::NotFound => 404,
        Refusal::Script(ScriptError::BadTrigger) => 400,
        Refusal::Script(ScriptError::BadScriptName) => 400,
        Refusal::Script(ScriptError::DuplicateName) => 409,
        Refusal::Script(ScriptError::ScriptNotFound) => 404,
        Refusal::Auth(_) => 401,
        Refusal::Internal => 500,
        Refusal::Unhandled => 500,
    }
}

pub open spec fn reply_message(r: Refusal) -> Seq<char> {
    match r {
        Refusal::NotFound => "NOT_FOUND"@,
        Refusal::Script(ScriptError::BadTrigger) => "BAD_TRIGGER"@,
        Refusal::Script(ScriptError::BadScriptName) => "BAD_SCRIPT_NAME"@,
        Refusal::Script(ScriptError::DuplicateName) => "DUPLICATE_SCRIPT_NAME"@,
        Refusal::Script(ScriptError::ScriptNotFound) => "SCRIPT_NOT_FOUND"@,
        Refusal::Auth(AuthError::AuthenticationError) => "BAD_USERNAME_OR_PASSWORD"@,
        Refusal::Auth(AuthError::InvalidAuthHeader) => "BAD_AUTH_HEADER"@,
        Refusal::Auth(AuthError::InadequateAccess) => "INADEQUATE_ACCESS"@,
        Refusal::Auth(AuthError::InvalidToken) => "UNAUTHORIZED"@,
        Refusal::Auth(AuthError::VerificationError) => "UNAUTHORIZED"@,
        Refusal::Internal => "UNHANDLED_REJECTION"@,
        Refusal::Unhandled => "UNHANDLED_REJECTION"@,
    }
}

/// The answer to a refused request.
pub fn rejection_reply(r: Refusal) -> (e: ErrorReply)
    ensures
        e.code == reply_code(r),
        e.message@ == reply_message(r),
        e.challenge == (r is Auth),
{
    let (code, message, challenge): (u16, &str, bool) = match r {
        Refusal::NotFound => (404, "NOT_FOUND", false),
        Refusal::Script(ScriptError::BadTrigger) => (400, "BAD_TRIGGER", false),
        Refusal::Script(ScriptError::BadScriptName) => (400, "BAD_SCRIPT_NAME", false),
        Refusal::Script(ScriptError::DuplicateName) => (409, "DUPLICATE_SCRIPT_NAME", false),
        Refusal::Script(ScriptError::ScriptNotFound) => (404, "SCRIPT_NOT_FOUND", false),
        Refusal::Auth(AuthError::AuthenticationError) => (401, "BAD_USERNAME_OR_PASSWORD", true),
        Refusal::Auth(AuthError::InvalidAuthHeader) => (401, "BAD_AUTH_HEADER", true),
        Refusal::Auth(AuthError::InadequateAccess) => (401, "INADEQUATE_ACCESS", true),
        Refusal::Auth(AuthError::InvalidToken) => (401, "UNAUTHORIZED", true),
        Refusal::Auth(AuthError::VerificationError) => (401, "UNAUTHORIZED", true),
        Refusal::Internal => (500, "UNHANDLED_REJECTION", false),
        Refusal::Unhandled => (500, "UNHANDLED_REJECTION", false),
    };
    ErrorReply { code, message: message.to_owned(), challenge }
}


/// How many characters the first word of `s` runs for: the characters before the first
/// white space.
pub open spec fn word_len(s: Seq<char>) -> int
    decreases s.len(),
{
    if s.len() > 0 && !is_whitespace(s[0]) {
        1 + word_len(s.drop_first())
    } else {
        0
    }
}

/// The second white-space separated word of `s`, if it has one.
pub open spec fn second_word(s: Seq<char>) -> Option<Seq<char>> {
    let a = leading_ws(s);
    let b = a + word_len(s.skip(a));
    let c = b + leading_ws(s.skip(b));
    let d = c + word_len(s.skip(c));
    if c < d {
        Some(s.subrange(c, d))
    } else {
        None
    }
}

proof fn lemma_word_len(s: Seq<char>, k: int)
    requires
        0 <= k <= s.len(),
        forall|m: int| 0 <= m < k ==> !is_whitespace(#[trigger] s[m]),
        k == s.len() || is_whitespace(s[k]),
    ensures
        word_len(s) == k,
    decreases k,
{
    if k > 0 {
        let t = s.drop_first();
        assert forall|m: int| 0 <= m < k - 1 implies !is_whitespace(#[trigger] t[m]) by {
            assert(t[m] == s[m + 1]);
        }
        if k - 1 < t.len() {
            assert(t[k - 1] == s[k]);
        }
        lemma_word_len(t, k - 1);
    }
}

/// The first index at or after `from` that is not white space.
fn skip_ws(v: &Vec<char>, from: usize) -> (k: usize)
    requires
        from <= v.len(),
    ensures
        from <= k <= v.len(),
        k - from == leading_ws(v@.skip(from as int)),
{
    let mut k = from;
    while k < v.len() && is_whitespace_char(v[k])
        invariant
            from <= k <= v.len(),
            forall|m: int| from <= m < k ==> #[trigger] is_whitespace(v@[m]),
        decreases v.len() - k,
    {
        k = k + 1;
    }
    proof {
        let t = v@.skip(from as int);
        assert forall|m: int| 0 <= m < k - from implies #[trigger] is_whitespace(t[m]) by {
            assert(t[m] == v@[from + m]);
        }
        if k < v.len() {
            assert(t[k - from] == v@[k as int]);
        }
        lemma_leading_ws(t, k - from);
    }
    k
}

/// The first index at or after `from` that is white space.
fn skip_word(v: &Vec<char>, from: usize) -> (k: usize)
    requires
        from <= v.len(),
    ensures
        from <= k <= v.len(),
        k - from == word_len(v@.skip(from as int)),
{
    let mut k = from;
    while k < v.len() && !is_whitespace_char(v[k])
        invariant
            from <= k <= v.len(),
            forall|m: int| from <= m < k ==> !is_whitespace(#[trigger] v@[m]),
        decreases v.len() - k,
    {
        k = k + 1;
    }
    proof {
        let t = v@.skip(from as int);
        assert forall|m: int| 0 <= m < k - from implies !is_whitespace(#[trigger] t[m]) by {
            assert(t[m] == v@[from + m]);
        }
        if k < v.len() {
            assert(t[k - from] == v@[k as int]);
        }
        lemma_word_len(t, k - from);
    }
    k
}

/// The token of an `Authorization` header: its second white-space separated word.
pub fn bearer_token(header: &str) -> (r: Option<String>)
    ensures
        match second_word(header@) {
            Some(w) => r matches Some(t) && t@ == w,
            None => r is None,
        },
{
    let v = chars_of(header);
    let a = skip_ws(&v, 0);
    assert(v@.skip(0) == v@);
    let b = skip_word(&v, a);
    let c = skip_ws(&v, b);
    let d = skip_word(&v, c);
    if c < d {
        let mut w: Vec<char> = Vec::new();
        let mut i = c;
        while i < d
            invariant
                c <= i <= d <= v.len(),
                w@ == v@.subrange(c as int, i as int),
            decreases d - i,
        {
            w.push(v[i]);
            i = i + 1;
        }
        Some(string_from_chars(&w))
    } else {
        None
    }
}

/// Whether a list of scopes holds this one.
pub fn has_scope(scopes: &Vec<String>, scope: &str) -> (b: bool)
    ensures
        b == strings_view(scopes@).contains(scope@),
{
    let mut i: usize = 0;
    while i < scopes.len()
        invariant
            i <= scopes.len(),
            forall|k: int| 0 <= k < i ==> #[trigger] strings_view(scopes@)[k] != scope@,
        decreases scopes.len() - i,
    {
        if same_text(scopes[i].as_str(), scope) {
            assert(strings_view(scopes@)[i as int] == scope@);
            return true;
        }
        i = i + 1;
    }
    false
}

/// Checks that an access token carries the access scope and every scope a route needs.
pub fn check_access_scopes(scopes: &Vec<String>, required: &Vec<String>) -> (r: Result<(), AuthError>)
    ensures
        r is Ok <==> strings_view(scopes@).contains("access"@)
            && forall|k: int| 0 <= k < required.len() ==> strings_view(scopes@).contains(#[trigger] strings_view(required@)[k]),
        r is Err ==> r == Err::<(), AuthError>(AuthError::InadequateAccess),
{
    if !has_scope(scopes, "access") {
        return Err(AuthError::InadequateAccess);
    }
    let mut i: usize = 0;
    while i < required.len()
        invariant
            i <= required.len(),
            forall|k: int| 0 <= k < i ==> strings_view(scopes@).contains(#[trigger] strings_view(required@)[k]),
        decreases required.len() - i,
    {
        if !has_scope(scopes, required[i].as_str()) {
            assert(!strings_view(scopes@).contains(strings_view(required@)[i as int]));
            return Err(AuthError::InadequateAccess);
        }
        i = i + 1;
    }
    Ok(())
}

/// Checks that a token is a refresh token.
pub fn check_refresh_scope(scopes: &Vec<String>) -> (r: Result<(), AuthError>)
    ensures
        r is Ok <==> strings_view(scopes@).contains("refresh"@),
        r is Err ==> r == Err::<(), AuthError>(AuthError::InadequateAccess),
{
    if has_scope(scopes, "refresh") {
        Ok(())
    } else {
        Err(AuthError::InadequateAccess)
    }
}

/// How a token's issue time compares with the one stored for its player.
#[derive(Debug, Copy, Clone, PartialEq, Eq, Structural)]
pub enum TokenStanding {
    /// The token is the player's latest.
    Current,
    /// The player has no tokens.
    Missing,
    /// A newer token was issued: the player is logged out.
    Superseded,
}

/// Compares a token's issue time, in seconds, with the one stored for its player.
pub fn token_standing(issued_at: i64, stored: Option<i64>) -> (s: TokenStanding)
    ensures
        s == match stored {
            None => TokenStanding::Missing,
            Some(t) => if t == issued_at {
                TokenStanding::Current
            } else {
                TokenStanding::Superseded
            },
        },
{
    match stored {
        None => TokenStanding::Missing,
        Some(t) => if t == issued_at {
            TokenStanding::Current
        } else {
            TokenStanding::Superseded
        },
    }
}

/// What refreshing tokens comes to: a refusal, logging the player out and then refusing,
/// or issuing new tokens.
#[derive(Debug, Copy, Clone, PartialEq, Eq, Structural)]
pub enum RefreshStep {
    Refuse(Refusal),
    LogOut,
    Issue,
}

/// The decision on a refresh request, checked in this order: the token must verify, it
/// must be a refresh token, the player's stored refresh issue time must be read and must
/// exist, and the token must be the latest one issued; an older one logs the player out.
pub open spec fn refresh_step(verified: bool, scopes: Seq<Seq<char>>, issued_at: i64, stored: Result<Option<i64>, ()>) -> RefreshStep {
    if !verified {
        RefreshStep::Refuse(Refusal::Auth(AuthError::VerificationError))
    } else if !scopes.contains("refresh"@) {
        RefreshStep::Refuse(Refusal::Auth(AuthError::InadequateAccess))
    } else {
        match stored {
            Err(_) => RefreshStep::Refuse(Refusal::Internal),
            Ok(None) => RefreshStep::Refuse(Refusal::Auth(AuthError::InvalidToken)),
            Ok(Some(t)) => if t == issued_at {
                RefreshStep::Issue
            } else {
                RefreshStep::LogOut
            },
        }
    }
}

/// Decides a refresh request. `verified` is whether the token's signature, issuer and
/// audience checked out; `stored` is the lookup of the player's latest refresh issue time,
/// which is consulted only once the token is known to be a refresh token.
pub fn refresh_decision(verified: bool, scopes: &Vec<String>, issued_at: i64, stored: Result<Option<i64>, ()>) -> (r: RefreshStep)
    ensures
        r == refresh_step(verified, strings_view(scopes@), issued_at, stored),
{
    if !verified {
        return RefreshStep::Refuse(Refusal::Auth(AuthError::VerificationError));
    }
    if check_refresh_scope(scopes).is_err() {
        return RefreshStep::Refuse(Refusal::Auth(AuthError::InadequateAccess));
    }
    match stored {
        Err(_) => RefreshStep::Refuse(Refusal::Internal),
        Ok(s) => match token_standing(issued_at, s) {
            TokenStanding::Missing => RefreshStep::Refuse(Refusal::Auth(AuthError::InvalidToken)),
            TokenStanding::Superseded => RefreshStep::LogOut,
            TokenStanding::Current => RefreshStep::Issue,
        },
    }
}

/// New tokens are issued only for a verified refresh token that is the player's latest.
pub proof fn only_latest_refresh_tokens_issue(verified: bool, scopes: Seq<Seq<char>>, issued_at: i64, stored: Result<Option<i64>, ()>)
    ensures
        refresh_step(verified, scopes, issued_at, stored) == RefreshStep::Issue
            <==> verified && scopes.contains("refresh"@) && stored == Ok::<Option<i64>, ()>(Some(issued_at)),
{
}

/// The refusal after a superseded token has logged its player out: the token is invalid,
/// or the logout itself failed.
pub fn after_logout(logged_out: bool) -> (r: Refusal)
    ensures
        r == if logged_out { Refusal::Auth(AuthError::InvalidToken) } else { Refusal::Internal },
{
    if logged_out {
        Refusal::Auth(AuthError::InvalidToken)
    } else {
        Refusal::Internal
    }
}

/// The refusal, if any, once new tokens are to be issued: each of the immortal lookup, the
/// token generation and the registration of the new tokens must succeed, in that order.
pub fn issue_outcome(immortal_read: bool, generated: bool, registered: bool) -> (r: Option<Refusal>)
    ensures
        r == if immortal_read && generated && registered { None } else { Some(Refusal::Internal) },
{
    if !immortal_read || !generated || !registered {
        Some(Refusal::Internal)
    } else {
        None
    }
}

/// The scopes of a new access token: access, and scripts for an immortal.
pub fn access_scopes(immortal: bool) -> (v: Vec<String>)
    ensures
        strings_view(v@) == if immortal {
            seq!["access"@, "scripts"@]
        } else {
            seq!["access"@]
        },
{
    let mut v: Vec<String> = Vec::new();
    v.push("access".to_owned());
    if immortal {
        v.push("scripts".to_owned());
    }
    assert(strings_view(v@) =~= if immortal {
        seq!["access"@, "scripts"@]
    } else {
        seq!["access"@]
    });
    v
}

/// The scopes of a new refresh token.
pub fn refresh_scopes() -> (v: Vec<String>)
    ensures
        strings_view(v@) == seq!["refresh"@],
{
    let mut v: Vec<String> = Vec::new();
    v.push("refresh".to_owned());
    assert(strings_view(v@) =~= seq!["refresh"@]);
    v
}

/// Issued tokens pass the checks they are made for: an immortal's access token opens
/// the scripts routes, and a refresh token is accepted for refreshing.
pub proof fn issued_tokens_pass(required: Seq<Seq<char>>)
    requires
        forall|k: int| 0 <= k < required.len() ==> #[trigger] required[k] == "scripts"@,
    ensures
        seq!["access"@, "scripts"@].contains("access"@),
        forall|k: int| 0 <= k < required.len() ==> seq!["access"@, "scripts"@].contains(#[trigger] required[k]),
        seq!["refresh"@].contains("refresh"@),
{
    assert(seq!["access"@, "scripts"@][0] == "access"@);
    assert(seq!["refresh"@][0] == "refresh"@);
    assert forall|k: int| 0 <= k < required.len() implies seq!["access"@, "scripts"@].contains(#[trigger] required[k]) by {
        assert(seq!["access"@, "scripts"@][1] == "scripts"@);
    }
}


/// A request for tokens: a player's name and password.
pub struct JsonTokenRequest {
    username: String,
    password: String,
}

impl JsonTokenRequest {
    pub closed spec fn view_parts(&self) -> (Seq<char>, Seq<char>) {
        (self.username@, self.password@)
    }

    pub fn new(username: String, password: String) -> (r: JsonTokenRequest)
        ensures
            r.view_parts() == (username@, password@),
    {
        JsonTokenRequest { username, password }
    }

    pub fn username(&self) -> (s: &str)
        ensures
            s@ == self.view_parts().0,
    {
        self.username.as_str()
    }

    pub fn password(&self) -> (s: &str)
        ensures
            s@ == self.view_parts().1,
    {
        self.password.as_str()
    }
}

/// A request for fresh tokens, carrying the refresh token.
pub struct JsonRefreshRequest {
    refresh_token: String,
}

impl JsonRefreshRequest {
    pub closed spec fn view_token(&self) -> Seq<char> {
        self.refresh_token@
    }

    pub fn new(refresh_token: String) -> (r: JsonRefreshRequest)
        ensures
            r.view_token() == refresh_token@,
    {
        JsonRefreshRequest { refresh_token }
    }

    pub fn refresh_token(&self) -> (s: &str)
        ensures
            s@ == self.view_token(),
    {
        self.refresh_token.as_str()
    }
}

/// The answer to a login attempt, from whether the password verified (`None` where the
/// check itself failed): a wrong password is an authentication error, a failed check an
/// internal one.
pub fn credentials_check(verified: Option<bool>) -> (r: Result<(), Refusal>)
    ensures
        r == match verified {
            Some(true) => Ok::<(), Refusal>(()),
            Some(false) => Err(Refusal::Auth(AuthError::AuthenticationError)),
            None => Err(Refusal::Internal),
        },
{
    match verified {
        Some(true) => Ok(()),
        Some(false) => Err(Refusal::Auth(AuthError::AuthenticationError)),
        None => Err(Refusal::Internal),
    }
}

} // verus!
