use vstd::prelude::*;
use argon2::{PasswordHasher, PasswordVerifier};
use crate::chars::{chars_of, is_alnum, push_str, string_from_chars};
use crate::tags::is_alnum_char;

verus! {

/// A character allowed in a player name: ASCII letters and digits, space, apostrophe,
/// hyphen and underscore.
pub open spec fn name_char(c: char) -> bool {
    is_alnum(c) || c == ' ' || c == '\'' || c == '-' || c == '_'
}

/// Whether a player name is acceptable: 2 to 32 allowed characters.
pub open spec fn name_valid_spec(name: Seq<char>) -> bool {
    &&& 2 <= name.len() <= 32
    &&& forall|i: int| 0 <= i < name.len() ==> #[trigger] name_char(name[i])
}

/// Whether a player name is acceptable: between 2 and 32 characters, each alphanumeric
/// or one of space, apostrophe, hyphen and underscore.
pub fn name_valid(name: &str) -> (b: bool)
    ensures
        b == name_valid_spec(name@),
{
    let s = chars_of(name);
    if s.len() < 2 || s.len() > 32 {
        return false;
    }
    let mut i: usize = 0;
    while i < s.len()
        invariant
            i <= s.len(),
            s@ == name@,
            forall|k: int| 0 <= k < i ==> #[trigger] name_char(s@[k]),
        decreases s.len() - i,
    {
        let c = s[i];
        if !(is_alnum_char(c) || c == ' ' || c == '\'' || c == '-' || c == '_') {
            assert(!name_char(s@[i as int]));
            return false;
        }
        i = i + 1;
    }
    true
}

/// The message shown for a password shorter than 5 bytes.
pub open spec fn weak_password_message() -> Seq<char> {
    "|Red1|Weak password detected.|-|"@
}

/// The message shown for a password longer than 1024 bytes.
pub open spec fn strong_password_message() -> Seq<char> {
    "|Red1|Password too strong :(|-|"@
}

/// Checks the length of a password, in bytes: under 5 is too weak, over 1024 too long.
pub fn verify_len(input: &str) -> (r: Option<String>)
    ensures
        input.len() < 5 ==> (r matches Some(m) && m@ == weak_password_message()),
        input.len() > 1024 ==> (r matches Some(m) && m@
            == strong_password_message()),
        5 <= input.len() <= 1024 ==> r is None,
{
    if input.len() < 5 {
        return Some(string_from_chars(&chars_of("|Red1|Weak password detected.|-|")));
    } else if input.len() > 1024 {
        return Some(string_from_chars(&chars_of("|Red1|Password too strong :(|-|")));
    }
    None
}


/// Whether a text is a well-formed password hash string (`argon2::PasswordHash::new`
/// accepts it).
pub uninterp spec fn phc_parses(hash: Seq<char>) -> bool;

/// What Argon2 verification (`PasswordVerifier::verify_password` of `argon2::Argon2` with
/// default settings, against the parsed hash string) says of a password: `Some(true)`
/// where it matches, `Some(false)` where it does not, `None` where verification fails
/// otherwise.
pub uninterp spec fn phc_verdict(hash: Seq<char>, password: Seq<char>) -> Option<bool>;

/// The answer of the hash library about a password and a stored hash.
pub enum PhcCheck {
    Verified,
    Mismatch,
    Malformed(String),
    Failed(String),
}

/// Parses a stored hash string with `argon2::PasswordHash::new` and verifies a password
/// against it with `argon2::Argon2::default().verify_password`. Trusted: the hash string
/// is malformed exactly where it does not parse, and otherwise the answer is the
/// verification's verdict. The error texts are the library's own and are not described.
#[verifier::external_body]
fn check_phc(hash: &str, password: &str) -> (r: PhcCheck)
    ensures
        (r is Malformed) == !phc_parses(hash@),
        !(r is Malformed) ==> phc_verdict(hash@, password@) == match r {
            PhcCheck::Verified => Some(true),
            PhcCheck::Mismatch => Some(false),
            _ => None::<bool>,
        },
{
    let parsed = match argon2::PasswordHash::new(hash) {
        Ok(p) => p,
        Err(e) => return PhcCheck::Malformed(e.to_string()),
    };
    match argon2::Argon2::default().verify_password(password.as_bytes(), &parsed) {
        Ok(()) => PhcCheck::Verified,
        Err(argon2::password_hash::Error::Password) => PhcCheck::Mismatch,
        Err(e) => PhcCheck::Failed(e.to_string()),
    }
}

/// Hashes a password with `argon2::Argon2::default().hash_password` and a fresh salt from
/// `SaltString::generate` with the operating system's random source, as a hash string.
/// Trusted: a hash it returns parses, and the password it was made from verifies against
/// it, as the crate's documentation shows. The salt, and so the text, is random.
#[verifier::external_body]
fn argon2_hash(input: &str) -> (r: Result<String, String>)
    ensures
        r matches Ok(h) ==> phc_parses(h@) && phc_verdict(h@, input@) == Some(true),
{
    let salt = argon2::password_hash::SaltString::generate(&mut rand::rngs::OsRng);
    match argon2::Argon2::default().hash_password(input.as_bytes(), &salt) {
        Ok(hash) => Ok(hash.to_string()),
        Err(e) => Err(e.to_string()),
    }
}

/// Why a password did not verify.
pub enum VerifyError {
    BadPassword,
    Unknown(String),
}

/// The outcome of verifying a password, without the error text.
#[derive(Debug, Copy, Clone, PartialEq, Eq, Structural)]
pub enum VerifyOutcome {
    Verified,
    BadPassword,
    Unknown,
}

pub open spec fn verify_outcome(hash: Seq<char>, password: Seq<char>) -> VerifyOutcome {
    if !phc_parses(hash) {
        VerifyOutcome::Unknown
    } else {
        match phc_verdict(hash, password) {
            Some(true) => VerifyOutcome::Verified,
            Some(false) => VerifyOutcome::BadPassword,
            None => VerifyOutcome::Unknown,
        }
    }
}

pub open spec fn outcome_of(r: Result<(), VerifyError>) -> VerifyOutcome {
    match r {
        Ok(()) => VerifyOutcome::Verified,
        Err(VerifyError::BadPassword) => VerifyOutcome::BadPassword,
        Err(VerifyError::Unknown(_)) => VerifyOutcome::Unknown,
    }
}

/// Checks a password against a stored hash string.
pub fn verify_password(hash: &str, password: &str) -> (r: Result<(), VerifyError>)
    ensures
        outcome_of(r) == verify_outcome(hash@, password@),
        !phc_parses(hash@) ==> (r matches Err(VerifyError::Unknown(m)) && "Hash parsing error: "@.is_prefix_of(m@)),
        phc_parses(hash@) && phc_verdict(hash@, password@) is None ==> (r matches Err(VerifyError::Unknown(m))
            && "Verify password error: "@.is_prefix_of(m@)),
{
    match check_phc(hash, password) {
        PhcCheck::Verified => Ok(()),
        PhcCheck::Mismatch => Err(VerifyError::BadPassword),
        PhcCheck::Malformed(e) => {
            let mut m: Vec<char> = Vec::new();
            push_str(&mut m, "Hash parsing error: ");
            push_str(&mut m, e.as_str());
            proof {
                assert(m@.take("Hash parsing error: "@.len() as int) =~= "Hash parsing error: "@);
            }
            Err(VerifyError::Unknown(string_from_chars(&m)))
        },
        PhcCheck::Failed(e) => {
            let mut m: Vec<char> = Vec::new();
            push_str(&mut m, "Verify password error: ");
            push_str(&mut m, e.as_str());
            proof {
                assert(m@.take("Verify password error: "@.len() as int) =~= "Verify password error: "@);
            }
            Err(VerifyError::Unknown(string_from_chars(&m)))
        },
    }
}

/// Hashes a password for storage, with a fresh random salt.
pub fn hash_input(input: &str) -> (r: Result<String, String>)
    ensures
        r matches Ok(h) ==> verify_outcome(h@, input@) == VerifyOutcome::Verified,
{
    argon2_hash(input)
}


} // verus!
