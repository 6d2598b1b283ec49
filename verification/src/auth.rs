//! Authentication: password hashing with Argon2, and JSON Web Tokens (HS256)
//! that name a user by id, last one day, and travel in the `Authorization`
//! header.

use crate::text::{
    all_digits, decimal, digit_char, digit_value, digits_value, is_digit, parse_i64, parse_i64_str,
    push_char, push_decimal, str_eq,
};
use argon2::password_hash::{rand_core::OsRng, PasswordHash, PasswordHasher, PasswordVerifier, SaltString};
use argon2::Argon2;
use jsonwebtoken::{decode, encode, Algorithm, DecodingKey, EncodingKey, Header, Validation};
use vstd::prelude::*;

verus! {

/// How long a token stays valid, in seconds.
pub const ONE_DAY_SECS: u64 = 86400u64;

/// A password hash could not be made or read; holds the password-hash
/// crate's description.
#[derive(Debug, PartialEq, Eq)]
pub struct PasswordError(pub String);

/// Whether Argon2 (default parameters) accepts `password` against the PHC
/// string `hash`: `None` when `hash` is not a PHC string, else whether the
/// password matches.
pub uninterp spec fn argon2_verify_outcome(password: Seq<char>, hash: Seq<char>) -> Option<bool>;

/// `argon2::password_hash::PasswordHash::new` on `hash`, then
/// `Argon2::default().verify_password`: the parse error's text, or whether
/// the password matches (any verification error counts as a mismatch). Tied
/// to the name `argon2_verify_outcome`; the error text is not stated.
#[verifier::external_body]
fn argon2_verify(password: &str, hash: &str) -> (outcome: Result<bool, String>)
    ensures
        match outcome {
            Ok(matches) => argon2_verify_outcome(password@, hash@) == Some(matches),
            Err(_) => argon2_verify_outcome(password@, hash@) is None,
        },
{
    match PasswordHash::new(hash) {
        Ok(parsed) => Ok(Argon2::default().verify_password(password.as_bytes(), &parsed).is_ok()),
        Err(err) => Err(err.to_string()),
    }
}

/// `Argon2::default().hash_password` with a salt from
/// `SaltString::generate(&mut OsRng)`: the PHC string of the hash, or the
/// error's text. The salt is random, so the hash is not a function of the
/// password; stated is only what password hashing promises of every
/// outcome: the hash verifies the password it was made from.
#[verifier::external_body]
fn argon2_hash_with_random_salt(password: &str) -> (hashed: Result<String, String>)
    ensures
        hashed matches Ok(hash) ==> argon2_verify_outcome(password@, hash@) == Some(true),
{
    let salt = SaltString::generate(&mut OsRng);
    match Argon2::default().hash_password(password.as_bytes(), &salt) {
        Ok(hash) => Ok(hash.to_string()),
        Err(err) => Err(err.to_string()),
    }
}

/// What `hash_password` promises of its outcome: a hash it returns verifies
/// the password it was made from.
pub open spec fn hashes_password(password: Seq<char>, hashed: Result<String, PasswordError>) -> bool {
    hashed matches Ok(hash) ==> argon2_verify_outcome(password, hash@) == Some(true)
}

/// What `verify_password` gives for a password and a stored hash: an error
/// when the hash is not a PHC string, else whether the password matches.
pub open spec fn verification_of(
    password: Seq<char>,
    hash: Seq<char>,
    verified: Result<bool, PasswordError>,
) -> bool {
    match argon2_verify_outcome(password, hash) {
        Some(matches) => verified == Ok::<bool, PasswordError>(matches),
        None => verified is Err,
    }
}

/// Hashes a password with Argon2 and a fresh random salt, as a PHC string.
pub fn hash_password(password: &str) -> (hashed: Result<String, PasswordError>)
    ensures
        hashes_password(password@, hashed),
{
    match argon2_hash_with_random_salt(password) {
        Ok(hash) => Ok(hash),
        Err(err) => Err(PasswordError(err)),
    }
}

/// Checks a password against a stored PHC string: an error when the string
/// is not a PHC string, else whether the password matches.
pub fn verify_password(password: &str, hash: &str) -> (verified: Result<bool, PasswordError>)
    ensures
        verification_of(password@, hash@, verified),
{
    match argon2_verify(password, hash) {
        Ok(matches) => Ok(matches),
        Err(err) => Err(PasswordError(err)),
    }
}

/// A password verifies against the hash `hash_password` made of it: if
/// hashing gave `Ok(hash)`, verifying the same password against `hash`
/// gives `Ok(true)`.
pub proof fn law_hash_then_verify(
    password: Seq<char>,
    hash: String,
    verified: Result<bool, PasswordError>,
)
    requires
        hashes_password(password, Ok::<String, PasswordError>(hash)),
        verification_of(password, hash@, verified),
    ensures
        verified == Ok::<bool, PasswordError>(true),
{
}

/// The authenticated user of a request.
pub struct AuthUser {
    pub user_id: i64,
}

/// The decimal rendering of a signed integer (as `i64::to_string` gives it).
pub open spec fn signed_decimal(v: int) -> Seq<char> {
    if v < 0 {
        seq!['-'] + decimal((-v) as nat)
    } else {
        decimal(v as nat)
    }
}

/// The subject a token names a user by: the user id in decimal.
pub fn subject_of(user_id: i64) -> (subject: String)
    ensures
        subject@ == signed_decimal(user_id as int),
{
    let mut subject = String::new();
    if user_id < 0 {
        push_char(&mut subject, '-');
        let magnitude: u64 = if user_id == i64::MIN {
            9223372036854775808u64
        } else {
            (0i64 - user_id) as u64
        };
        push_decimal(&mut subject, magnitude);
        assert(subject@ =~= seq!['-'] + decimal((-(user_id as int)) as nat));
    } else {
        push_decimal(&mut subject, user_id as u64);
        assert(subject@ =~= decimal(user_id as nat));
    }
    subject
}

/// The `sub` claim, when it is a string, of a token whose HS256 signature
/// checks under `secret` (with `jsonwebtoken::decode`); `None` when the
/// signature does not check or there is no string `sub`.
pub uninterp spec fn jwt_hs256_signed_subject(token: Seq<char>, secret: Seq<char>) -> Option<
    Seq<char>,
>;

/// `jsonwebtoken::decode` into a JSON value with `Validation::new(HS256)`,
/// then the `sub` claim when it is a string. A returned subject is the one
/// `jwt_hs256_signed_subject` names. The call also fails on an expired or
/// missing `exp`, which depends on the clock, so nothing is stated of when
/// it fails, nor of its error text.
#[verifier::external_body]
fn jwt_hs256_subject(token: &str, secret: &str) -> (sub: Result<String, String>)
    ensures
        sub matches Ok(s) ==> jwt_hs256_signed_subject(token@, secret@) == Some(s@),
{
    let key = DecodingKey::from_secret(secret.as_bytes());
    match decode::<serde_json::Value>(token, &key, &Validation::new(Algorithm::HS256)) {
        Ok(data) => match &data.claims["sub"] {
            serde_json::Value::String(sub) => Ok(sub.clone()),
            _ => Err(String::from("token has no string subject")),
        },
        Err(err) => Err(err.to_string()),
    }
}

/// The token `jsonwebtoken::encode` makes with the default header (HS256)
/// from the claims given as JSON text, embedded as they are, signed with
/// `secret`; `None` when the claims text is not JSON or encoding fails.
pub uninterp spec fn jwt_hs256_encoding(claims: Seq<char>, secret: Seq<char>) -> Option<Seq<char>>;

/// `serde_json::value::RawValue::from_string` on the claims text, then
/// `jsonwebtoken::encode` with `Header::default()` and an HMAC key made of
/// `secret`. The outcome is the one `jwt_hs256_encoding` names; the error's
/// text is not stated. A token made from this library's claims carries an
/// HMAC-SHA256 signature under `secret` over its header and claims, so
/// `jsonwebtoken::decode` with the same secret and `Validation::new(HS256)`
/// checks the signature and reads back the claims' `sub`.
#[verifier::external_body]
fn jwt_hs256_encode(claims: &str, secret: &str) -> (token: Result<String, String>)
    ensures
        match token {
            Ok(t) => jwt_hs256_encoding(claims@, secret@) == Some(t@),
            Err(_) => jwt_hs256_encoding(claims@, secret@) is None,
        },
        token matches Ok(t) ==> forall|id: i64, exp: nat|
            #[trigger] token_claims(id, exp) == claims@ ==> jwt_hs256_signed_subject(t@, secret@)
                == Some(signed_decimal(id as int)),
{
    let claims = serde_json::value::RawValue::from_string(claims.to_string())
        .map_err(|err| err.to_string())?;
    encode(&Header::default(), &claims, &EncodingKey::from_secret(secret.as_bytes()))
        .map_err(|err| err.to_string())
}

/// The HTTP status every rejected token is answered with.
pub const UNAUTHORIZED: u16 = 401u16;

/// What reading a token back gives: a user only when the token's signed
/// subject is that user's id, a rejection when there is no signed subject or
/// it is not a user id, and `UNAUTHORIZED` for every rejection. (A signed
/// token can still be rejected once it has expired.)
pub open spec fn reads_token(token: Seq<char>, secret: Seq<char>, user: Result<AuthUser, u16>) -> bool {
    &&& user matches Ok(u) ==> (jwt_hs256_signed_subject(token, secret) matches Some(s) && parse_i64(s)
        == Some(u.user_id))
    &&& jwt_hs256_signed_subject(token, secret) is None ==> user is Err
    &&& (jwt_hs256_signed_subject(token, secret) matches Some(s) && parse_i64(s) is None)
        ==> user is Err
    &&& user is Err ==> user == Err::<AuthUser, u16>(UNAUTHORIZED)
}

impl AuthUser {
    /// The user a token's subject names, if it is a user id.
    pub fn from_subject(subject: &str) -> (user: Option<AuthUser>)
        ensures
            match user {
                Some(u) => parse_i64(subject@) == Some(u.user_id),
                None => parse_i64(subject@) is None,
            },
    {
        match parse_i64_str(subject) {
            Some(user_id) => Some(AuthUser { user_id }),
            None => None,
        }
    }

    /// Validates a raw JWT (no `Bearer ` prefix): its HS256 signature under
    /// `secret`, its expiry, and that its subject is a user id. Every
    /// rejection is `UNAUTHORIZED`.
    pub fn from_token(token: &str, secret: &str) -> (user: Result<AuthUser, u16>)
        ensures
            reads_token(token@, secret@, user),
    {
        let subject = match jwt_hs256_subject(token, secret) {
            Ok(subject) => subject,
            Err(_) => {
                return Err(UNAUTHORIZED);
            },
        };
        match AuthUser::from_subject(subject.as_str()) {
            Some(user) => Ok(user),
            None => Err(UNAUTHORIZED),
        }
    }
}

pub(crate) proof fn lemma_decimal_digits(n: nat)
    ensures
        decimal(n).len() >= 1,
        all_digits(decimal(n)),
        digits_value(decimal(n)) == n,
        decimal(n)[0] != '+' && decimal(n)[0] != '-',
    decreases n,
{
    if n < 10 {
        assert(is_digit(decimal(n)[0]));
        assert(digit_value(digit_char(n)) == n);
        assert(decimal(n).drop_last() =~= Seq::<char>::empty());
        assert(digits_value(Seq::<char>::empty()) == 0);
        assert(digits_value(decimal(n)) == digits_value(decimal(n).drop_last()) * 10 + digit_value(
            decimal(n).last(),
        ));
    } else {
        lemma_decimal_digits(n / 10);
        let d = decimal(n);
        assert(d.drop_last() =~= decimal(n / 10));
        assert(digit_value(digit_char(n % 10)) == n % 10);
        assert(is_digit(digit_char(n % 10)));
        assert(d.last() == digit_char(n % 10));
        assert(digits_value(d) == digits_value(d.drop_last()) * 10 + digit_value(d.last()));
        assert(n == (n / 10) * 10 + n % 10);
        assert forall|i: int| 0 <= i < d.len() implies #[trigger] is_digit(d[i]) by {
            if i < d.len() - 1 {
                assert(d[i] == decimal(n / 10)[i]);
            }
        }
        assert(d[0] == decimal(n / 10)[0]);
    }
}

/// The subject of a user's token names that user again.
pub proof fn law_subject_round_trips(user_id: i64)
    ensures
        parse_i64(signed_decimal(user_id as int)) == Some(user_id),
{
    let v = user_id as int;
    if v < 0 {
        lemma_decimal_digits((-v) as nat);
        let s = signed_decimal(v);
        assert(s.drop_first() =~= decimal((-v) as nat));
    } else {
        lemma_decimal_digits(v as nat);
    }
}

/// The prefix of a bearer credential in an `Authorization` header.
pub open spec fn bearer_prefix() -> Seq<char> {
    "Bearer "@
}

/// The token of an `Authorization: Bearer <token>` header value.
pub fn bearer_token(value: &str) -> (token: Option<&str>)
    ensures
        match token {
            Some(t) => value@.len() >= bearer_prefix().len() && value@.take(
                bearer_prefix().len() as int,
            ) == bearer_prefix() && t@ == value@.skip(bearer_prefix().len() as int),
            None => !(value@.len() >= bearer_prefix().len() && value@.take(
                bearer_prefix().len() as int,
            ) == bearer_prefix()),
        },
{
    let prefix = "Bearer ";
    proof {
        reveal_strlit("Bearer ");
    }
    let p = prefix.unicode_len();
    let n = value.unicode_len();
    if n < p {
        return None;
    }
    let head = value.substring_char(0, p);
    if !str_eq(head, prefix) {
        return None;
    }
    Some(value.substring_char(p, n))
}

/// The claims of a token for `user_id` expiring at `exp` (seconds since
/// the epoch), as JSON text: the user id in decimal as the subject.
pub open spec fn token_claims(user_id: i64, exp: nat) -> Seq<char> {
    "{\"sub\":\""@ + signed_decimal(user_id as int) + "\",\"exp\":"@ + decimal(exp) + "}"@
}

/// A token could not be made; holds jsonwebtoken's description.
#[derive(Debug, PartialEq, Eq)]
pub struct TokenError(pub String);

/// What `create_token` gives: the token `jwt_hs256_encoding` names for the
/// user's claims, expiring one day after `now`, exactly when there is one;
/// and a token it gives carries the user's id as its signed subject.
pub open spec fn token_made_for(
    user_id: i64,
    secret: Seq<char>,
    now: u64,
    token: Result<String, TokenError>,
) -> bool {
    let claims = token_claims(user_id, (now + ONE_DAY_SECS) as nat);
    &&& match token {
        Ok(t) => jwt_hs256_encoding(claims, secret) == Some(t@),
        Err(_) => jwt_hs256_encoding(claims, secret) is None,
    }
    &&& token matches Ok(t) ==> jwt_hs256_signed_subject(t@, secret) == Some(
        signed_decimal(user_id as int),
    )
}

/// Signs a token for `user_id`, issued at `now` (seconds since the epoch)
/// and valid for one day.
pub fn create_token(user_id: i64, secret: &str, now: u64) -> (token: Result<String, TokenError>)
    requires
        now <= u64::MAX - ONE_DAY_SECS,
    ensures
        token_made_for(user_id, secret@, now, token),
{
    let mut claims = String::from_str("{\"sub\":\"");
    let subject = subject_of(user_id);
    claims.append(subject.as_str());
    claims.append("\",\"exp\":");
    push_decimal(&mut claims, now + ONE_DAY_SECS);
    claims.append("}");
    proof {
        reveal_strlit("{\"sub\":\"");
        reveal_strlit("\",\"exp\":");
        reveal_strlit("}");
    }
    assert(claims@ =~= token_claims(user_id, (now + ONE_DAY_SECS) as nat));
    match jwt_hs256_encode(claims.as_str(), secret) {
        Ok(token) => Ok(token),
        Err(err) => Err(TokenError(err)),
    }
}

/// A token made for a user names that user when read back with the same
/// secret: its signed subject reads as the user's id, and reading it back
/// gives that user whenever it gives one.
pub proof fn law_token_names_its_user(
    user_id: i64,
    secret: Seq<char>,
    now: u64,
    token: String,
    user: Result<AuthUser, u16>,
)
    requires
        token_made_for(user_id, secret, now, Ok::<String, TokenError>(token)),
        reads_token(token@, secret, user),
    ensures
        parse_i64(jwt_hs256_signed_subject(token@, secret)->0) == Some(user_id),
        user matches Ok(u) ==> u.user_id == user_id,
{
    law_subject_round_trips(user_id);
}

} // verus!
