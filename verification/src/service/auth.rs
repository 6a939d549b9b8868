//! Letting users in: what is decided once the stored credentials and the
//! user have been looked up, and how passwords are hashed and compared.

use vstd::prelude::*;

use crate::domain::auth::{
    from_user_error, AuthUser, AuthUserCredentials, AuthUserView, Claims, Error, ErrorView,
    UserCredentials, UsernameAndPassword,
};
use crate::domain::user;
use crate::domain::user::{User, UserView};
use crate::service::hash_text::{
    asks_bounded_parallelism, hash_asks_bounded_parallelism, MAX_PARALLELISM,
};

verus! {

/// The memory, in KiB, that hashing a password takes.
pub const HASH_MEMORY_COST: u32 = 15000;

/// The number of passes that hashing a password takes.
pub const HASH_TIME_COST: u32 = 2;

/// The number of lanes in which a password is hashed.
pub const HASH_PARALLELISM: u32 = 1;

/// The number of seconds for which a token is good: seven days.
pub const TOKEN_LIFETIME_SECONDS: i64 = 604800;

/// What comparing a password with an encoded hash gives: nothing where the
/// hash cannot be read, else whether the password, hashed with the salt and
/// the parameters that the hash names, gives the hash.
pub uninterp spec fn password_check(password: Seq<char>, encoded: Seq<char>) -> Option<bool>;

/// The encoded Argon2id hash of a password under a salt and the three costs;
/// nothing where the salt or the costs are not accepted.
pub uninterp spec fn argon2id_hash(
    password: Seq<char>,
    salt: Seq<char>,
    memory_cost: u32,
    time_cost: u32,
    parallelism: u32,
) -> Option<Seq<char>>;

/// The characters of an optional text.
pub open spec fn optional_text(text: Option<String>) -> Option<Seq<char>> {
    match text {
        Some(t) => Some(t@),
        None => None,
    }
}

/// Compares a password with an encoded hash. `argon2::PasswordHash::new`
/// reads the hash, which is in the PHC string format; then
/// `verify_password` of `argon2::Argon2` hashes the password with the salt
/// and the parameters that the hash names and compares the outcome with the
/// hash. The result is a function of the two texts and of nothing else; the
/// work takes the memory that the hash names.
///
/// On its way `argon2::Params::new` multiplies the number of lanes by
/// eight, which a hash that asks for too many lanes would make overflow: such
/// a hash is not handed over.
#[verifier::external_body]
fn compare_with_hash(password: &str, encoded: &str) -> (outcome: Option<bool>)
    requires
        asks_bounded_parallelism(encoded@),
    ensures
        outcome == password_check(password@, encoded@),
{
    match argon2::PasswordHash::new(encoded) {
        Ok(hash) => Some(
            argon2::PasswordVerifier::verify_password(
                &argon2::Argon2::default(),
                password.as_bytes(),
                &hash,
            ).is_ok(),
        ),
        Err(_) => None,
    }
}

/// Hashes a password with Argon2id, version 19: `hash_password` of
/// `argon2::Argon2`, made with `argon2::Params::new` from the three costs,
/// under the salt that `SaltString::from_b64` reads. The result is the hash
/// in the PHC string format, a function of the arguments; there is none
/// where the costs or the salt are refused.
///
/// `argon2::Params::new` multiplies the number of lanes by eight before it
/// tests it, so no more lanes are asked for than it accepts.
#[verifier::external_body]
fn hash_with_argon2id(
    password: &str,
    salt: &str,
    memory_cost: u32,
    time_cost: u32,
    parallelism: u32,
) -> (hash: Option<String>)
    requires
        parallelism <= MAX_PARALLELISM,
    ensures
        optional_text(hash) == argon2id_hash(password@, salt@, memory_cost, time_cost, parallelism),
{
    let params = argon2::Params::new(memory_cost, time_cost, parallelism, None).ok()?;
    let salt = argon2::password_hash::SaltString::from_b64(salt).ok()?;
    let hasher = argon2::Argon2::new(argon2::Algorithm::Argon2id, argon2::Version::V0x13, params);
    let hash = argon2::PasswordHasher::hash_password(&hasher, password.as_bytes(), &salt).ok()?;
    Some(hash.to_string())
}

/// The number of characters of a new salt: those of sixteen bytes written
/// in Base64 without padding.
pub const SALT_LENGTH: usize = 22;

/// A character of Base64: a letter, a digit, `+` or `/`.
pub open spec fn is_base64_char(c: char) -> bool {
    ||| 'A' <= c <= 'Z'
    ||| 'a' <= c <= 'z'
    ||| '0' <= c <= '9'
    ||| c == '+'
    ||| c == '/'
}

/// What every new salt is: sixteen bytes written in Base64 without padding,
/// which makes twenty-two characters.
pub open spec fn is_new_salt(salt: Seq<char>) -> bool {
    &&& salt.len() == SALT_LENGTH
    &&& forall|i: int| 0 <= i < salt.len() ==> is_base64_char(#[trigger] salt[i])
}

/// A salt from the thread's random number generator:
/// `SaltString::generate` with `rand::thread_rng`, which fills sixteen bytes
/// from the generator and writes them in Base64 without padding. Every call
/// gives another salt; each is twenty-two characters of Base64.
#[verifier::external_body]
fn random_salt() -> (salt: String)
    ensures
        is_new_salt(salt@),
{
    argon2::password_hash::SaltString::generate(&mut rand::thread_rng()).as_str().to_owned()
}

/// What comparing a password with a stored text gives: nothing where the
/// text asks for more lanes than a hash may, which no hash that was made
/// here does; else what comparing it with the hash gives.
pub open spec fn guarded_check(password: Seq<char>, encoded: Seq<char>) -> Option<bool> {
    if asks_bounded_parallelism(encoded) {
        password_check(password, encoded)
    } else {
        None
    }
}

/// Compares a password with a stored text, unless the text asks for more
/// lanes than a hash may.
pub fn compare_guarded(password: &str, encoded: &str) -> (outcome: Option<bool>)
    ensures
        outcome == guarded_check(password@, encoded@),
{
    if hash_asks_bounded_parallelism(encoded) {
        compare_with_hash(password, encoded)
    } else {
        None
    }
}

/// What the outcome of a comparison means for the caller: a hash that cannot
/// be read is a failure of the store, a wrong password is a failure of the
/// caller.
pub open spec fn judgement(outcome: Option<bool>) -> Result<(), ErrorView> {
    match outcome {
        None => Err(ErrorView::Unexpected),
        Some(false) => Err(ErrorView::InvalidAuth),
        Some(true) => Ok(()),
    }
}

/// The view of the outcome of a check.
pub open spec fn checked_view(checked: Result<(), Error>) -> Result<(), ErrorView> {
    match checked {
        Ok(()) => Ok(()),
        Err(e) => Err(e@),
    }
}

/// The view of an attempt to let a user in.
pub open spec fn attempt_view(attempt: Result<AuthUser, Error>) -> Result<AuthUserView, ErrorView> {
    match attempt {
        Ok(u) => Ok(u@),
        Err(e) => Err(e@),
    }
}

/// Says what the outcome of a comparison means: `Unexpected` where the hash
/// could not be read, `InvalidAuth` where the password is wrong.
pub fn judge_password(outcome: Option<bool>) -> (checked: Result<(), Error>)
    ensures
        checked_view(checked) == judgement(outcome),
{
    match outcome {
        None => Err(Error::Unexpected),
        Some(false) => Err(Error::InvalidAuth),
        Some(true) => Ok(()),
    }
}

/// Checks a password against an encoded hash: `Unexpected` where the hash
/// cannot be read or asks for more lanes than a hash may, `InvalidAuth`
/// where the password is not the one that was hashed.
pub fn check_password(password: &str, encoded: &str) -> (checked: Result<(), Error>)
    ensures
        checked_view(checked) == judgement(guarded_check(password@, encoded@)),
{
    judge_password(compare_guarded(password, encoded))
}

/// A new salt for a password: sixteen random bytes, written in Base64
/// without padding.
pub fn new_salt() -> (salt: String)
    ensures
        is_new_salt(salt@),
{
    random_salt()
}

/// What was found when the credentials of a username were looked up, and
/// then the user that they name.
pub enum LookupView {
    /// The credentials and the user were found.
    Found { username: Seq<char>, password_hash: Seq<char>, user: UserView },
    /// The credentials were found, the user was not.
    UserMissing { password_hash: Seq<char>, error: user::Error },
    /// The credentials were not found.
    Missing { failure: ErrorView },
}

/// The view of the two lookups.
pub open spec fn lookup_view(
    lookup: Result<(AuthUserCredentials, Result<User, user::Error>), Error>,
) -> LookupView {
    match lookup {
        Ok((stored, Ok(user))) => LookupView::Found {
            username: stored.username@,
            password_hash: stored.password_hash@,
            user: user@,
        },
        Ok((stored, Err(error))) => LookupView::UserMissing {
            password_hash: stored.password_hash@,
            error,
        },
        Err(error) => LookupView::Missing { failure: error@ },
    }
}

/// The hash that stands in where no credentials are stored, so that every
/// attempt costs a comparison.
pub open spec fn placeholder_hash() -> Seq<char> {
    "$argon2id$v=19$m=15000,t=2,p=1$gZiV/M1gPc22ElAH/Jh1Hw$CWOrkoo7oJBQ/iyh7uJ0LO2aLEfrHwTWllSAxT0zRno"@
}

/// The hash that the password is compared with: the stored one, or the
/// placeholder where none was found.
pub open spec fn expected_hash(lookup: LookupView) -> Seq<char> {
    match lookup {
        LookupView::Found { password_hash, .. } => password_hash,
        LookupView::UserMissing { password_hash, .. } => password_hash,
        LookupView::Missing { .. } => placeholder_hash(),
    }
}

/// What an attempt with a password comes to. A failed comparison decides
/// first. After it, a lookup that found nobody means invalid credentials,
/// and any other failure of a lookup is handed on.
pub open spec fn password_attempt(lookup: LookupView, outcome: Option<bool>) -> Result<
    AuthUserView,
    ErrorView,
> {
    match judgement(outcome) {
        Err(e) => Err(e),
        Ok(()) => match lookup {
            LookupView::Found { username, user, .. } => Ok(AuthUserView { username, user }),
            LookupView::UserMissing { error, .. } => match error {
                user::Error::UserNotFound(_) => Err(ErrorView::InvalidAuth),
                user::Error::Unexpected => Err(ErrorView::Unexpected),
            },
            LookupView::Missing { failure } => match failure {
                ErrorView::AuthUserNotFound(_) => Err(ErrorView::InvalidAuth),
                ErrorView::UserNotFound(_) => Err(ErrorView::InvalidAuth),
                other => Err(other),
            },
        },
    }
}

/// What an attempt with a token comes to, once the token has been read: the
/// user that was found, or the failure of the lookup that failed.
pub open spec fn token_attempt(lookup: LookupView) -> Result<AuthUserView, ErrorView> {
    match lookup {
        LookupView::Found { username, user, .. } => Ok(AuthUserView { username, user }),
        LookupView::UserMissing { error, .. } => Err(from_user_error(error)@),
        LookupView::Missing { failure } => Err(failure),
    }
}

/// The hash that the password is compared with: the stored one, or the
/// placeholder where none was found.
pub fn hash_to_compare(
    lookup: &Result<(AuthUserCredentials, Result<User, user::Error>), Error>,
) -> (encoded: String)
    ensures
        encoded@ == expected_hash(lookup_view(*lookup)),
{
    match lookup {
        Ok((stored, _)) => stored.password_hash.clone(),
        Err(_) => {
            "$argon2id$v=19$m=15000,t=2,p=1$gZiV/M1gPc22ElAH/Jh1Hw$CWOrkoo7oJBQ/iyh7uJ0LO2aLEfrHwTWllSAxT0zRno".to_owned()
        },
    }
}

/// Decides an attempt with a password from the two lookups and the outcome
/// of the comparison.
pub fn conclude_password_attempt(
    lookup: Result<(AuthUserCredentials, Result<User, user::Error>), Error>,
    outcome: Option<bool>,
) -> (attempt: Result<AuthUser, Error>)
    ensures
        attempt_view(attempt) == password_attempt(lookup_view(lookup), outcome),
{
    match judge_password(outcome) {
        Err(e) => Err(e),
        Ok(()) => match lookup {
            Ok((stored, Ok(user))) => Ok(AuthUser { username: stored.username, user }),
            Ok((_, Err(error))) => match error {
                user::Error::UserNotFound(_) => Err(Error::InvalidAuth),
                user::Error::Unexpected => Err(Error::Unexpected),
            },
            Err(error) => match error {
                Error::AuthUserNotFound(_) => Err(Error::InvalidAuth),
                Error::UserNotFound(_) => Err(Error::InvalidAuth),
                other => Err(other),
            },
        },
    }
}

/// The credentials that a request shows: the username and password of its
/// basic authorization where it has one, else the token of its bearer
/// authorization. A request that shows neither is refused as `InvalidAuth`.
pub fn credentials_shown(basic: Option<UsernameAndPassword>, bearer: Option<String>) -> (shown:
    Result<UserCredentials, Error>)
    ensures
        match (basic, bearer) {
            (Some(login), _) => shown == Ok::<_, Error>(
                UserCredentials::UsernameAndPassword(login),
            ),
            (None, Some(token)) => shown == Ok::<_, Error>(UserCredentials::JwtToken(token)),
            (None, None) => shown == Err::<UserCredentials, _>(Error::InvalidAuth),
        },
{
    match basic {
        Some(login) => Ok(UserCredentials::UsernameAndPassword(login)),
        None => match bearer {
            Some(token) => Ok(UserCredentials::JwtToken(token)),
            None => Err(Error::InvalidAuth),
        },
    }
}

/// The service that lets users in. It holds what tokens are signed with and
/// made for, and for how long they are good.
#[derive(Debug)]
pub struct DefaultAuthUserService {
    pub jwt_token_secret: String,
    pub jwt_token_audience: String,
    pub jwt_token_expiration: i64,
}

impl DefaultAuthUserService {
    /// A service that signs tokens with `jwt_token_secret`, for the audience
    /// `https://api.stockpot.com`, good for seven days.
    pub fn new(jwt_token_secret: String) -> (service: DefaultAuthUserService)
        ensures
            service.jwt_token_secret == jwt_token_secret,
            service.jwt_token_audience@ == "https://api.stockpot.com"@,
            service.jwt_token_expiration == TOKEN_LIFETIME_SECONDS,
    {
        DefaultAuthUserService {
            jwt_token_secret,
            jwt_token_audience: "https://api.stockpot.com".to_owned(),
            jwt_token_expiration: TOKEN_LIFETIME_SECONDS,
        }
    }

    /// Decides whether a caller who shows a username and a password is let
    /// in, given what the lookups of the credentials and of the user found.
    ///
    /// The password is always compared with a hash, the stored one or a
    /// placeholder, so that an attempt takes as long whether or not the
    /// username is known.
    pub fn validate_password(
        &self,
        credentials: &UsernameAndPassword,
        lookup: Result<(AuthUserCredentials, Result<User, user::Error>), Error>,
    ) -> (attempt: Result<AuthUser, Error>)
        ensures
            attempt_view(attempt) == password_attempt(
                lookup_view(lookup),
                guarded_check(credentials.password@, expected_hash(lookup_view(lookup))),
            ),
    {
        let encoded = hash_to_compare(&lookup);
        let outcome = compare_guarded(credentials.password.as_str(), encoded.as_str());
        conclude_password_attempt(lookup, outcome)
    }

    /// Decides whether a caller who shows a token is let in, once the token
    /// has been read and the credentials and the user that it names have
    /// been looked up.
    pub fn validate_token(
        &self,
        lookup: Result<(AuthUserCredentials, Result<User, user::Error>), Error>,
    ) -> (attempt: Result<AuthUser, Error>)
        ensures
            attempt_view(attempt) == token_attempt(lookup_view(lookup)),
    {
        match lookup {
            Ok((stored, Ok(user))) => Ok(AuthUser { username: stored.username, user }),
            Ok((_, Err(error))) => Err(Error::from(error)),
            Err(error) => Err(error),
        }
    }

    /// The id under which credentials for `user` are stored: the user's own,
    /// which a stored user has. A user without one is refused as
    /// `Unexpected`.
    pub fn user_id_of(&self, user: &User) -> (id: Result<i32, Error>)
        ensures
            match user.id {
                Some(user_id) => id == Ok::<_, Error>(user_id),
                None => id == Err::<i32, _>(Error::Unexpected),
            },
    {
        match user.id {
            Some(user_id) => Ok(user_id),
            None => Err(Error::Unexpected),
        }
    }

    /// The credentials to store for `user`: the username, the id of the
    /// user, and the Argon2id hash of the password under `salt`. Fails as
    /// `Unexpected` where the user has no id or the password cannot be
    /// hashed.
    pub fn new_credentials(
        &self,
        user: &User,
        credentials: &UsernameAndPassword,
        salt: &str,
    ) -> (made: Result<AuthUserCredentials, Error>)
        ensures
            match made {
                Ok(c) => {
                    &&& user.id == Some(c.user_id)
                    &&& c.id is None
                    &&& c.username == credentials.username
                    &&& Some(c.password_hash@) == argon2id_hash(
                        credentials.password@,
                        salt@,
                        HASH_MEMORY_COST,
                        HASH_TIME_COST,
                        HASH_PARALLELISM,
                    )
                },
                Err(e) => {
                    &&& e == Error::Unexpected
                    &&& user.id is None || argon2id_hash(
                        credentials.password@,
                        salt@,
                        HASH_MEMORY_COST,
                        HASH_TIME_COST,
                        HASH_PARALLELISM,
                    ) is None
                },
            },
    {
        let user_id = match user.id {
            Some(user_id) => user_id,
            None => {
                return Err(Error::Unexpected);
            },
        };
        let hashed = hash_with_argon2id(
            credentials.password.as_str(),
            salt,
            HASH_MEMORY_COST,
            HASH_TIME_COST,
            HASH_PARALLELISM,
        );
        match hashed {
            Some(password_hash) => Ok(
                AuthUserCredentials {
                    id: None,
                    username: credentials.username.clone(),
                    password_hash,
                    user_id,
                },
            ),
            None => Err(Error::Unexpected),
        }
    }

    /// What a token for `auth_user` claims when it is made at the second
    /// `now`: the audience of the service, the username, and the second at
    /// which the token expires. Fails as `Unexpected` where that second
    /// cannot be written down.
    pub fn claims_for(&self, auth_user: &AuthUser, now: i64) -> (claims: Result<Claims, Error>)
        ensures
            match claims {
                Ok(c) => {
                    &&& c.aud == self.jwt_token_audience
                    &&& c.sub == auth_user.username
                    &&& c.exp == now + self.jwt_token_expiration
                },
                Err(e) => {
                    &&& e == Error::Unexpected
                    &&& !(0 <= now + self.jwt_token_expiration <= i64::MAX)
                },
            },
    {
        match now.checked_add(self.jwt_token_expiration) {
            Some(expires) => {
                if expires < 0 {
                    Err(Error::Unexpected)
                } else {
                    Ok(
                        Claims {
                            aud: self.jwt_token_audience.clone(),
                            sub: auth_user.username.clone(),
                            exp: expires as u64,
                        },
                    )
                }
            },
            None => Err(Error::Unexpected),
        }
    }
}

} // verus!
