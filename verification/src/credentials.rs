//! Accounts: what is stored of a password, and who may log in.

use crate::protocol::Message;
use crate::text::copy_text;
use bcrypt::BcryptError;
use vstd::prelude::*;

verus! {

/// The error of the `bcrypt` crate, carried and never looked into.
#[verifier::external_type_specification]
#[verifier::external_body]
pub struct ExBcryptError(BcryptError);

/// The work factor of stored passwords.
pub const BCRYPT_COST: u32 = 10;

/// What `bcrypt::verify` says of a password and a stored hash: whether they
/// belong together, or nothing where the hash is malformed or its cost is out of
/// bounds.
pub uninterp spec fn bcrypt_verdict(password: Seq<char>, hash: Seq<char>) -> Option<bool>;

/// The first seven characters of a hash of the given cost.
pub open spec fn hash_prefix(cost: u32) -> Seq<char> {
    seq![
        '$',
        '2',
        'b',
        '$',
        crate::text::digit((cost / 10) as int),
        crate::text::digit((cost % 10) as int),
        '$',
    ]
}

/// `bcrypt::hash`: salts a password at random and hashes it. It fails for a
/// cost outside 4 to 31, and may fail for want of randomness. The hash is sixty
/// characters long, starts with its version and cost, and `bcrypt::verify`
/// finds that the password belongs to it. Which hash it is depends on chance.
#[verifier::external_body]
fn bcrypt_hash(password: &str, cost: u32) -> (r: Result<String, BcryptError>)
    ensures
        r is Ok ==> 4 <= cost <= 31,
        r matches Ok(h) ==> bcrypt_verdict(password@, h@) == Some(true),
        r matches Ok(h) ==> h@.len() == 60 && h@.subrange(0, 7) == hash_prefix(cost),
{
    bcrypt::hash(password, cost)
}

/// `bcrypt::verify`: the same password and hash always give the same answer,
/// which `bcrypt_verdict` names.
#[verifier::external_body]
fn bcrypt_verify(password: &str, hash: &str) -> (r: Result<bool, BcryptError>)
    ensures
        match r {
            Ok(b) => bcrypt_verdict(password@, hash@) == Some(b),
            Err(_) => bcrypt_verdict(password@, hash@) is None,
        },
{
    bcrypt::verify(password, hash)
}

/// Why an account is refused.
#[derive(Debug, Clone)]
pub enum AuthError {
    /// The message carries no credentials.
    NotCredentials,
    /// The message is no registration.
    NotRegister,
    UnknownUser,
    WrongPassword,
    UserExists,
    /// The password could not be hashed.
    Hashing(String),
    /// The database failed.
    Storage(String),
}

impl AuthError {
    /// What the client is told.
    pub open spec fn explanation(&self) -> Seq<char> {
        match self {
            AuthError::NotCredentials => "messaggio non valido"@,
            AuthError::NotRegister => "save_register: non è una variante Register"@,
            AuthError::UnknownUser => "utente non trovato"@,
            AuthError::WrongPassword => "credenziali non valide"@,
            AuthError::UserExists => "utente esiste già"@,
            AuthError::Hashing(e) => e@,
            AuthError::Storage(e) => e@,
        }
    }

    /// What the client is told.
    pub fn explain(&self) -> (t: String)
        ensures
            t@ == self.explanation(),
    {
        match self {
            AuthError::NotCredentials => copy_text("messaggio non valido"),
            AuthError::NotRegister => copy_text("save_register: non è una variante Register"),
            AuthError::UnknownUser => copy_text("utente non trovato"),
            AuthError::WrongPassword => copy_text("credenziali non valide"),
            AuthError::UserExists => copy_text("utente esiste già"),
            AuthError::Hashing(e) => copy_text(e.as_str()),
            AuthError::Storage(e) => copy_text(e.as_str()),
        }
    }
}

/// The username and password of a message that carries them.
pub open spec fn credentials(m: crate::protocol::MessageView) -> Option<(Seq<char>, Seq<char>)> {
    match m {
        crate::protocol::MessageView::Login { username, password } => Some((username, password)),
        crate::protocol::MessageView::Register { username, password } => Some(
            (username, password),
        ),
        _ => None,
    }
}

/// Reads the username and password of a message.
pub fn credentials_of(msg: &Message) -> (r: Result<(String, String), AuthError>)
    ensures
        match r {
            Ok((u, p)) => credentials(msg@) == Some((u@, p@)),
            Err(e) => credentials(msg@) is None && e is NotCredentials,
        },
{
    match msg {
        Message::Login { username, password } => Ok(
            (copy_text(username.as_str()), copy_text(password.as_str())),
        ),
        Message::Register { username, password } => Ok(
            (copy_text(username.as_str()), copy_text(password.as_str())),
        ),
        _ => Err(AuthError::NotCredentials),
    }
}

/// Decides a login: `verified` is what the stored hash says of the password, if
/// the user has one.
pub fn login_verdict(verified: Option<bool>) -> (r: Result<(), AuthError>)
    ensures
        r is Ok <==> verified == Some(true),
        r matches Err(e) ==> match verified {
            None => e is UnknownUser,
            Some(_) => e is WrongPassword,
        },
{
    match verified {
        None => Err(AuthError::UnknownUser),
        Some(ok) => if ok {
            Ok(())
        } else {
            Err(AuthError::WrongPassword)
        },
    }
}

/// The credentials of `m` are those of a user whose stored hash is `stored`.
pub open spec fn admits(m: crate::protocol::MessageView, stored: Option<Seq<char>>) -> bool {
    match (credentials(m), stored) {
        (Some((_, password)), Some(hash)) => bcrypt_verdict(password, hash) == Some(true),
        _ => false,
    }
}

/// The characters of a borrowed text that may be absent.
pub open spec fn stored_view(stored: Option<&str>) -> Option<Seq<char>> {
    match stored {
        Some(h) => Some(h@),
        None => None,
    }
}

/// Checks the credentials of a message against the hash that is stored for the
/// user, if the user has one. A malformed hash fits no password.
pub fn check_credentials(msg: &Message, stored: Option<&str>) -> (r: Result<(), AuthError>)
    ensures
        r is Ok <==> admits(msg@, stored_view(stored)),
        r matches Err(e) ==> match (credentials(msg@), stored) {
            (None, _) => e is NotCredentials,
            (Some(_), None) => e is UnknownUser,
            (Some(_), Some(_)) => e is WrongPassword,
        },
{
    match credentials_of(msg) {
        Err(e) => Err(e),
        Ok((_, password)) => match stored {
            None => login_verdict(None),
            Some(hash) => {
                let ok: bool = match bcrypt_verify(password.as_str(), hash) {
                    Ok(b) => b,
                    Err(_) => false,
                };
                login_verdict(Some(ok))
            },
        },
    }
}

/// A user to be stored.
#[derive(Debug)]
pub struct NewUser {
    pub username: String,
    pub password_hash: String,
}

/// The username and password of a registration.
pub open spec fn registration(m: crate::protocol::MessageView) -> Option<(Seq<char>, Seq<char>)> {
    match m {
        crate::protocol::MessageView::Register { username, password } => Some(
            (username, password),
        ),
        _ => None,
    }
}

/// `user` is ready to be stored for the registration `m`: it has the username,
/// and a hash of the right cost that the password fits.
pub open spec fn prepared(m: crate::protocol::MessageView, user: NewUser) -> bool {
    match registration(m) {
        Some((username, password)) => {
            &&& user.username@ == username
            &&& bcrypt_verdict(password, user.password_hash@) == Some(true)
            &&& user.password_hash@.len() == 60
            &&& user.password_hash@.subrange(0, 7) == hash_prefix(BCRYPT_COST)
        },
        None => false,
    }
}

/// Prepares the user of a registration for storage: with a hash of the
/// password that the password is then found to fit.
pub fn save_register(msg: &Message) -> (r: Result<NewUser, AuthError>)
    ensures
        match registration(msg@) {
            None => r matches Err(e) && e is NotRegister,
            Some(_) => match r {
                Ok(user) => prepared(msg@, user),
                Err(e) => e is Hashing,
            },
        },
{
    match msg {
        Message::Register { username, password } => {
            let hashed = match bcrypt_hash(password.as_str(), BCRYPT_COST) {
                Ok(h) => Ok(h),
                Err(e) => Err(e.to_string()),
            };
            new_user(username.as_str(), hashed)
        },
        _ => Err(AuthError::NotRegister),
    }
}

/// The user to be stored, given what came of hashing the password.
pub fn new_user(username: &str, hashed: Result<String, String>) -> (r: Result<NewUser, AuthError>)
    ensures
        match (hashed, r) {
            (Ok(h), Ok(user)) => user.username@ == username@ && user.password_hash == h,
            (Err(t), Err(e)) => e == AuthError::Hashing(t),
            _ => false,
        },
{
    match hashed {
        Ok(password_hash) => Ok(NewUser { username: copy_text(username), password_hash }),
        Err(t) => Err(AuthError::Hashing(t)),
    }
}

/// What came of storing a user.
#[derive(Debug)]
pub enum StoreOutcome {
    Stored,
    /// A user of that name is already there.
    Duplicate,
    Failed(String),
}

/// Decides a registration by what came of storing its user.
pub fn registration_verdict(outcome: StoreOutcome) -> (r: Result<(), AuthError>)
    ensures
        match outcome {
            StoreOutcome::Stored => r is Ok,
            StoreOutcome::Duplicate => r == Err::<(), AuthError>(AuthError::UserExists),
            StoreOutcome::Failed(t) => r == Err::<(), AuthError>(AuthError::Storage(t)),
        },
{
    match outcome {
        StoreOutcome::Stored => Ok(()),
        StoreOutcome::Duplicate => Err(AuthError::UserExists),
        StoreOutcome::Failed(t) => Err(AuthError::Storage(t)),
    }
}

/// Whoever registers can log in: what a registration stores admits a login
/// with the same username and password.
pub proof fn law_registered_user_can_log_in(
    register: crate::protocol::MessageView,
    user: NewUser,
    login: crate::protocol::MessageView,
)
    requires
        prepared(register, user),
        credentials(login) == registration(register),
    ensures
        admits(login, Some(user.password_hash@)),
{
}

/// A login or a registration carries its own username and password, and no other
/// message carries any; only a registration registers.
pub proof fn law_credentials_are_those_of_the_message(
    username: Seq<char>,
    password: Seq<char>,
    m: crate::protocol::MessageView,
)
    ensures
        credentials(crate::protocol::MessageView::Login { username, password }) == Some(
            (username, password),
        ),
        credentials(crate::protocol::MessageView::Register { username, password }) == Some(
            (username, password),
        ),
        registration(crate::protocol::MessageView::Register { username, password }) == Some(
            (username, password),
        ),
        !(m is Login) && !(m is Register) ==> credentials(m) is None,
        !(m is Register) ==> registration(m) is None,
{
}

/// A user is let in exactly where there is a stored hash that the password of the
/// message fits. A password that it does not fit, a hash that cannot be read, and
/// no hash at all let nobody in.
pub proof fn law_only_the_right_password_is_let_in(
    username: Seq<char>,
    password: Seq<char>,
    hash: Seq<char>,
    m: crate::protocol::MessageView,
)
    requires
        m == (crate::protocol::MessageView::Login { username, password }) || m == (
        crate::protocol::MessageView::Register { username, password }),
    ensures
        admits(m, Some(hash)) <==> bcrypt_verdict(password, hash) == Some(true),
        !admits(m, None),
{
}

/// A user who is ready to be stored has the username of the registration, and a
/// hash at cost ten that the password of the registration fits.
pub proof fn law_stored_user_is_the_registered_one(
    username: Seq<char>,
    password: Seq<char>,
    user: NewUser,
)
    ensures
        prepared(crate::protocol::MessageView::Register { username, password }, user) <==> {
            &&& user.username@ == username
            &&& bcrypt_verdict(password, user.password_hash@) == Some(true)
            &&& user.password_hash@.len() == 60
            &&& user.password_hash@.take(7) == "$2b$10$"@
        },
{
    reveal_strlit("$2b$10$");
    assert(hash_prefix(BCRYPT_COST) =~= "$2b$10$"@);
    assert(user.password_hash@.take(7) =~= user.password_hash@.subrange(0, 7));
}

/// What is told of each refusal.
pub proof fn law_refusals_are_explained(e: AuthError, why: String)
    ensures
        AuthError::NotCredentials.explanation() == "messaggio non valido"@,
        AuthError::NotRegister.explanation() == "save_register: non è una variante Register"@,
        AuthError::UnknownUser.explanation() == "utente non trovato"@,
        AuthError::WrongPassword.explanation() == "credenziali non valide"@,
        AuthError::UserExists.explanation() == "utente esiste già"@,
        AuthError::Hashing(why).explanation() == why@,
        AuthError::Storage(why).explanation() == why@,
{
}

}
