//! Accounts of a small trading exchange: roles, the commands that the
//! administrator and the regulator can give, creating users and checking
//! passwords.

use vstd::prelude::*;

use crate::text::{chars_eq_str, chars_of};

verus! {

/// The role of an account.
#[derive(Clone, Copy, PartialEq, Eq, Structural, Debug)]
pub enum Role {
    Admin,
    Customer,
    Regulator,
}

/// What the administrator can do.
pub enum AdminCommands {
    CreateUser { username: String, password: String, role: String },
}

/// What the regulator can do.
#[derive(Clone, Copy, PartialEq, Eq, Structural, Debug)]
pub enum RegulatorCommands {
    ViewTransactions,
    ViewWallets,
}

/// An account ready to be stored: its name, its password hash and its role.
pub struct NewAccount {
    pub username: String,
    pub password_hash: String,
    pub role: Role,
}

/// Why a user could not be created.
#[derive(Clone, Copy, PartialEq, Eq, Structural, Debug)]
pub enum CreateUserError {
    /// The password could not be hashed (no randomness for the salt).
    HashFailed,
    /// The role is none of `admin`, `customer`, `regulator`.
    InvalidRole,
}

/// The lowercase form of a text (`str::to_lowercase`).
pub uninterp spec fn lowercase_of(s: Seq<char>) -> Seq<char>;

/// Whether `password` matches the bcrypt hash `hash` (`bcrypt::verify`,
/// an unreadable hash counting as no match).
pub uninterp spec fn bcrypt_verifies(password: Seq<char>, hash: Seq<char>) -> bool;

/// All characters are ASCII.
pub open spec fn all_ascii(s: Seq<char>) -> bool {
    forall|i: int| 0 <= i < s.len() ==> (#[trigger] s[i] as u32) < 128
}

/// ASCII lowercasing: `A`..`Z` become `a`..`z`, everything else stays.
pub open spec fn ascii_lower(s: Seq<char>) -> Seq<char> {
    s.map_values(
        |c: char|
            if 'A' <= c <= 'Z' {
                ((c as u32) + 32) as char
            } else {
                c
            },
    )
}

/// The role spelled `lowered`, if any.
pub open spec fn role_named(lowered: Seq<char>) -> Option<Role> {
    if lowered == "admin"@ {
        Some(Role::Admin)
    } else if lowered == "customer"@ {
        Some(Role::Customer)
    } else if lowered == "regulator"@ {
        Some(Role::Regulator)
    } else {
        None
    }
}

/// The name a role is stored under.
pub open spec fn role_label(r: Role) -> Seq<char> {
    match r {
        Role::Admin => "Admin"@,
        Role::Customer => "Customer"@,
        Role::Regulator => "Regulator"@,
    }
}

/// Lowercases a text with `str::to_lowercase`.  Trusted: the result is the
/// named value `lowercase_of(s)`, and for ASCII text it is ASCII
/// lowercasing, as the documentation of `to_lowercase` gives.
#[verifier::external_body]
fn to_lowercase(s: &str) -> (r: String)
    ensures
        r@ == lowercase_of(s@),
        all_ascii(s@) ==> r@ == ascii_lower(s@),
{
    s.to_lowercase()
}

/// Hashes a password with `bcrypt::hash` at the crate's default cost
/// (`bcrypt::DEFAULT_COST`) and a random salt.  Trusted: a produced hash
/// verifies against the same password (`bcrypt::verify` recomputes it with
/// the salt and cost it holds); `None` when the crate reports an error
/// (no randomness for the salt).  The hash itself is not otherwise stated:
/// it depends on the random salt.
#[verifier::external_body]
fn bcrypt_hash(password: &str) -> (r: Option<String>)
    ensures
        r matches Some(h) ==> bcrypt_verifies(password@, h@),
{
    match bcrypt::hash(password, bcrypt::DEFAULT_COST) {
        Ok(h) => Some(h),
        Err(_) => None,
    }
}

/// Checks a password against a bcrypt hash with `bcrypt::verify`, an error
/// (an unreadable hash) counting as a mismatch.  Trusted: the answer is the
/// named value `bcrypt_verifies(password, hash)`.
#[verifier::external_body]
fn bcrypt_verify(password: &str, hash: &str) -> (b: bool)
    ensures
        b == bcrypt_verifies(password@, hash@),
{
    bcrypt::verify(password, hash).unwrap_or(false)
}

/// The role spelled by an already lowercased text.
pub fn role_from_lowercase(lowered: &str) -> (r: Option<Role>)
    ensures
        r == role_named(lowered@),
{
    let c = chars_of(lowered);
    if chars_eq_str(c.as_slice(), "admin") {
        Some(Role::Admin)
    } else if chars_eq_str(c.as_slice(), "customer") {
        Some(Role::Customer)
    } else if chars_eq_str(c.as_slice(), "regulator") {
        Some(Role::Regulator)
    } else {
        None
    }
}

/// The role a text names, in any letter case.
pub fn parse_role(role: &str) -> (r: Option<Role>)
    ensures
        r == role_named(lowercase_of(role@)),
{
    let lowered = to_lowercase(role);
    role_from_lowercase(lowered.as_str())
}

/// Whether an account whose role column reads `role_text` may use the
/// commands of role `wanted`: the text, lowercased, must name it.
pub fn role_permits(role_text: &str, wanted: Role) -> (b: bool)
    ensures
        b == (role_named(lowercase_of(role_text@)) == Some(wanted)),
{
    match parse_role(role_text) {
        Some(r) => r == wanted,
        None => false,
    }
}

/// The name a role is stored under (`"Admin"`, `"Customer"`,
/// `"Regulator"`).
pub fn role_text(r: Role) -> (s: String)
    ensures
        s@ == role_label(r),
{
    match r {
        Role::Admin => String::from_str("Admin"),
        Role::Customer => String::from_str("Customer"),
        Role::Regulator => String::from_str("Regulator"),
    }
}

/// The account for a new user, given the outcome of hashing its password:
/// no hash means the hashing failed, and an unknown role is refused.
pub fn account_from(username: &str, password_hash: Option<String>, role: &str) -> (r: Result<
    NewAccount,
    CreateUserError,
>)
    ensures
        match password_hash {
            None => r == Err::<NewAccount, CreateUserError>(CreateUserError::HashFailed),
            Some(h) => match role_named(lowercase_of(role@)) {
                None => r == Err::<NewAccount, CreateUserError>(CreateUserError::InvalidRole),
                Some(ro) => r matches Ok(a) && a.username@ == username@ && a.password_hash@
                    == h@ && a.role == ro,
            },
        },
{
    match password_hash {
        None => Err(CreateUserError::HashFailed),
        Some(h) => match parse_role(role) {
            None => Err(CreateUserError::InvalidRole),
            Some(ro) => Ok(NewAccount { username: username.to_string(), password_hash: h, role: ro }),
        },
    }
}

/// Prepares a new user: hashes the password, then reads the role.  The
/// stored hash verifies against the password.
pub fn create_user(username: &str, password: &str, role: &str) -> (r: Result<
    NewAccount,
    CreateUserError,
>)
    ensures
        match r {
            Ok(a) => {
                &&& a.username@ == username@
                &&& bcrypt_verifies(password@, a.password_hash@)
                &&& role_named(lowercase_of(role@)) == Some(a.role)
            },
            Err(CreateUserError::InvalidRole) => role_named(lowercase_of(role@)) is None,
            Err(CreateUserError::HashFailed) => true,
        },
{
    let h = bcrypt_hash(password);
    account_from(username, h, role)
}

/// The outcome of a password check: the account's id when its stored
/// hash matches the password, nothing otherwise (or without an account).
pub open spec fn authentication(account: Option<(i32, Seq<char>)>, password: Seq<char>) -> Option<
    i32,
> {
    match account {
        Some((id, h)) => if bcrypt_verifies(password, h) {
            Some(id)
        } else {
            None
        },
        None => None,
    }
}

/// The id of the account whose stored hash matches `password`, given the
/// account found for the user name (if any).
pub fn authenticated_id(account: Option<(i32, String)>, password: &str) -> (r: Option<i32>)
    ensures
        r == authentication(
            match account {
                Some((id, h)) => Some((id, h@)),
                None => None,
            },
            password@,
        ),
{
    match account {
        Some((id, h)) => {
            if bcrypt_verify(password, h.as_str()) {
                Some(id)
            } else {
                None
            }
        },
        None => None,
    }
}

/// A user created with a password is recognised by that password: the
/// hash that `create_user` stores (one that verifies against the password,
/// by its `ensures`) passes the password check under any account id.
pub proof fn law_created_user_authenticates(id: i32, password: Seq<char>, stored_hash: Seq<char>)
    requires
        bcrypt_verifies(password, stored_hash),
    ensures
        authentication(Some((id, stored_hash)), password) == Some(id),
{
}

} // verus!
