//! The identity store and its operations: registration under username
//! uniqueness, credential checking against a salted one-way hash, and the
//! session-to-user decision.
use vstd::prelude::*;

use crate::constants::{MAX_USERNAME_LENGTH, MIN_PASSWORD_LENGTH, MIN_USERNAME_LENGTH};
use crate::errors::{api_error, db_error, ApiError, ErrorKind};
use crate::models::{LoginPayload, PublicUser, RegisterPayload, User, UserView};
use crate::text::{str_eq, trim_spec, trim_str};
use crate::wrappers::fresh_uuid;

verus! {

/// Whether this password is the one a credential hash was derived from.
/// The hash string embeds the algorithm parameters and the salt, so this is
/// a function of the two strings alone.
pub uninterp spec fn password_matches(hash: Seq<char>, password: Seq<char>) -> bool;

/// Relies on argon2's `PasswordHasher::hash_password` with a fresh random
/// salt: the PHC string it returns verifies against exactly the password it
/// was derived from, since verification recomputes the hash from the
/// parameters and salt embedded in the string.
#[verifier::external_body]
fn hash_password(password: &str) -> (r: Option<String>)
    ensures
        r matches Some(h) ==> password_matches(h@, password@),
{
    let salt = argon2::password_hash::SaltString::generate(
        &mut argon2::password_hash::rand_core::OsRng,
    );
    match argon2::PasswordHasher::hash_password(
        &argon2::Argon2::default(),
        password.as_bytes(),
        &salt,
    ) {
        Ok(h) => Some(h.to_string()),
        Err(_) => None,
    }
}

/// Relies on argon2's `PasswordVerifier::verify_password`, a pure function
/// of the PHC hash string and the password; yields nothing exactly when the
/// hash string does not parse. Whether the string parses depends on the
/// string alone, so a hash that any password matches always gets an answer,
/// and a matching password always verifies.
#[verifier::external_body]
fn verify_password(password: &str, hash: &str) -> (r: Option<bool>)
    ensures
        r matches Some(b) ==> b == password_matches(hash@, password@),
        password_matches(hash@, password@) ==> r == Some(true),
        (exists|p: Seq<char>| password_matches(hash@, p)) ==> r is Some,
{
    match argon2::password_hash::PasswordHash::new(hash) {
        Ok(parsed) => Some(
            argon2::PasswordVerifier::verify_password(
                &argon2::Argon2::default(),
                password.as_bytes(),
                &parsed,
            ).is_ok(),
        ),
        Err(_) => None,
    }
}

/// The views of a sequence of stored users.
pub open spec fn users_view(v: Seq<User>) -> Seq<UserView> {
    v.map_values(|u: User| u@)
}

/// The shared identity store holding every user of the service.
pub struct IdentityStore {
    pub users: Vec<User>,
}

/// The view of the identity store.
pub struct IdentityStoreView {
    pub users: Seq<UserView>,
}

impl View for IdentityStore {
    type V = IdentityStoreView;

    open spec fn view(&self) -> IdentityStoreView {
        IdentityStoreView { users: users_view(self.users@) }
    }
}

/// No two users share a username (case-sensitively).
pub open spec fn usernames_unique(users: Seq<UserView>) -> bool {
    forall|i: int, j: int| 0 <= i < j < users.len() ==> users[i].username != users[j].username
}

/// Some user carries this username.
pub open spec fn username_taken(users: Seq<UserView>, name: Seq<char>) -> bool {
    exists|i: int| 0 <= i < users.len() && users[i].username == name
}

/// No two users share an id.
pub open spec fn user_ids_unique(users: Seq<UserView>) -> bool {
    forall|i: int, j: int| 0 <= i < j < users.len() ==> users[i].id != users[j].id
}

/// Some user carries this id.
pub open spec fn has_user_id(users: Seq<UserView>, id: Seq<char>) -> bool {
    exists|i: int| 0 <= i < users.len() && users[i].id == id
}

/// The identity store invariant: usernames unique case-sensitively, ids
/// unique.
pub open spec fn identity_wf(s: IdentityStoreView) -> bool {
    usernames_unique(s.users) && user_ids_unique(s.users)
}

impl IdentityStore {
    /// A freshly provisioned identity store: no users.
    pub fn new() -> (s: IdentityStore)
        ensures
            s@.users.len() == 0,
            identity_wf(s@),
    {
        IdentityStore { users: Vec::new() }
    }
}

/// A character a username may contain: ASCII letters, digits, underscore or
/// hyphen.
pub open spec fn is_username_char(c: char) -> bool {
    ||| (0x30 <= c as int && c as int <= 0x39)
    ||| (0x41 <= c as int && c as int <= 0x5A)
    ||| (0x61 <= c as int && c as int <= 0x7A)
    ||| c == '_'
    ||| c == '-'
}

/// Every character of the name is acceptable in a username.
pub open spec fn username_chars_ok(s: Seq<char>) -> bool {
    forall|i: int| 0 <= i < s.len() ==> is_username_char(s[i])
}

/// A registration's inputs are acceptable: non-blank username of 4 to 50
/// characters drawn from the username alphabet, password of at least 6
/// characters.
pub open spec fn valid_registration(username: Seq<char>, password: Seq<char>) -> bool {
    &&& trim_spec(username).len() > 0
    &&& MIN_USERNAME_LENGTH <= username.len()
    &&& username.len() <= MAX_USERNAME_LENGTH
    &&& password.len() >= MIN_PASSWORD_LENGTH
    &&& username_chars_ok(username)
}

/// Checks registration inputs, reporting the first rule broken: blank
/// username, username length, password length, then username alphabet.
pub fn validate_registration(username: &str, password: &str) -> (r: Result<(), ApiError>)
    ensures
        r is Ok <==> valid_registration(username@, password@),
        r matches Err(e) ==> e.kind == ErrorKind::BadInput,
        trim_spec(username@).len() == 0 ==> (r matches Err(e) && e.message@
            == "Username cannot be empty"@),
        trim_spec(username@).len() > 0 && (username@.len() < MIN_USERNAME_LENGTH || username@.len()
            > MAX_USERNAME_LENGTH) ==> (r matches Err(e) && e.message@
            == "Username must be between 4 and 50 characters"@),
        trim_spec(username@).len() > 0 && MIN_USERNAME_LENGTH <= username@.len() && username@.len()
            <= MAX_USERNAME_LENGTH && password@.len() < MIN_PASSWORD_LENGTH ==> (r matches Err(e)
            && e.message@ == "Password must be at least 6 characters long"@),
        trim_spec(username@).len() > 0 && MIN_USERNAME_LENGTH <= username@.len() && username@.len()
            <= MAX_USERNAME_LENGTH && password@.len() >= MIN_PASSWORD_LENGTH
            && !username_chars_ok(username@) ==> (r matches Err(e) && e.message@
            == "Username can only contain alphanumeric characters, underscores, and hyphens"@),
{
    let t = trim_str(username);
    if t.as_str().unicode_len() == 0 {
        return Err(api_error(ErrorKind::BadInput, "Username cannot be empty"));
    }
    let ulen = username.unicode_len();
    if ulen < MIN_USERNAME_LENGTH || ulen > MAX_USERNAME_LENGTH {
        return Err(api_error(ErrorKind::BadInput, "Username must be between 4 and 50 characters"));
    }
    if password.unicode_len() < MIN_PASSWORD_LENGTH {
        return Err(api_error(ErrorKind::BadInput, "Password must be at least 6 characters long"));
    }
    let mut i: usize = 0;
    while i < ulen
        invariant
            0 <= i <= ulen,
            ulen == username@.len(),
            trim_spec(username@).len() > 0,
            MIN_USERNAME_LENGTH <= username@.len() <= MAX_USERNAME_LENGTH,
            password@.len() >= MIN_PASSWORD_LENGTH,
            forall|k: int| 0 <= k < i ==> is_username_char(username@[k]),
        decreases ulen - i,
    {
        let c = username.get_char(i);
        let u = c as u32;
        let ok = (0x30 <= u && u <= 0x39) || (0x41 <= u && u <= 0x5A) || (0x61 <= u && u <= 0x7A)
            || u == 0x5F || u == 0x2D;
        if !ok {
            return Err(
                api_error(
                    ErrorKind::BadInput,
                    "Username can only contain alphanumeric characters, underscores, and hyphens",
                ),
            );
        }
        i = i + 1;
    }
    Ok(())
}

/// Finds the position of the user carrying a username.
pub fn find_user_index(users: &Vec<User>, username: &str) -> (r: Option<usize>)
    ensures
        match r {
            Some(i) => i < users@.len() && users_view(users@)[i as int].username == username@,
            None => !username_taken(users_view(users@), username@),
        },
{
    let mut i: usize = 0;
    while i < users.len()
        invariant
            0 <= i <= users@.len(),
            forall|k: int| 0 <= k < i ==> users_view(users@)[k].username != username@,
        decreases users@.len() - i,
    {
        if str_eq(users[i].username.as_str(), username) {
            return Some(i);
        }
        i = i + 1;
    }
    None
}

fn find_user_id_index(users: &Vec<User>, id: &str) -> (r: Option<usize>)
    ensures
        match r {
            Some(i) => i < users@.len() && users_view(users@)[i as int].id == id@,
            None => !has_user_id(users_view(users@), id@),
        },
{
    let mut i: usize = 0;
    while i < users.len()
        invariant
            0 <= i <= users@.len(),
            forall|k: int| 0 <= k < i ==> users_view(users@)[k].id != id@,
        decreases users@.len() - i,
    {
        if str_eq(users[i].id.as_str(), id) {
            return Some(i);
        }
        i = i + 1;
    }
    None
}

/// Registers a user under caller-supplied id and credential hash. The
/// inputs are validated, the username must be free (case-sensitively), the
/// id must not collide with a stored one (as the storage key would refuse),
/// and the user is stored as given.
pub fn register_user(
    ids: &mut IdentityStore,
    username: &str,
    password: &str,
    id: String,
    password_hash: String,
) -> (r: Result<PublicUser, ApiError>)
    requires
        identity_wf(old(ids)@),
    ensures
        identity_wf(final(ids)@),
        !valid_registration(username@, password@) ==> (r matches Err(e) && e.kind
            == ErrorKind::BadInput && final(ids)@ == old(ids)@),
        valid_registration(username@, password@) && username_taken(old(ids)@.users, username@)
            ==> (r matches Err(e) && e.kind == ErrorKind::Conflict && e.message@
            == "Username already exists"@ && final(ids)@ == old(ids)@),
        valid_registration(username@, password@) && !username_taken(old(ids)@.users, username@)
            && has_user_id(old(ids)@.users, id@) ==> (r matches Err(e) && e.kind
            == ErrorKind::Internal && e.message@ == "Database operation failed"@ && final(ids)@
            == old(ids)@),
        valid_registration(username@, password@) && !username_taken(old(ids)@.users, username@)
            && !has_user_id(old(ids)@.users, id@) ==> (r matches Ok(u) && u.id@ == id@
            && u.username@ == username@ && final(ids)@.users == old(ids)@.users.push(
            UserView { id: id@, username: username@, password_hash: password_hash@ },
        )),
{
    if let Err(e) = validate_registration(username, password) {
        return Err(e);
    }
    if let Some(_) = find_user_index(&ids.users, username) {
        return Err(api_error(ErrorKind::Conflict, "Username already exists"));
    }
    if let Some(_) = find_user_id_index(&ids.users, id.as_str()) {
        return Err(db_error());
    }
    let ghost old_users = users_view(ids.users@);
    let user = User { id, username: username.to_owned(), password_hash };
    let ghost uv = user@;
    let result = PublicUser { id: user.id.clone(), username: user.username.clone() };
    ids.users.push(user);
    proof {
        assert(users_view(ids.users@) =~= old_users.push(uv));
        let new_users = old_users.push(uv);
        assert forall|i: int, j: int| 0 <= i < j < new_users.len() implies new_users[i].username
            != new_users[j].username by {
            if j == new_users.len() - 1 {
                assert(new_users[i] == old_users[i]);
            }
        }
        assert forall|i: int, j: int| 0 <= i < j < new_users.len() implies new_users[i].id
            != new_users[j].id by {
            if j == new_users.len() - 1 {
                assert(new_users[i] == old_users[i]);
            }
        }
    }
    Ok(result)
}

/// Registers a user: validates, rejects a taken username with `Conflict`,
/// hashes the password with a fresh salt, assigns a fresh opaque id, and
/// stores the new identity.
pub fn register(ids: &mut IdentityStore, payload: &RegisterPayload) -> (r: Result<
    PublicUser,
    ApiError,
>)
    requires
        identity_wf(old(ids)@),
    ensures
        identity_wf(final(ids)@),
        !valid_registration(payload.username@, payload.password@) ==> (r matches Err(e) && e.kind
            == ErrorKind::BadInput && final(ids)@ == old(ids)@),
        valid_registration(payload.username@, payload.password@) && username_taken(
            old(ids)@.users,
            payload.username@,
        ) ==> (r matches Err(e) && e.kind == ErrorKind::Conflict && e.message@
            == "Username already exists"@ && final(ids)@ == old(ids)@),
        valid_registration(payload.username@, payload.password@) && !username_taken(
            old(ids)@.users,
            payload.username@,
        ) ==> ((r matches Ok(u) && u.username@ == payload.username@ && !has_user_id(
            old(ids)@.users,
            u.id@,
        ) && (exists|h: Seq<char>|
            password_matches(h, payload.password@) && final(ids)@.users == old(ids)@.users.push(
                UserView { id: u.id@, username: payload.username@, password_hash: h },
            ))) || (r matches Err(e) && e.kind == ErrorKind::Internal && final(ids)@ == old(
            ids,
        )@)),
{
    if let Err(e) = validate_registration(payload.username.as_str(), payload.password.as_str()) {
        return Err(e);
    }
    if let Some(_) = find_user_index(&ids.users, payload.username.as_str()) {
        return Err(api_error(ErrorKind::Conflict, "Username already exists"));
    }
    let hash = match hash_password(payload.password.as_str()) {
        Some(h) => h,
        None => {
            return Err(db_error());
        },
    };
    let ghost hv = hash@;
    let id = fresh_uuid();
    let r = register_user(ids, payload.username.as_str(), payload.password.as_str(), id, hash);
    proof {
        if r is Ok {
            assert(password_matches(hv, payload.password@));
        }
    }
    r
}

/// Checks credentials: blank inputs are rejected, an unknown username or a
/// wrong password answers `Unauthenticated` with no hint which of the two
/// it was, and a matching password is owed the public user back.
pub fn login(ids: &IdentityStore, payload: &LoginPayload) -> (r: Result<PublicUser, ApiError>)
    requires
        identity_wf(ids@),
    ensures
        trim_spec(payload.username@).len() == 0 ==> (r matches Err(e) && e.kind
            == ErrorKind::BadInput && e.message@ == "Username cannot be empty"@),
        trim_spec(payload.username@).len() > 0 && payload.password@.len() == 0 ==> (
        r matches Err(e) && e.kind == ErrorKind::BadInput && e.message@
            == "Password cannot be empty"@),
        trim_spec(payload.username@).len() > 0 && payload.password@.len() > 0 && !username_taken(
            ids@.users,
            payload.username@,
        ) ==> (r matches Err(e) && e.kind == ErrorKind::Unauthenticated && e.message@
            == "Invalid credentials"@),
        trim_spec(payload.username@).len() > 0 && payload.password@.len() > 0 ==> (forall|i: int|
            0 <= i < ids@.users.len() && (#[trigger] ids@.users[i]).username == payload.username@
                ==> {
                &&& (password_matches(ids@.users[i].password_hash, payload.password@) ==> (
                r matches Ok(u) && u.id@ == ids@.users[i].id && u.username@
                    == ids@.users[i].username))
                &&& (!password_matches(ids@.users[i].password_hash, payload.password@) && (
                exists|p: Seq<char>|
                    password_matches(ids@.users[i].password_hash, p)) ==> (r matches Err(e)
                    && e.kind == ErrorKind::Unauthenticated && e.message@
                    == "Invalid credentials"@))
                &&& (!password_matches(ids@.users[i].password_hash, payload.password@) ==> (
                r matches Err(e) && (e.kind == ErrorKind::Unauthenticated && e.message@
                    == "Invalid credentials"@ || e.kind == ErrorKind::Internal)))
            }),
{
    let t = trim_str(payload.username.as_str());
    if t.as_str().unicode_len() == 0 {
        return Err(api_error(ErrorKind::BadInput, "Username cannot be empty"));
    }
    if payload.password.as_str().unicode_len() == 0 {
        return Err(api_error(ErrorKind::BadInput, "Password cannot be empty"));
    }
    let idx = match find_user_index(&ids.users, payload.username.as_str()) {
        Some(i) => i,
        None => {
            return Err(api_error(ErrorKind::Unauthenticated, "Invalid credentials"));
        },
    };
    proof {
        assert forall|i: int|
            0 <= i < ids@.users.len() && (#[trigger] ids@.users[i]).username == payload.username@
                implies i == idx as int by {
            if i != idx as int {
                assert(ids@.users[i].username != ids@.users[idx as int].username);
            }
        }
    }
    let user = &ids.users[idx];
    match verify_password(payload.password.as_str(), user.password_hash.as_str()) {
        None => Err(db_error()),
        Some(false) => Err(api_error(ErrorKind::Unauthenticated, "Invalid credentials")),
        Some(true) => Ok(PublicUser { id: user.id.clone(), username: user.username.clone() }),
    }
}

/// Resolves the authenticated user from what the session carries: both the
/// id and the username must be present, else the caller is unauthenticated.
pub fn get_current_user(user_id: Option<String>, username: Option<String>) -> (r: Result<
    PublicUser,
    ApiError,
>)
    ensures
        user_id matches Some(i) ==> (username matches Some(n) ==> (r matches Ok(u) && u.id@ == i@
            && u.username@ == n@)),
        (user_id is None || username is None) ==> (r matches Err(e) && e.kind
            == ErrorKind::Unauthenticated && e.message@ == "Not logged in"@),
{
    match (user_id, username) {
        (Some(id), Some(name)) => Ok(PublicUser { id, username: name }),
        _ => Err(api_error(ErrorKind::Unauthenticated, "Not logged in")),
    }
}

} // verus!
