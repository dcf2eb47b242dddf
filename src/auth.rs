use vstd::prelude::*;
use vstd::string::StringSliceAdditionalSpecFns;
use crate::codec::{encode_sqids, decoded, id_numbers, sqid_of, ALPHABET, MIN_LENGTH, USER_FLAG};
use crate::password::{hash_password, is_phc_for, password_accepted, phc_prefix, verify_password, SALT_LENGTH};
use crate::session::{
    expiry_of, is_stale, issued, law_issue_sweeps_expired, lemma_skip_unfold, revoked,
    session_expiry, SessionStore, SessionToken, LONG_SESSION_SECONDS,
};
use crate::validate::{
    check_login, check_registration, is_hex_char, login_check, registration_check, UserError,
};

verus! {

/// Why a register, login or logout request failed.
#[derive(Debug, Clone, Copy, PartialEq, Eq, Structural)]
pub enum AuthError {
    /// The request is malformed, or the name is taken (answered with 400).
    Invalid(UserError),
    /// The password does not match (401).
    Unauthorized,
    /// No user has that name (404).
    NotFound,
    /// Hashing or encoding failed (500).
    Internal,
}

/// A registered user: id, name and password hash.
pub struct Credential {
    pub id: i64,
    pub name: String,
    pub password_hash: String,
}

/// What a successful login hands back: the user's opaque id, and the bearer
/// token with its expiry for the session cookie.
pub struct LoginGrant {
    pub id: String,
    pub token: String,
    pub expires_at: i64,
}

/// The accounts and their sessions.
pub struct AuthService {
    pub users: Vec<Credential>,
    pub sessions: SessionStore,
    pub next_user_id: i64,
}

/// The first user in `users` named `name`.
pub open spec fn lookup(users: Seq<Credential>, name: Seq<char>) -> Option<Credential>
    decreases users.len(),
{
    if users.len() == 0 {
        None
    } else if users[0].name@ == name {
        Some(users[0])
    } else {
        lookup(users.drop_first(), name)
    }
}

impl AuthService {
    /// A service with no users and no sessions.
    pub fn new() -> (r: AuthService)
        ensures
            r.users@.len() == 0,
            r.sessions.rows@.len() == 0,
            r.next_user_id == 1,
    {
        AuthService { users: Vec::new(), sessions: SessionStore::new(), next_user_id: 1 }
    }

    /// Index of the first user named `name`.
    pub fn find_user(&self, name: &str) -> (r: Option<usize>)
        ensures
            r is None <==> lookup(self.users@, name@) is None,
            r is Some ==> r->0 < self.users@.len() && lookup(self.users@, name@) == Some(
                self.users@[r->0 as int],
            ),
    {
        let target: String = name.to_owned();
        let mut i: usize = 0;
        assert(self.users@.skip(0) =~= self.users@);
        while i < self.users.len()
            invariant
                i <= self.users@.len(),
                target@ == name@,
                lookup(self.users@, name@) == lookup(self.users@.skip(i as int), name@),
            decreases self.users@.len() - i,
        {
            proof {
                lemma_skip_unfold(self.users@, i as int);
            }
            if self.users[i].name == target {
                return Some(i);
            }
            i = i + 1;
        }
        None
    }

    /// Registers `name` with the password digest `password`. The format is
    /// checked first, then that the name is free; the password is stored
    /// hashed. Returns the new user's id.
    pub fn register(&mut self, name: &str, password: &str) -> (r: Result<i64, AuthError>)
        requires
            old(self).next_user_id < i64::MAX,
        ensures
            registration_check(name.spec_bytes(), password@) is Err ==> r == Err::<
                i64,
                AuthError,
            >(AuthError::Invalid(registration_check(name.spec_bytes(), password@)->Err_0))
                && *final(self) == *old(self),
            registration_check(name.spec_bytes(), password@) is Ok && lookup(
                old(self).users@,
                name@,
            ) is Some ==> r == Err::<i64, AuthError>(AuthError::Invalid(UserError::NameExists))
                && *final(self) == *old(self),
            r is Err && r->Err_0 is Internal ==> *final(self) == *old(self),
            registration_check(name.spec_bytes(), password@) is Ok && lookup(
                old(self).users@,
                name@,
            ) is None ==> r is Ok || r == Err::<i64, AuthError>(AuthError::Internal),
            r is Ok ==> {
                &&& registration_check(name.spec_bytes(), password@) is Ok
                &&& lookup(old(self).users@, name@) is None
                &&& r->Ok_0 == old(self).next_user_id
                &&& final(self).next_user_id == old(self).next_user_id + 1
                &&& final(self).sessions == old(self).sessions
                &&& final(self).users@.len() == old(self).users@.len() + 1
                &&& final(self).users@.drop_last() == old(self).users@
                &&& final(self).users@.last().id == r->Ok_0
                &&& final(self).users@.last().name@ == name@
                &&& password_accepted(password@, final(self).users@.last().password_hash@)
                &&& final(self).users@.last().password_hash@ != password@
            },
    {
        match check_registration(name, password) {
            Err(e) => return Err(AuthError::Invalid(e)),
            Ok(()) => {},
        }
        if self.find_user(name).is_some() {
            return Err(AuthError::Invalid(UserError::NameExists));
        }
        let hash = match hash_password(password) {
            Ok(h) => h,
            Err(_) => return Err(AuthError::Internal),
        };
        proof {
            let salt = choose|salt: Seq<u8>|
                salt.len() == SALT_LENGTH && #[trigger] is_phc_for(hash@, password@, salt);
            assert(hash@[0] == hash@.take(phc_prefix().len() as int)[0]);
            assert(hash@[0] == '$');
            assert(is_hex_char(password@[0]));
        }
        let id = self.next_user_id;
        self.users.push(Credential { id, name: name.to_owned(), password_hash: hash });
        self.next_user_id = id + 1;
        proof {
            assert(self.users@.drop_last() =~= old(self).users@);
        }
        Ok(id)
    }

    /// Logs `name` in with `password` at time `now`, opening a session under
    /// the bearer `token`; the session lasts 30 days when `remember` is set,
    /// else 24 hours. Checks run in order: format, known name, password.
    pub fn login(
        &mut self,
        name: &str,
        password: &str,
        remember: bool,
        now: i64,
        token: String,
    ) -> (r: Result<LoginGrant, AuthError>)
        requires
            now <= i64::MAX - LONG_SESSION_SECONDS,
            old(self).sessions.next_id < u64::MAX,
        ensures
            login_check(name@, password@) is Err ==> r == Err::<LoginGrant, AuthError>(
                AuthError::Invalid(login_check(name@, password@)->Err_0),
            ) && *final(self) == *old(self),
            login_check(name@, password@) is Ok && lookup(old(self).users@, name@) is None ==> r
                == Err::<LoginGrant, AuthError>(AuthError::NotFound) && *final(self) == *old(self),
            login_check(name@, password@) is Ok && lookup(old(self).users@, name@) is Some
                && !password_accepted(password@, lookup(old(self).users@, name@)->0.password_hash@)
                ==> r == Err::<LoginGrant, AuthError>(AuthError::Unauthorized) && *final(self)
                == *old(self),
            r is Err && r->Err_0 is Internal ==> *final(self) == *old(self),
            login_check(name@, password@) is Ok && lookup(old(self).users@, name@) is Some
                && password_accepted(password@, lookup(old(self).users@, name@)->0.password_hash@)
                ==> r is Ok || r == Err::<LoginGrant, AuthError>(AuthError::Internal),
            login_check(name@, password@) is Ok && lookup(old(self).users@, name@) is Some
                && password_accepted(password@, lookup(old(self).users@, name@)->0.password_hash@)
                && lookup(old(self).users@, name@)->0.id >= 0 && sqid_of(
                ALPHABET@,
                MIN_LENGTH,
                id_numbers(USER_FLAG, lookup(old(self).users@, name@)->0.id),
            ) is Some ==> r is Ok,
            r is Ok ==> {
                let user = lookup(old(self).users@, name@)->0;
                let grant = r->Ok_0;
                &&& login_check(name@, password@) is Ok
                &&& lookup(old(self).users@, name@) is Some
                &&& password_accepted(password@, user.password_hash@)
                &&& grant.id@ == sqid_of(ALPHABET@, MIN_LENGTH, id_numbers(USER_FLAG, user.id))->0
                &&& decoded(USER_FLAG, grant.id@) == Some(user.id)
                &&& grant.token == token
                &&& grant.expires_at == expiry_of(now as int, remember)
                &&& final(self).users == old(self).users
                &&& final(self).next_user_id == old(self).next_user_id
                &&& final(self).sessions.next_id == old(self).sessions.next_id + 1
                &&& final(self).sessions.rows@ == issued(
                    old(self).sessions.rows@,
                    user.id,
                    token,
                    old(self).sessions.next_id,
                    grant.expires_at,
                    now,
                )
            },
    {
        match check_login(name, password) {
            Err(e) => return Err(AuthError::Invalid(e)),
            Ok(()) => {},
        }
        let k = match self.find_user(name) {
            Some(k) => k,
            None => return Err(AuthError::NotFound),
        };
        if !verify_password(password, self.users[k].password_hash.as_str()) {
            return Err(AuthError::Unauthorized);
        }
        let user_id = self.users[k].id;
        let id = match encode_sqids(USER_FLAG, user_id) {
            Ok(s) => s,
            Err(_) => return Err(AuthError::Internal),
        };
        let expires_at = session_expiry(now, remember);
        let cookie_token = token.clone();
        self.sessions.issue(user_id, token, expires_at, now);
        Ok(LoginGrant { id, token: cookie_token, expires_at })
    }

    /// Ends the session with the bearer `token`; an unknown token changes
    /// nothing.
    pub fn logout(&mut self, token: &str)
        ensures
            final(self).users == old(self).users,
            final(self).next_user_id == old(self).next_user_id,
            final(self).sessions.next_id == old(self).sessions.next_id,
            final(self).sessions.rows@ == revoked(old(self).sessions.rows@, token@),
    {
        self.sessions.revoke(token);
    }
}

/// The session table that a successful login at `now` leaves (as `login`
/// states it) holds no token of the user that expired before `now`, and ends
/// with the new token, which expires 24 hours on, or 30 days on with
/// `remember`.
pub proof fn law_login_session(
    rows: Seq<SessionToken>,
    user: i64,
    token: String,
    id: u64,
    now: i64,
    remember: bool,
)
    requires
        now <= i64::MAX - LONG_SESSION_SECONDS,
    ensures
        ({
            let after = issued(rows, user, token, id, expiry_of(now as int, remember) as i64, now);
            &&& after.last().token == token
            &&& after.last().expires_at == expiry_of(now as int, remember)
            &&& forall|j: int| 0 <= j < after.len() ==> !is_stale(#[trigger] after[j], user, now)
        }),
{
    let exp = expiry_of(now as int, remember) as i64;
    law_issue_sweeps_expired(rows, user, token, id, exp, now);
}

} // verus!
