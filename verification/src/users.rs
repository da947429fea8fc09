//! The user store: sign-up with unique usernames, lookup, and credential
//! checks.
//!
//! A user's identity is immutable once created. The credential is an opaque
//! hash handed in by the caller (hashing itself is the caller's concern);
//! the store only ever compares it for equality.

use vstd::prelude::*;
use vstd::string::*;

use crate::errors::{ApiError, AuthError, ValidationError};
use crate::validate::{valid_username, validate_username};

verus! {

/// Whether two strings hold the same characters, decided character by
/// character.
#[verifier::loop_isolation(false)]
pub fn str_eq(a: &str, b: &str) -> (r: bool)
    ensures
        r == (a@ == b@),
{
    let na = a.unicode_len();
    let nb = b.unicode_len();
    if na != nb {
        return false;
    }
    let mut i: usize = 0;
    while i < na
        invariant
            0 <= i <= na,
            na == a@.len(),
            na == b@.len(),
            forall|k: int| 0 <= k < i ==> a@[k] == b@[k],
        decreases na - i,
    {
        if a.get_char(i) != b.get_char(i) {
            return false;
        }
        i = i + 1;
    }
    proof {
        assert(a@ =~= b@);
    }
    true
}

/// An account. The password field holds an opaque credential hash, never a
/// plain password.
#[derive(Debug)]
pub struct User {
    /// Unique identifier, starting at 1, in sign-up order.
    pub id: u64,
    /// Unique, non-empty username.
    pub username: String,
    /// Opaque credential hash.
    pub password_hash: String,
}

/// The mathematical image of a [`User`].
pub struct SpecUser {
    /// Unique identifier.
    pub id: u64,
    /// The username as scalar values.
    pub username: Seq<char>,
    /// The credential hash as scalar values.
    pub password_hash: Seq<char>,
}

impl View for User {
    type V = SpecUser;

    open spec fn view(&self) -> SpecUser {
        SpecUser { id: self.id, username: self.username@, password_hash: self.password_hash@ }
    }
}

/// The image of a sequence of users.
pub open spec fn users_view(users: Seq<User>) -> Seq<SpecUser> {
    users.map_values(|u: User| u@)
}

/// Whether some user in `users` bears the username `name`.
pub open spec fn seq_has_username(users: Seq<User>, name: Seq<char>) -> bool {
    exists|i: int| 0 <= i < users.len() && (#[trigger] users[i])@.username == name
}

/// The user store.
#[derive(Debug)]
pub struct UserStore {
    /// All users, in sign-up order; the user with identifier `n` sits at
    /// index `n - 1`.
    pub users: Vec<User>,
}

impl UserStore {
    /// Well-formedness: identifiers equal position plus one, usernames are
    /// pairwise distinct and non-empty.
    pub open spec fn wf(self) -> bool {
        &&& forall|i: int| 0 <= i < self.users@.len() ==> (#[trigger] self.users@[i])@.id == i + 1
        &&& forall|i: int, j: int|
            0 <= i < j < self.users@.len() ==> (#[trigger] self.users@[i])@.username != (
            #[trigger] self.users@[j])@.username
        &&& forall|i: int|
            0 <= i < self.users@.len() ==> valid_username((#[trigger] self.users@[i])@.username)
    }

    /// Whether some user bears the username `name`.
    pub open spec fn spec_has_username(self, name: Seq<char>) -> bool {
        seq_has_username(self.users@, name)
    }

    /// Whether `id` names an existing user.
    pub open spec fn spec_valid_id(self, id: u64) -> bool {
        1 <= id <= self.users@.len()
    }

    /// The identifier of the user bearing `name`. Well-formedness makes the
    /// choice unique.
    pub open spec fn spec_id_of(self, name: Seq<char>) -> u64
        recommends
            self.spec_has_username(name),
    {
        (self.users@[choose|i: int|
            0 <= i < self.users@.len() && (#[trigger] self.users@[i])@.username == name])@.id
    }

    /// An empty store.
    pub fn new() -> (s: UserStore)
        ensures
            s.wf(),
            s.users@ =~= Seq::<User>::empty(),
    {
        UserStore { users: Vec::new() }
    }

    /// The identifier of the user bearing `name`, if any.
    #[verifier::loop_isolation(false)]
    pub fn find_by_username(&self, name: &str) -> (r: Option<u64>)
        requires
            self.wf(),
        ensures
            r is Some <==> self.spec_has_username(name@),
            r matches Some(id) ==> self.spec_valid_id(id) && self.users@[id - 1]@.username
                == name@ && id == self.spec_id_of(name@),
    {
        let n = self.users.len();
        let mut i: usize = 0;
        while i < n
            invariant
                0 <= i <= n,
                forall|k: int| 0 <= k < i ==> (#[trigger] self.users@[k])@.username != name@,
            decreases n - i,
        {
            if str_eq(self.users[i].username.as_str(), name) {
                let id = self.users[i].id;
                proof {
                    assert(self.users@[i as int]@.id == i + 1);
                    let j = choose|j: int|
                        0 <= j < self.users@.len() && (#[trigger] self.users@[j])@.username
                            == name@;
                    if j < (i as int) {
                        assert(self.users@[j]@.username != name@);
                    }
                    if (i as int) < j {
                        assert(self.users@[i as int]@.username != self.users@[j]@.username);
                    }
                    assert(j == i as int);
                }
                return Some(id);
            }
            i = i + 1;
        }
        None
    }

    /// A borrow of the user `id` names, if any.
    pub fn get_user(&self, id: u64) -> (r: Option<&User>)
        requires
            self.wf(),
        ensures
            r is Some <==> self.spec_valid_id(id),
            r matches Some(u) ==> u@ == self.users@[id - 1]@,
    {
        if id >= 1 && id <= self.users.len() as u64 {
            Some(&self.users[(id - 1) as usize])
        } else {
            None
        }
    }

    /// Signs a user up. An empty username is rejected as a validation error,
    /// a taken one as a conflict, both leaving the store unchanged; otherwise
    /// the user is appended and gets the next identifier.
    #[verifier::loop_isolation(false)]
    pub fn create_user(&mut self, username: String, password_hash: String) -> (r: Result<
        u64,
        ApiError,
    >)
        requires
            old(self).wf(),
            old(self).users@.len() < u64::MAX,
        ensures
            final(self).wf(),
            !valid_username(username@) ==> r == Err::<u64, ApiError>(
                ApiError::Validation(ValidationError::Empty),
            ),
            valid_username(username@) && old(self).spec_has_username(username@) ==> r == Err::<
                u64,
                ApiError,
            >(ApiError::Conflict),
            valid_username(username@) && !old(self).spec_has_username(username@) ==> r == Ok::<
                u64,
                ApiError,
            >((old(self).users@.len() + 1) as u64),
            r is Err ==> final(self).users@ =~= old(self).users@,
            r matches Ok(id) ==> users_view(final(self).users@) =~= users_view(
                old(self).users@,
            ).push(
                SpecUser { id: id, username: username@, password_hash: password_hash@ },
            ),
            forall|name: Seq<char>|
                #[trigger] final(self).spec_has_username(name) <==> old(self).spec_has_username(
                    name,
                ) || (r is Ok && name == username@),
    {
        broadcast use Seq::lemma_push_map_commute;

        if let Err(_) = validate_username(username.as_str()) {
            return Err(ApiError::Validation(ValidationError::Empty));
        }
        if let Some(_) = self.find_by_username(username.as_str()) {
            return Err(ApiError::Conflict);
        }
        let id = (self.users.len() as u64) + 1;
        let ghost orig = self.users@;
        self.users.push(User { id, username, password_hash });
        proof {
            let all = self.users@;
            assert(all.drop_last() =~= orig);
            assert forall|i: int, j: int| 0 <= i < j < all.len() implies (
            #[trigger] all[i])@.username != (#[trigger] all[j])@.username by {
                if j == all.len() - 1 {
                    if all[i]@.username == all[j]@.username {
                        assert(seq_has_username(orig, all[j]@.username));
                    }
                }
            }
            assert forall|name: Seq<char>| #[trigger]
                seq_has_username(all, name) <==> seq_has_username(orig, name) || name == all[all.len()
                - 1]@.username by {
                if seq_has_username(all, name) {
                    let i = choose|i: int|
                        0 <= i < all.len() && (#[trigger] all[i])@.username == name;
                    if i < all.len() - 1 {
                        assert(orig[i]@.username == name);
                    }
                }
                if seq_has_username(orig, name) {
                    let i = choose|i: int|
                        0 <= i < orig.len() && (#[trigger] orig[i])@.username == name;
                    assert(all[i]@.username == name);
                }
            }
        }
        Ok(id)
    }

    /// Checks a login: the username must name a user (else not found) and the
    /// supplied credential hash must equal the stored one (else bad
    /// credentials); then the user's identifier comes back.
    pub fn check_credentials(&self, username: &str, password_hash: &str) -> (r: Result<
        u64,
        ApiError,
    >)
        requires
            self.wf(),
        ensures
            !self.spec_has_username(username@) ==> r == Err::<u64, ApiError>(ApiError::NotFound),
            r matches Ok(id) ==> self.spec_valid_id(id) && self.users@[id - 1]@.username
                == username@ && self.users@[id - 1]@.password_hash == password_hash@,
            self.spec_has_username(username@) && r is Err ==> r == Err::<u64, ApiError>(
                ApiError::Auth(AuthError::BadCredentials),
            ),
            r is Ok <==> exists|i: int|
                0 <= i < self.users@.len() && (#[trigger] self.users@[i])@.username == username@
                    && self.users@[i]@.password_hash == password_hash@,
    {
        match self.find_by_username(username) {
            None => {
                proof {
                    if exists|i: int|
                        0 <= i < self.users@.len() && (#[trigger] self.users@[i])@.username
                            == username@ && self.users@[i]@.password_hash == password_hash@ {
                        let i = choose|i: int|
                            0 <= i < self.users@.len() && (#[trigger] self.users@[i])@.username
                                == username@ && self.users@[i]@.password_hash == password_hash@;
                        assert(seq_has_username(self.users@, username@));
                    }
                }
                Err(ApiError::NotFound)
            },
            Some(id) => {
                let n = self.users.len();
                let idx = (id - 1) as usize;
                proof {
                    assert(id - 1 < n);
                    assert(idx as int == id - 1);
                }
                if str_eq(self.users[idx].password_hash.as_str(), password_hash) {
                    proof {
                        assert(self.users@[id - 1]@.username == username@);
                        assert(self.users@[id - 1]@.password_hash == password_hash@);
                    }
                    Ok(id)
                } else {
                    proof {
                        if exists|i: int|
                            0 <= i < self.users@.len() && (#[trigger] self.users@[i])@.username
                                == username@ && self.users@[i]@.password_hash == password_hash@ {
                            let i = choose|i: int|
                                0 <= i < self.users@.len() && (
                                #[trigger] self.users@[i])@.username == username@
                                    && self.users@[i]@.password_hash == password_hash@;
                            assert(i == id - 1);
                        }
                    }
                    Err(ApiError::Auth(AuthError::BadCredentials))
                }
            },
        }
    }
}

} // verus!
