//! Users: registration payloads, stored user rows and the profiles read back.

use vstd::prelude::*;
use crate::credentials::{
    bcrypt_verify_of, check_email, check_password, email_is_valid, hash_password, random_salt,
};
use crate::store::{Store, StoreError, email_taken, name_taken, user_exists};

verus! {

/// Sex as recorded in a user's profile.
#[derive(PartialEq, Eq, Structural, Clone, Copy, Debug)]
pub enum Sex {
    Female,
    Male,
    Other,
}

/// A postal address: street, house number and city.
#[derive(Debug)]
pub struct Address {
    pub street: String,
    pub number: String,
    pub city: String,
}

/// An address as read back from the store.
pub type AddressOwned = Address;

impl Address {
    pub fn clone_record(&self) -> (r: Self)
        ensures
            r == *self,
    {
        Address { street: self.street.clone(), number: self.number.clone(), city: self.city.clone() }
    }
}

/// Credentials given at login (and, nested, at registration).
#[derive(Debug)]
pub struct UserLogin {
    pub email: String,
    pub password: String,
}

/// A registration payload.
#[derive(Debug)]
pub struct UserRegister {
    pub login: UserLogin,
    pub username: String,
    pub name: String,
    pub surname: String,
    pub sex: Sex,
    pub address: Address,
    pub reputation: i32,
}

/// The extended profile stored beside each user row.
#[derive(Debug)]
pub struct Profile {
    pub name: String,
    pub surname: String,
    pub sex: Sex,
    pub address: Address,
    pub reputation: i32,
}

/// A stored user: the account row and its profile, kept together so that
/// neither exists without the other.
#[derive(Debug)]
pub struct UserRecord {
    pub id: u32,
    pub email: String,
    pub username: String,
    /// bcrypt hash of the password, salt included.
    pub password: String,
    pub profile: Profile,
}

/// What anybody may see of a user.
#[derive(Debug)]
pub struct UserPublicInfo {
    pub username: String,
    pub name: String,
    pub surname: String,
    pub sex: Sex,
    pub reputation: i32,
}

/// What a user sees of their own account.
#[derive(Debug)]
pub struct UserPrivateInfo {
    pub username: String,
    pub name: String,
    pub surname: String,
    pub email: String,
    pub sex: Sex,
    pub address: AddressOwned,
    pub reputation: i32,
}

/// The stored record that a registration produces under `id`, up to the password hash.
pub open spec fn record_of_registration(rec: UserRecord, reg: UserRegister, id: u32) -> bool {
    &&& rec.id == id
    &&& rec.email@ == reg.login.email@
    &&& rec.username@ == reg.username@
    &&& rec.profile.name@ == reg.name@
    &&& rec.profile.surname@ == reg.surname@
    &&& rec.profile.sex == reg.sex
    &&& rec.profile.address == reg.address
    &&& rec.profile.reputation == reg.reputation
}

/// The public view of a stored user.
pub open spec fn public_info_of(rec: UserRecord, info: UserPublicInfo) -> bool {
    &&& info.username@ == rec.username@
    &&& info.name@ == rec.profile.name@
    &&& info.surname@ == rec.profile.surname@
    &&& info.sex == rec.profile.sex
    &&& info.reputation == rec.profile.reputation
}

/// The private view of a stored user.
pub open spec fn private_info_of(rec: UserRecord, info: UserPrivateInfo) -> bool {
    &&& info.username@ == rec.username@
    &&& info.name@ == rec.profile.name@
    &&& info.surname@ == rec.profile.surname@
    &&& info.email@ == rec.email@
    &&& info.sex == rec.profile.sex
    &&& info.address == rec.profile.address
    &&& info.reputation == rec.profile.reputation
}

/// What logging in with `email` and `password` gives against `users`: no user
/// with that email is `(false, 0)`; otherwise bcrypt's answer for the stored
/// hash, with the user's id, or an internal error for a malformed hash.
pub open spec fn login_outcome(users: Seq<UserRecord>, email: Seq<char>, password: Seq<char>) -> Result<(bool, u32), StoreError> {
    if email_taken(users, email) {
        let i = choose|i: int| 0 <= i < users.len() && #[trigger] users[i].email@ == email;
        match bcrypt_verify_of(password, users[i].password@) {
            Some(b) => Ok((b, users[i].id)),
            None => Err(StoreError::Internal),
        }
    } else {
        Ok((false, 0))
    }
}

fn email_field() -> (r: Vec<String>)
    ensures
        r@.len() == 1,
        r@[0]@ == seq!['e', 'm', 'a', 'i', 'l'],
{
    let name = "email";
    proof {
        reveal_strlit("email");
    }
    let mut v: Vec<String> = Vec::new();
    v.push(name.to_owned());
    v
}

impl UserLogin {
    /// Checks the email syntax; on failure, the names of the failing fields.
    pub fn validate(&self) -> (r: Result<(), Vec<String>>)
        ensures
            r is Ok <==> email_is_valid(self.email@),
            r matches Err(v) ==> v@.len() == 1 && v@[0]@ == seq!['e', 'm', 'a', 'i', 'l'],
    {
        if check_email(self.email.as_str()) {
            Ok(())
        } else {
            Err(email_field())
        }
    }

    /// Looks the user up by email and checks the password against the stored
    /// hash. An unknown email is `(false, 0)`, not an error.
    pub fn login(&self, db: &Store) -> (r: Result<(bool, u32), StoreError>)
        requires
            db.wf(),
        ensures
            r == login_outcome(db.users@, self.email@, self.password@),
    {
        let mut i: usize = 0;
        while i < db.users.len()
            invariant
                db.wf(),
                i <= db.users@.len(),
                forall|k: int| 0 <= k < i ==> #[trigger] db.users@[k].email@ != self.email@,
            decreases db.users@.len() - i,
        {
            if db.users[i].email == self.email {
                let u = &db.users[i];
                proof {
                    assert(email_taken(db.users@, self.email@));
                    let j = choose|j: int| 0 <= j < db.users@.len() && #[trigger] db.users@[j].email@ == self.email@;
                    if j != i {
                        assert(db.users@[j].id != db.users@[i as int].id);
                        assert(db.users@[j].email@ != db.users@[i as int].email@);
                    }
                }
                return match check_password(self.password.as_str(), u.password.as_str()) {
                    Some(b) => Ok((b, u.id)),
                    None => Err(StoreError::Internal),
                };
            }
            i += 1;
        }
        Ok((false, 0))
    }
}

impl UserRegister {
    /// Checks the registration; a failure in the nested credentials or address
    /// is listed under the nested field's own name.
    pub fn validate(&self) -> (r: Result<(), Vec<String>>)
        ensures
            r is Ok <==> email_is_valid(self.login.email@),
            r matches Err(v) ==> v@.len() == 1 && v@[0]@ == seq!['e', 'm', 'a', 'i', 'l'],
    {
        self.login.validate()
    }

    /// Hashes the password with a fresh random salt and stores the user and
    /// profile together; `Ok(true)` once both are in.
    pub fn add_to_db(&self, db: &mut Store) -> (r: Result<bool, StoreError>)
        requires
            old(db).wf(),
        ensures
            final(db).wf(),
            final(db).markers@ == old(db).markers@,
            registration_outcome(*old(db), *self, *final(db), r),
    {
        let salt = random_salt();
        let hash = hash_password(self.login.password.as_str(), salt);
        match db.insert_user(self, hash) {
            Ok(_) => Ok(true),
            Err(e) => Err(e),
        }
    }
}

/// What registering `reg` does to `before`, giving `after` and `r`: a taken
/// email, then a taken display name, then running out of identifiers fail and
/// change nothing; otherwise one user is appended under the next identifier,
/// with a password hash that bcrypt accepts for the registered password.
pub open spec fn registration_outcome(
    before: Store,
    reg: UserRegister,
    after: Store,
    r: Result<bool, StoreError>,
) -> bool {
    if email_taken(before.users@, reg.login.email@) {
        r == Err::<bool, StoreError>(StoreError::EmailTaken) && after == before
    } else if name_taken(before.users@, reg.username@) {
        r == Err::<bool, StoreError>(StoreError::NameTaken) && after == before
    } else if before.next_user_id == u32::MAX {
        r == Err::<bool, StoreError>(StoreError::Internal) && after == before
    } else {
        &&& r == Ok::<bool, StoreError>(true)
        &&& after.users@.len() == before.users@.len() + 1
        &&& after.users@.drop_last() == before.users@
        &&& record_of_registration(after.users@.last(), reg, before.next_user_id)
        &&& bcrypt_verify_of(reg.login.password@, after.users@.last().password@) == Some(true)
    }
}

impl Store {
    /// Stores the user of `reg` with `password_hash`; the new identifier on success.
    pub fn insert_user(&mut self, reg: &UserRegister, password_hash: String) -> (r: Result<u32, StoreError>)
        requires
            old(self).wf(),
        ensures
            final(self).wf(),
            final(self).markers@ == old(self).markers@,
            email_taken(old(self).users@, reg.login.email@) ==> r == Err::<u32, StoreError>(StoreError::EmailTaken),
            !email_taken(old(self).users@, reg.login.email@) && name_taken(old(self).users@, reg.username@)
                ==> r == Err::<u32, StoreError>(StoreError::NameTaken),
            !email_taken(old(self).users@, reg.login.email@) && !name_taken(old(self).users@, reg.username@)
                && old(self).next_user_id == u32::MAX ==> r == Err::<u32, StoreError>(StoreError::Internal),
            r is Err ==> *final(self) == *old(self),
            r matches Ok(id) ==> {
                &&& id == old(self).next_user_id
                &&& final(self).users@.len() == old(self).users@.len() + 1
                &&& final(self).users@.drop_last() == old(self).users@
                &&& record_of_registration(final(self).users@.last(), *reg, id)
                &&& final(self).users@.last().password == password_hash
            },
            r is Ok <==> !email_taken(old(self).users@, reg.login.email@) && !name_taken(old(self).users@, reg.username@)
                && old(self).next_user_id < u32::MAX,
    {
        let mut i: usize = 0;
        while i < self.users.len()
            invariant
                *self == *old(self),
                self.wf(),
                i <= self.users@.len(),
                forall|k: int| 0 <= k < i ==> #[trigger] self.users@[k].email@ != reg.login.email@,
            decreases self.users@.len() - i,
        {
            if self.users[i].email == reg.login.email {
                assert(email_taken(self.users@, reg.login.email@));
                return Err(StoreError::EmailTaken);
            }
            i += 1;
        }
        let mut i: usize = 0;
        while i < self.users.len()
            invariant
                *self == *old(self),
                self.wf(),
                !email_taken(self.users@, reg.login.email@),
                i <= self.users@.len(),
                forall|k: int| 0 <= k < i ==> #[trigger] self.users@[k].username@ != reg.username@,
            decreases self.users@.len() - i,
        {
            if self.users[i].username == reg.username {
                assert(name_taken(self.users@, reg.username@));
                return Err(StoreError::NameTaken);
            }
            i += 1;
        }
        if self.next_user_id == u32::MAX {
            return Err(StoreError::Internal);
        }
        let id = self.next_user_id;
        let rec = UserRecord {
            id,
            email: reg.login.email.clone(),
            username: reg.username.clone(),
            password: password_hash,
            profile: Profile {
                name: reg.name.clone(),
                surname: reg.surname.clone(),
                sex: reg.sex,
                address: reg.address.clone_record(),
                reputation: reg.reputation,
            },
        };
        let ghost before = self.users@;
        self.users.push(rec);
        self.next_user_id = id + 1;
        proof {
            assert(self.users@.drop_last() =~= before);
            assert forall|a: int, b: int|
                0 <= a < self.users@.len() && 0 <= b < self.users@.len() && a != b implies {
                    &&& #[trigger] self.users@[a].id != #[trigger] self.users@[b].id
                    &&& self.users@[a].email@ != self.users@[b].email@
                    &&& self.users@[a].username@ != self.users@[b].username@
                } by {
                if a < before.len() && b < before.len() {
                    assert(self.users@[a] == before[a]);
                    assert(self.users@[b] == before[b]);
                }
            }
        }
        Ok(id)
    }
}

impl UserPublicInfo {
    /// The public profile of user `id`; `NotFound` when there is none.
    pub fn from_id(db: &Store, id: u32) -> (r: Result<UserPublicInfo, StoreError>)
        ensures
            r is Ok <==> user_exists(db.users@, id),
            r is Err ==> r == Err::<UserPublicInfo, StoreError>(StoreError::NotFound),
            r matches Ok(info) ==> exists|i: int|
                0 <= i < db.users@.len() && #[trigger] db.users@[i].id == id && public_info_of(db.users@[i], info),
    {
        let mut i: usize = 0;
        while i < db.users.len()
            invariant
                i <= db.users@.len(),
                forall|k: int| 0 <= k < i ==> #[trigger] db.users@[k].id != id,
            decreases db.users@.len() - i,
        {
            let u = &db.users[i];
            if u.id == id {
                let info = UserPublicInfo {
                    username: u.username.clone(),
                    name: u.profile.name.clone(),
                    surname: u.profile.surname.clone(),
                    sex: u.profile.sex,
                    reputation: u.profile.reputation,
                };
                assert(public_info_of(db.users@[i as int], info));
                return Ok(info);
            }
            i += 1;
        }
        Err(StoreError::NotFound)
    }
}

impl UserPrivateInfo {
    /// The full profile of user `id`, email and address included; `NotFound`
    /// when there is none. Callers pass their own authenticated id.
    pub fn from_id(db: &Store, id: u32) -> (r: Result<UserPrivateInfo, StoreError>)
        ensures
            r is Ok <==> user_exists(db.users@, id),
            r is Err ==> r == Err::<UserPrivateInfo, StoreError>(StoreError::NotFound),
            r matches Ok(info) ==> exists|i: int|
                0 <= i < db.users@.len() && #[trigger] db.users@[i].id == id && private_info_of(db.users@[i], info),
    {
        let mut i: usize = 0;
        while i < db.users.len()
            invariant
                i <= db.users@.len(),
                forall|k: int| 0 <= k < i ==> #[trigger] db.users@[k].id != id,
            decreases db.users@.len() - i,
        {
            let u = &db.users[i];
            if u.id == id {
                let info = UserPrivateInfo {
                    username: u.username.clone(),
                    name: u.profile.name.clone(),
                    surname: u.profile.surname.clone(),
                    email: u.email.clone(),
                    sex: u.profile.sex,
                    address: u.profile.address.clone_record(),
                    reputation: u.profile.reputation,
                };
                assert(private_info_of(db.users@[i as int], info));
                return Ok(info);
            }
            i += 1;
        }
        Err(StoreError::NotFound)
    }
}

/// A successful registration leaves exactly one new user, under the next
/// identifier, whose account row and profile both hold what was registered.
pub proof fn lemma_registration_stores_profile(before: Store, reg: UserRegister, after: Store)
    requires
        registration_outcome(before, reg, after, Ok(true)),
    ensures
        user_exists(after.users@, before.next_user_id),
        after.users@.len() == before.users@.len() + 1,
        exists|i: int|
            0 <= i < after.users@.len() && record_of_registration(
                #[trigger] after.users@[i],
                reg,
                before.next_user_id,
            ),
{
    let i = after.users@.len() - 1;
    assert(after.users@[i].id == before.next_user_id);
    assert(record_of_registration(after.users@[i], reg, before.next_user_id));
}

/// After a successful registration, registering again with the same email
/// fails as "email taken", and with a new email but the same display name as
/// "name taken" when the new email is free; either way nothing changes.
pub proof fn lemma_second_registration_conflicts(
    before: Store,
    first: UserRegister,
    after: Store,
    second: UserRegister,
    last: Store,
    r: Result<bool, StoreError>,
)
    requires
        registration_outcome(before, first, after, Ok(true)),
        registration_outcome(after, second, last, r),
        second.login.email@ == first.login.email@ || second.username@ == first.username@,
    ensures
        second.login.email@ == first.login.email@ ==> r == Err::<bool, StoreError>(StoreError::EmailTaken),
        second.login.email@ != first.login.email@ && !email_taken(after.users@, second.login.email@)
            ==> r == Err::<bool, StoreError>(StoreError::NameTaken),
        second.login.email@ == first.login.email@ || !email_taken(after.users@, second.login.email@)
            ==> last == after,
{
    let i = after.users@.len() - 1;
    if second.login.email@ == first.login.email@ {
        assert(after.users@[i].email@ == second.login.email@);
    } else {
        assert(after.users@[i].username@ == second.username@);
    }
}

/// Logging in with the email and password just registered succeeds, with
/// the new user's identifier.
pub proof fn lemma_login_after_registration(before: Store, reg: UserRegister, after: Store)
    requires
        after.wf(),
        registration_outcome(before, reg, after, Ok(true)),
    ensures
        login_outcome(after.users@, reg.login.email@, reg.login.password@) == Ok::<
            (bool, u32),
            StoreError,
        >((true, before.next_user_id)),
{
    let n = after.users@.len() - 1;
    assert(after.users@[n].email@ == reg.login.email@);
    assert(email_taken(after.users@, reg.login.email@));
    let j = choose|j: int|
        0 <= j < after.users@.len() && #[trigger] after.users@[j].email@ == reg.login.email@;
    if j != n {
        assert(after.users@[j].id != after.users@[n].id);
    }
}

/// An email that no user has gets `(false, 0)`, whatever the password.
pub proof fn lemma_login_unknown_email(users: Seq<UserRecord>, email: Seq<char>, password: Seq<char>)
    requires
        !email_taken(users, email),
    ensures
        login_outcome(users, email, password) == Ok::<(bool, u32), StoreError>((false, 0)),
{
}

} // verus!
