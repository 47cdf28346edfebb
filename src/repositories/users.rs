use vstd::prelude::*;
use vstd::string::StringExecFns;
use crate::error::RepositoryError;
use crate::ids::UserId;
use crate::models::users::{PasswordHash, User};

verus! {

/// A stored account: id, password hash, salt and creation time.
#[derive(Clone, Debug)]
pub struct UserRecord {
    pub id: UserId,
    pub username: String,
    pub password: String,
    pub salt: String,
    pub created_at: i64,
}

/// What is stored of an account, keyed by its username.
pub struct AccountView {
    pub id: UserId,
    pub hash: Seq<char>,
    pub salt: Seq<char>,
    pub created_at: i64,
}

impl UserRecord {
    pub open spec fn account(&self) -> AccountView {
        AccountView { id: self.id, hash: self.password@, salt: self.salt@, created_at: self.created_at }
    }
}

/// Accounts kept in memory.
///
/// Its view maps each username to its account; usernames and ids are unique.
pub struct MemoryUsers {
    records: Vec<UserRecord>,
    next_id: i32,
    model: Ghost<Map<Seq<char>, AccountView>>,
}

impl View for MemoryUsers {
    type V = Map<Seq<char>, AccountView>;

    closed spec fn view(&self) -> Self::V {
        self.model@
    }
}

/// Whether some account in `users` has id `id`.
pub open spec fn has_id(users: Map<Seq<char>, AccountView>, id: UserId) -> bool {
    exists|n: Seq<char>| users.contains_key(n) && users[n].id == id
}

impl MemoryUsers {
    pub closed spec fn wf(&self) -> bool {
        &&& 1 <= self.next_id
        &&& forall|i: int, j: int|
            0 <= i < j < self.records@.len() ==> self.records@[i].username@ != self.records@[j].username@
        &&& forall|i: int, j: int|
            0 <= i < j < self.records@.len() ==> self.records@[i].id != self.records@[j].id
        &&& forall|i: int|
            0 <= i < self.records@.len() ==> {
                let r = #[trigger] self.records@[i];
                &&& self.model@.contains_key(r.username@)
                &&& self.model@[r.username@] == r.account()
                &&& r.id.0 < self.next_id
            }
        &&& forall|n: Seq<char>|
            self.model@.contains_key(n) ==> exists|i: int|
                0 <= i < self.records@.len() && self.records@[i].username@ == n
    }

    /// Whether another account id can still be handed out.
    pub closed spec fn has_room(&self) -> bool {
        self.next_id < i32::MAX
    }

    /// Ids are unique among accounts.
    pub proof fn lemma_ids_unique(&self, a: Seq<char>, b: Seq<char>)
        requires
            self.wf(),
            self@.contains_key(a),
            self@.contains_key(b),
            self@[a].id == self@[b].id,
        ensures
            a == b,
    {
        let i = choose|i: int| 0 <= i < self.records@.len() && self.records@[i].username@ == a;
        let j = choose|j: int| 0 <= j < self.records@.len() && self.records@[j].username@ == b;
        assert(self.records@[i].id == self.records@[j].id);
        if i < j {
            assert(self.records@[i].id != self.records@[j].id);
        } else if j < i {
            assert(self.records@[j].id != self.records@[i].id);
        }
    }

    pub fn new() -> (r: Self)
        ensures
            r.wf(),
            r@ == Map::<Seq<char>, AccountView>::empty(),
            r.has_room(),
    {
        MemoryUsers { records: Vec::new(), next_id: 1, model: Ghost(Map::empty()) }
    }

    fn position(&self, username: &str) -> (r: Option<usize>)
        requires
            self.wf(),
        ensures
            match r {
                Some(i) => i < self.records@.len() && self.records@[i as int].username@ == username@
                    && self@.contains_key(username@),
                None => !self@.contains_key(username@),
            },
    {
        let name = String::from_str(username);
        let mut i: usize = 0;
        while i < self.records.len()
            invariant
                self.wf(),
                name@ == username@,
                i <= self.records@.len(),
                forall|j: int| 0 <= j < i ==> self.records@[j].username@ != username@,
            decreases self.records@.len() - i,
        {
            if self.records[i].username == name {
                return Some(i);
            }
            i += 1;
        }
        proof {
            if self.model@.contains_key(username@) {
                let k = choose|k: int| 0 <= k < self.records@.len() && self.records@[k].username@ == username@;
                assert(self.records@[k].username@ != username@);
            }
        }
        None
    }

    fn user_at(&self, i: usize) -> (r: User)
        requires
            i < self.records@.len(),
        ensures
            r.id == self.records@[i as int].id,
            r.username@ == self.records@[i as int].username@,
            r.password@ == self.records@[i as int].password@,
            r.created_at == self.records@[i as int].created_at,
    {
        let rec = &self.records[i];
        User { id: rec.id, username: rec.username.clone(), password: rec.password.clone(), created_at: rec.created_at }
    }

    /// Stores an account; a username already stored is a conflict.
    pub fn create_user(&mut self, username: &str, password: PasswordHash, now: i64) -> (r: Result<UserId, RepositoryError>)
        requires
            old(self).wf(),
        ensures
            final(self).wf(),
            old(self)@.contains_key(username@) ==> r is Err && r->Err_0 is Conflict,
            !old(self)@.contains_key(username@) ==> (r is Ok <==> old(self).has_room()),
            r is Ok ==> {
                &&& !has_id(old(self)@, r->Ok_0)
                &&& final(self)@ == old(self)@.insert(username@, AccountView {
                    id: r->Ok_0,
                    hash: password.0@,
                    salt: password.1@,
                    created_at: now,
                })
            },
            r is Err ==> final(self)@ == old(self)@,
            r is Err && !(r->Err_0 is Conflict) ==> r->Err_0 is Unknown,
    {
        if self.position(username).is_some() {
            return Err(RepositoryError::Conflict);
        }
        if self.next_id == i32::MAX {
            return Err(RepositoryError::Unknown(String::from_str("user ids exhausted")));
        }
        let id = UserId::new(self.next_id);
        proof {
            if has_id(self.model@, id) {
                let n = choose|n: Seq<char>| self.model@.contains_key(n) && self.model@[n].id == id;
                let k = choose|k: int| 0 <= k < self.records@.len() && self.records@[k].username@ == n;
                assert(self.records@[k].id.0 < self.next_id);
            }
        }
        let rec = UserRecord {
            id,
            username: String::from_str(username),
            password: password.0,
            salt: password.1,
            created_at: now,
        };
        let ghost old_records = self.records@;
        let ghost acc = rec.account();
        assert(forall|k: int| 0 <= k < old_records.len() ==> old_records[k].id.0 < self.next_id);
        self.records.push(rec);
        self.model = Ghost(self.model@.insert(username@, acc));
        self.next_id = self.next_id + 1;
        proof {
            assert forall|n: Seq<char>| self.model@.contains_key(n) implies exists|i: int|
                0 <= i < self.records@.len() && self.records@[i].username@ == n by {
                if n == username@ {
                    assert(self.records@[old_records.len() as int].username@ == n);
                } else {
                    let i = choose|i: int| 0 <= i < old_records.len() && old_records[i].username@ == n;
                    assert(self.records@[i].username@ == n);
                }
            }
        }
        Ok(id)
    }

    /// The salt stored with `username`.
    pub fn get_user_salt(&self, username: &str) -> (r: Result<String, RepositoryError>)
        requires
            self.wf(),
        ensures
            r is Ok <==> self@.contains_key(username@),
            r is Ok ==> r->Ok_0@ == self@[username@].salt,
            r is Err ==> r->Err_0 is NotFound,
    {
        match self.position(username) {
            Some(i) => Ok(self.records[i].salt.clone()),
            None => Err(RepositoryError::NotFound),
        }
    }

    /// The account of `username` whose stored hash is `password`.
    pub fn get_user(&self, username: &str, password: &PasswordHash) -> (r: Result<User, RepositoryError>)
        requires
            self.wf(),
        ensures
            r is Ok <==> self@.contains_key(username@) && self@[username@].hash == password.0@,
            r is Ok ==> r->Ok_0.id == self@[username@].id && r->Ok_0.username@ == username@,
            r is Err ==> r->Err_0 is NotFound,
    {
        match self.position(username) {
            Some(i) => {
                if self.records[i].password == password.0 {
                    Ok(self.user_at(i))
                } else {
                    Err(RepositoryError::NotFound)
                }
            },
            None => Err(RepositoryError::NotFound),
        }
    }

    /// The account with id `id`.
    pub fn get_user_by_id(&self, id: UserId) -> (r: Result<User, RepositoryError>)
        requires
            self.wf(),
        ensures
            r is Ok <==> has_id(self@, id),
            r is Ok ==> r->Ok_0.id == id && self@.contains_key(r->Ok_0.username@)
                && self@[r->Ok_0.username@].id == id,
            r is Err ==> r->Err_0 is NotFound,
    {
        let mut i: usize = 0;
        while i < self.records.len()
            invariant
                self.wf(),
                i <= self.records@.len(),
                forall|j: int| 0 <= j < i ==> self.records@[j].id != id,
            decreases self.records@.len() - i,
        {
            if self.records[i].id == id {
                return Ok(self.user_at(i));
            }
            i += 1;
        }
        proof {
            if has_id(self.model@, id) {
                let n = choose|n: Seq<char>| self.model@.contains_key(n) && self.model@[n].id == id;
                let k = choose|k: int| 0 <= k < self.records@.len() && self.records@[k].username@ == n;
                assert(self.records@[k].id != id);
            }
        }
        Err(RepositoryError::NotFound)
    }
}

} // verus!
