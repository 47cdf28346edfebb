use vstd::prelude::*;
use crate::error::RepositoryError;
use crate::ids::UserId;

verus! {

/// A stored session: its token, its owner and when it expires (seconds
/// since the Unix epoch).
#[derive(Clone, Debug)]
pub struct SessionRecord {
    pub token: String,
    pub owner: UserId,
    pub expires_at: i64,
}

/// Session records kept in memory.
///
/// Its view maps each token to its owner and its expiry time.
pub struct MemorySessions {
    records: Vec<SessionRecord>,
    model: Ghost<Map<Seq<char>, (UserId, i64)>>,
}

impl View for MemorySessions {
    type V = Map<Seq<char>, (UserId, i64)>;

    closed spec fn view(&self) -> Self::V {
        self.model@
    }
}

/// Whether `token` names a session that has not expired at `now`.
pub open spec fn live_session(sessions: Map<Seq<char>, (UserId, i64)>, token: Seq<char>, now: i64) -> bool {
    sessions.contains_key(token) && now < sessions[token].1
}

/// The sessions left after removing those that expired before `now`.
pub open spec fn unexpired(sessions: Map<Seq<char>, (UserId, i64)>, now: i64) -> Map<Seq<char>, (UserId, i64)> {
    sessions.restrict(sessions.dom().filter(|t: Seq<char>| sessions[t].1 >= now))
}

impl MemorySessions {
    pub closed spec fn wf(&self) -> bool {
        &&& forall|i: int, j: int|
            0 <= i < j < self.records@.len() ==> self.records@[i].token@ != self.records@[j].token@
        &&& forall|i: int|
            0 <= i < self.records@.len() ==> {
                let r = #[trigger] self.records@[i];
                &&& self.model@.contains_key(r.token@)
                &&& self.model@[r.token@] == (r.owner, r.expires_at)
            }
        &&& forall|t: Seq<char>|
            self.model@.contains_key(t) ==> exists|i: int|
                0 <= i < self.records@.len() && self.records@[i].token@ == t
        &&& self.model@.dom().finite()
        &&& self.model@.len() == self.records@.len()
    }

    /// The stored sessions are finitely many.
    pub proof fn lemma_finite(&self)
        requires
            self.wf(),
        ensures
            self@.dom().finite(),
    {
    }

    pub fn new() -> (r: Self)
        ensures
            r.wf(),
            r@ == Map::<Seq<char>, (UserId, i64)>::empty(),
    {
        MemorySessions { records: Vec::new(), model: Ghost(Map::empty()) }
    }

    fn position(&self, token: &String) -> (r: Option<usize>)
        requires
            self.wf(),
        ensures
            match r {
                Some(i) => i < self.records@.len() && self.records@[i as int].token@ == token@
                    && self@.contains_key(token@),
                None => !self@.contains_key(token@),
            },
    {
        let mut i: usize = 0;
        while i < self.records.len()
            invariant
                self.wf(),
                i <= self.records@.len(),
                forall|j: int| 0 <= j < i ==> self.records@[j].token@ != token@,
            decreases self.records@.len() - i,
        {
            if self.records[i].token == *token {
                return Some(i);
            }
            i += 1;
        }
        proof {
            if self.model@.contains_key(token@) {
                let k = choose|k: int| 0 <= k < self.records@.len() && self.records@[k].token@ == token@;
                assert(self.records@[k].token@ != token@);
            }
        }
        None
    }

    /// Stores a session; a token already stored is a conflict.
    pub fn insert(&mut self, token: String, owner: UserId, expires_at: i64) -> (r: Result<(), RepositoryError>)
        requires
            old(self).wf(),
        ensures
            final(self).wf(),
            r is Ok <==> !old(self)@.contains_key(token@),
            r is Ok ==> final(self)@ == old(self)@.insert(token@, (owner, expires_at)),
            r is Err ==> r->Err_0 is Conflict && final(self)@ == old(self)@,
    {
        if self.position(&token).is_some() {
            return Err(RepositoryError::Conflict);
        }
        let ghost old_records = self.records@;
        let ghost t = token@;
        self.records.push(SessionRecord { token, owner, expires_at });
        self.model = Ghost(self.model@.insert(t, (owner, expires_at)));
        proof {
            assert forall|s: Seq<char>| self.model@.contains_key(s) implies exists|i: int|
                0 <= i < self.records@.len() && self.records@[i].token@ == s by {
                if s == t {
                    assert(self.records@[old_records.len() as int].token@ == s);
                } else {
                    let i = choose|i: int| 0 <= i < old_records.len() && old_records[i].token@ == s;
                    assert(self.records@[i].token@ == s);
                }
            }
        }
        Ok(())
    }

    /// The owner of a live session; a missing or expired one is not found.
    pub fn find_by_token(&self, token: &String, now: i64) -> (r: Result<UserId, RepositoryError>)
        requires
            self.wf(),
        ensures
            r is Ok <==> live_session(self@, token@, now),
            r is Ok ==> r->Ok_0 == self@[token@].0,
            r is Err ==> r->Err_0 is NotFound,
    {
        match self.position(token) {
            Some(i) => {
                if now < self.records[i].expires_at {
                    Ok(self.records[i].owner)
                } else {
                    Err(RepositoryError::NotFound)
                }
            },
            None => Err(RepositoryError::NotFound),
        }
    }

    /// Removes a session; removing a missing one does nothing.
    pub fn delete_by_token(&mut self, token: &String)
        requires
            old(self).wf(),
        ensures
            final(self).wf(),
            final(self)@ == old(self)@.remove(token@),
    {
        match self.position(token) {
            Some(i) => {
                let ghost old_records = self.records@;
                self.records.remove(i);
                self.model = Ghost(self.model@.remove(token@));
                proof {
                    assert forall|s: Seq<char>| self.model@.contains_key(s) implies exists|k: int|
                        0 <= k < self.records@.len() && self.records@[k].token@ == s by {
                        let k = choose|k: int| 0 <= k < old_records.len() && old_records[k].token@ == s;
                        if k < i {
                            assert(self.records@[k].token@ == s);
                        } else {
                            assert(k != i);
                            assert(self.records@[k - 1].token@ == s);
                        }
                    }
                }
            },
            None => {
                assert(self.model@ =~= old(self)@.remove(token@));
            },
        }
    }

    /// Removes every session that expired before `now`; returns how many.
    pub fn delete_expired(&mut self, now: i64) -> (r: usize)
        requires
            old(self).wf(),
        ensures
            final(self).wf(),
            final(self)@ == unexpired(old(self)@, now),
            r == old(self)@.len() - final(self)@.len(),
    {
        let ghost old_model = self.model@;
        let ghost old_records = self.records@;
        let mut kept: Vec<SessionRecord> = Vec::new();
        let ghost mut kept_model: Map<Seq<char>, (UserId, i64)> = Map::empty();
        let mut removed: usize = 0;
        let mut i: usize = 0;
        while i < self.records.len()
            invariant
                self.wf(),
                self.records@ == old_records,
                self.model@ == old_model,
                i <= self.records@.len(),
                forall|a: int, b: int| 0 <= a < b < kept@.len() ==> kept@[a].token@ != kept@[b].token@,
                forall|a: int| 0 <= a < kept@.len() ==> {
                    let r = #[trigger] kept@[a];
                    &&& kept_model.contains_key(r.token@)
                    &&& kept_model[r.token@] == (r.owner, r.expires_at)
                },
                forall|t: Seq<char>| kept_model.contains_key(t) ==> exists|a: int|
                    0 <= a < kept@.len() && kept@[a].token@ == t,
                forall|t: Seq<char>| kept_model.contains_key(t) <==> (exists|j: int| 0 <= j < i
                    && old_records[j].token@ == t && old_records[j].expires_at >= now),
                forall|t: Seq<char>| kept_model.contains_key(t) ==> kept_model[t] == old_model[t],
                kept_model.dom().finite(),
                kept_model.len() == kept@.len(),
                removed + kept@.len() == i,
            decreases self.records@.len() - i,
        {
            let rec = &self.records[i];
            if rec.expires_at >= now {
                proof {
                    if kept_model.contains_key(rec.token@) {
                        let j = choose|j: int| 0 <= j < i && old_records[j].token@ == rec.token@
                            && old_records[j].expires_at >= now;
                        assert(old_records[j].token@ != old_records[i as int].token@);
                    }
                    assert(self.records@[i as int] == *rec);
                }
                let ghost old_kept = kept@;
                let ghost old_km = kept_model;
                kept.push(SessionRecord { token: rec.token.clone(), owner: rec.owner, expires_at: rec.expires_at });
                proof {
                    kept_model = kept_model.insert(rec.token@, (rec.owner, rec.expires_at));
                    assert forall|t: Seq<char>| kept_model.contains_key(t) implies exists|a: int|
                        0 <= a < kept@.len() && kept@[a].token@ == t by {
                        if t == rec.token@ {
                            assert(kept@[old_kept.len() as int].token@ == t);
                        } else {
                            let a = choose|a: int| 0 <= a < old_kept.len() && old_kept[a].token@ == t;
                            assert(kept@[a].token@ == t);
                        }
                    }
                    assert forall|t: Seq<char>| kept_model.contains_key(t) <==> (exists|j: int| 0 <= j < i + 1
                        && old_records[j].token@ == t && old_records[j].expires_at >= now) by {
                        if t == rec.token@ {
                            assert(old_records[i as int].token@ == t);
                        } else if exists|j: int| 0 <= j < i + 1 && old_records[j].token@ == t
                            && old_records[j].expires_at >= now {
                            let j = choose|j: int| 0 <= j < i + 1 && old_records[j].token@ == t
                                && old_records[j].expires_at >= now;
                            assert(j < i);
                        }
                    }
                }
            } else {
                proof {
                    assert forall|t: Seq<char>| kept_model.contains_key(t) <==> (exists|j: int| 0 <= j < i + 1
                        && old_records[j].token@ == t && old_records[j].expires_at >= now) by {
                        if exists|j: int| 0 <= j < i + 1 && old_records[j].token@ == t
                            && old_records[j].expires_at >= now {
                            let j = choose|j: int| 0 <= j < i + 1 && old_records[j].token@ == t
                                && old_records[j].expires_at >= now;
                            assert(j < i);
                        }
                    }
                }
                removed = removed + 1;
            }
            i += 1;
        }
        proof {
            assert forall|t: Seq<char>| #[trigger] kept_model.contains_key(t) <==> unexpired(old_model, now).contains_key(t) by {
                if old_model.contains_key(t) && old_model[t].1 >= now {
                    let k = choose|k: int| 0 <= k < old_records.len() && old_records[k].token@ == t;
                    assert(old_records[k].expires_at >= now);
                }
                if kept_model.contains_key(t) {
                    let j = choose|j: int| 0 <= j < i && old_records[j].token@ == t
                        && old_records[j].expires_at >= now;
                    assert(old_model[old_records[j].token@].1 == old_records[j].expires_at);
                }
            }
            assert(kept_model =~= unexpired(old_model, now));
        }
        let ghost kept_v = kept@;
        self.records = kept;
        self.model = Ghost(kept_model);
        proof {
            assert forall|t: Seq<char>| self.model@.contains_key(t) implies exists|i: int|
                0 <= i < self.records@.len() && self.records@[i].token@ == t by {
                let a = choose|a: int| 0 <= a < kept_v.len() && kept_v[a].token@ == t;
                assert(self.records@[a].token@ == t);
            }
        }
        removed
    }
}

} // verus!
