use vstd::prelude::*;
use vstd::string::StringExecFns;
use crate::error::RepositoryError;
use crate::ids::{ChatId, UserId};
use crate::models::chats::{Chat, ChatTitle};

verus! {

/// Whether `ids` holds `id`.
pub fn contains_id(ids: &[UserId], id: UserId) -> (r: bool)
    ensures
        r == ids@.contains(id),
{
    let mut i: usize = 0;
    while i < ids.len()
        invariant
            i <= ids@.len(),
            forall|j: int| 0 <= j < i ==> ids@[j] != id,
        decreases ids@.len() - i,
    {
        if ids[i] == id {
            return true;
        }
        i += 1;
    }
    false
}

/// The ids of `ids`, each once, in order of first appearance.
pub fn unique_ids(ids: &[UserId]) -> (r: Vec<UserId>)
    ensures
        r@.no_duplicates(),
        forall|u: UserId| r@.contains(u) <==> ids@.contains(u),
{
    let mut r: Vec<UserId> = Vec::new();
    let mut i: usize = 0;
    while i < ids.len()
        invariant
            i <= ids@.len(),
            r@.no_duplicates(),
            forall|u: UserId| r@.contains(u) <==> ids@.subrange(0, i as int).contains(u),
        decreases ids@.len() - i,
    {
        let u = ids[i];
        let ghost old_r = r@;
        let ghost pre = ids@.subrange(0, i as int);
        if !contains_id(r.as_slice(), u) {
            r.push(u);
        }
        proof {
            let post = ids@.subrange(0, i + 1);
            assert(post =~= pre.push(u));
            assert(r@.contains(u)) by {
                if r@ != old_r {
                    assert(r@[r@.len() - 1] == u);
                }
            }
            assert forall|v: UserId| r@.contains(v) <==> post.contains(v) by {
                if post.contains(v) && v != u {
                    let k = choose|k: int| 0 <= k < post.len() && post[k] == v;
                    assert(pre[k] == v);
                    assert(pre.contains(v));
                    assert(old_r.contains(v));
                    let m = choose|m: int| 0 <= m < old_r.len() && old_r[m] == v;
                    assert(r@[m] == v);
                }
                if r@.contains(v) && v != u {
                    let m = choose|m: int| 0 <= m < r@.len() && r@[m] == v;
                    assert(m < old_r.len());
                    assert(old_r[m] == v);
                    assert(old_r.contains(v));
                    assert(pre.contains(v));
                    let k = choose|k: int| 0 <= k < pre.len() && pre[k] == v;
                    assert(post[k] == v);
                }
                if v == u {
                    assert(post[i as int] == u);
                }
            }
        }
        i += 1;
    }
    assert(ids@.subrange(0, ids@.len() as int) =~= ids@);
    r
}

/// A stored chat.
#[derive(Clone, Debug)]
pub struct ChatRecord {
    pub id: ChatId,
    pub title: String,
    pub members: Vec<UserId>,
}

/// The chat-membership relation kept in memory.
///
/// Its view maps each chat to its title and its members, each member once.
pub struct MemoryChats {
    records: Vec<ChatRecord>,
    next_id: i32,
    model: Ghost<Map<ChatId, (Seq<char>, Seq<UserId>)>>,
}

impl View for MemoryChats {
    type V = Map<ChatId, (Seq<char>, Seq<UserId>)>;

    closed spec fn view(&self) -> Self::V {
        self.model@
    }
}

/// Whether `u` is a member of chat `c` in `chats`.
pub open spec fn member_of(chats: Map<ChatId, (Seq<char>, Seq<UserId>)>, u: UserId, c: ChatId) -> bool {
    chats.contains_key(c) && chats[c].1.contains(u)
}

/// `after` is `before` with the new chat `c`, titled `title`, whose
/// members are exactly the ids in `users`.
pub open spec fn chat_created(
    before: Map<ChatId, (Seq<char>, Seq<UserId>)>,
    after: Map<ChatId, (Seq<char>, Seq<UserId>)>,
    c: ChatId,
    title: Seq<char>,
    users: Seq<UserId>,
) -> bool {
    &&& !before.contains_key(c)
    &&& after.dom() == before.dom().insert(c)
    &&& forall|d: ChatId| d != c && before.contains_key(d) ==> after[d] == before[d]
    &&& after[c].0 == title
    &&& forall|u: UserId| after[c].1.contains(u) <==> users.contains(u)
}

/// Membership follows creation and removal: in a newly created chat a user
/// is a member exactly when its id was among those the chat was created
/// with; other chats keep their members; once the chat is removed nobody is
/// a member of it.
pub proof fn membership_follows_create_and_remove(
    before: Map<ChatId, (Seq<char>, Seq<UserId>)>,
    after: Map<ChatId, (Seq<char>, Seq<UserId>)>,
    c: ChatId,
    title: Seq<char>,
    users: Seq<UserId>,
    u: UserId,
)
    requires
        chat_created(before, after, c, title, users),
    ensures
        member_of(after, u, c) == users.contains(u),
        forall|d: ChatId| d != c ==> member_of(after, u, d) == member_of(before, u, d),
        !member_of(after.remove(c), u, c),
{
    assert forall|d: ChatId| d != c implies member_of(after, u, d) == member_of(before, u, d) by {
        assert(after.contains_key(d) == before.contains_key(d)) by {
            assert(after.dom().contains(d) == before.dom().insert(c).contains(d));
        }
    }
}

impl MemoryChats {
    pub closed spec fn wf(&self) -> bool {
        &&& 1 <= self.next_id
        &&& forall|i: int, j: int|
            0 <= i < j < self.records@.len() ==> self.records@[i].id != self.records@[j].id
        &&& forall|i: int|
            0 <= i < self.records@.len() ==> {
                let r = #[trigger] self.records@[i];
                &&& self.model@.contains_key(r.id)
                &&& self.model@[r.id] == (r.title@, r.members@)
                &&& r.id.0 < self.next_id
            }
        &&& forall|c: ChatId|
            self.model@.contains_key(c) ==> exists|i: int|
                0 <= i < self.records@.len() && self.records@[i].id == c
        &&& forall|c: ChatId| self.model@.contains_key(c) ==> self.model@[c].1.no_duplicates()
    }

    /// Whether another chat id can still be handed out.
    pub closed spec fn has_room(&self) -> bool {
        self.next_id < i32::MAX
    }

    pub fn new() -> (r: Self)
        ensures
            r.wf(),
            r@ == Map::<ChatId, (Seq<char>, Seq<UserId>)>::empty(),
            r.has_room(),
    {
        MemoryChats { records: Vec::new(), next_id: 1, model: Ghost(Map::empty()) }
    }

    /// Stores a new chat whose members are `users`.
    pub fn create_chat(&mut self, title: &ChatTitle, users: &[UserId]) -> (r: Result<ChatId, RepositoryError>)
        requires
            old(self).wf(),
        ensures
            final(self).wf(),
            r is Ok <==> old(self).has_room(),
            match r {
                Ok(c) => chat_created(old(self)@, final(self)@, c, title.0@, users@),
                Err(e) => final(self)@ == old(self)@ && e is Unknown,
            },
    {
        if self.next_id == i32::MAX {
            return Err(RepositoryError::Unknown(String::from_str("chat ids exhausted")));
        }
        let id = ChatId::new(self.next_id);
        proof {
            if self.model@.contains_key(id) {
                let i = choose|i: int| 0 <= i < self.records@.len() && self.records@[i].id == id;
                assert(self.records@[i].id.0 < self.next_id);
            }
        }
        let members = unique_ids(users);
        let rec = ChatRecord { id, title: title.0.clone(), members };
        let ghost old_records = self.records@;
        self.records.push(rec);
        self.model = Ghost(self.model@.insert(id, (rec.title@, rec.members@)));
        self.next_id = self.next_id + 1;
        proof {
            assert forall|c: ChatId| self.model@.contains_key(c) implies exists|i: int|
                0 <= i < self.records@.len() && self.records@[i].id == c by {
                if c == id {
                    assert(self.records@[old_records.len() as int].id == c);
                } else {
                    let i = choose|i: int| 0 <= i < old_records.len() && old_records[i].id == c;
                    assert(self.records@[i].id == c);
                }
            }
            assert(self.model@.dom() =~= old(self)@.dom().insert(id));
        }
        Ok(id)
    }

    /// Deletes a chat and its memberships; deleting a missing chat does nothing.
    pub fn remove_chat(&mut self, chat_id: ChatId)
        requires
            old(self).wf(),
        ensures
            final(self).wf(),
            final(self)@ == old(self)@.remove(chat_id),
            final(self).has_room() == old(self).has_room(),
    {
        let mut i: usize = 0;
        while i < self.records.len()
            invariant
                self.wf(),
                self@ == old(self)@,
                self.next_id == old(self).next_id,
                i <= self.records@.len(),
                forall|j: int| 0 <= j < i ==> self.records@[j].id != chat_id,
            decreases self.records@.len() - i,
        {
            if self.records[i].id == chat_id {
                let ghost old_records = self.records@;
                self.records.remove(i);
                self.model = Ghost(self.model@.remove(chat_id));
                proof {
                    assert forall|c: ChatId| self.model@.contains_key(c) implies exists|k: int|
                        0 <= k < self.records@.len() && self.records@[k].id == c by {
                        let k = choose|k: int| 0 <= k < old_records.len() && old_records[k].id == c;
                        if k < i {
                            assert(self.records@[k].id == c);
                        } else {
                            assert(k != i);
                            assert(self.records@[k - 1].id == c);
                        }
                    }
                }
                return;
            }
            i += 1;
        }
        proof {
            if self.model@.contains_key(chat_id) {
                let k = choose|k: int| 0 <= k < self.records@.len() && self.records@[k].id == chat_id;
                assert(self.records@[k].id != chat_id);
            }
            assert(self.model@ =~= old(self)@.remove(chat_id));
        }
    }

    fn find(&self, chat_id: ChatId) -> (r: Option<usize>)
        requires
            self.wf(),
        ensures
            match r {
                Some(i) => i < self.records@.len() && self.records@[i as int].id == chat_id
                    && self@.contains_key(chat_id),
                None => !self@.contains_key(chat_id),
            },
    {
        let mut i: usize = 0;
        while i < self.records.len()
            invariant
                self.wf(),
                i <= self.records@.len(),
                forall|j: int| 0 <= j < i ==> self.records@[j].id != chat_id,
            decreases self.records@.len() - i,
        {
            if self.records[i].id == chat_id {
                return Some(i);
            }
            i += 1;
        }
        proof {
            if self.model@.contains_key(chat_id) {
                let k = choose|k: int| 0 <= k < self.records@.len() && self.records@[k].id == chat_id;
                assert(self.records@[k].id != chat_id);
            }
        }
        None
    }

    /// Whether `user_id` is a member of `chat_id`; false for a missing chat.
    pub fn is_member(&self, user_id: UserId, chat_id: ChatId) -> (r: bool)
        requires
            self.wf(),
        ensures
            r == member_of(self@, user_id, chat_id),
    {
        match self.find(chat_id) {
            Some(i) => contains_id(self.records[i].members.as_slice(), user_id),
            None => false,
        }
    }

    /// The members of `chat_id`, each once; none for a missing chat.
    pub fn get_chat_members(&self, chat_id: ChatId) -> (r: Vec<UserId>)
        requires
            self.wf(),
        ensures
            self@.contains_key(chat_id) ==> r@ == self@[chat_id].1,
            !self@.contains_key(chat_id) ==> r@.len() == 0,
            r@.no_duplicates(),
    {
        match self.find(chat_id) {
            Some(i) => self.records[i].members.clone(),
            None => Vec::new(),
        }
    }

    /// The chats that `user_id` is a member of, each once.
    pub fn get_user_chats_ids(&self, user_id: UserId) -> (r: Vec<ChatId>)
        requires
            self.wf(),
        ensures
            r@.no_duplicates(),
            forall|c: ChatId| r@.contains(c) <==> member_of(self@, user_id, c),
    {
        let mut r: Vec<ChatId> = Vec::new();
        let mut i: usize = 0;
        while i < self.records.len()
            invariant
                self.wf(),
                i <= self.records@.len(),
                r@.no_duplicates(),
                forall|c: ChatId| r@.contains(c) <==> exists|j: int| 0 <= j < i
                    && self.records@[j].id == c && self.records@[j].members@.contains(user_id),
            decreases self.records@.len() - i,
        {
            let rec = &self.records[i];
            let ghost old_r = r@;
            if contains_id(rec.members.as_slice(), user_id) {
                proof {
                    if r@.contains(rec.id) {
                        let j = choose|j: int| 0 <= j < i && self.records@[j].id == rec.id
                            && self.records@[j].members@.contains(user_id);
                        assert(self.records@[j].id != self.records@[i as int].id);
                    }
                }
                r.push(rec.id);
            }
            proof {
                assert forall|c: ChatId| r@.contains(c) <==> exists|j: int| 0 <= j < i + 1
                    && self.records@[j].id == c && self.records@[j].members@.contains(user_id) by {
                    if r@.contains(c) {
                        let k = choose|k: int| 0 <= k < r@.len() && r@[k] == c;
                        if k < old_r.len() {
                            assert(old_r[k] == c);
                            assert(old_r.contains(c));
                        } else {
                            assert(self.records@[i as int].id == c);
                        }
                    }
                    if exists|j: int| 0 <= j < i + 1 && self.records@[j].id == c
                        && self.records@[j].members@.contains(user_id) {
                        let j = choose|j: int| 0 <= j < i + 1 && self.records@[j].id == c
                            && self.records@[j].members@.contains(user_id);
                        if j < i {
                            assert(old_r.contains(c));
                            let k = choose|k: int| 0 <= k < old_r.len() && old_r[k] == c;
                            assert(r@[k] == c);
                        } else {
                            assert(r@[r@.len() - 1] == c);
                        }
                    }
                }
            }
            i += 1;
        }
        proof {
            assert forall|c: ChatId| r@.contains(c) <==> member_of(self@, user_id, c) by {
                if member_of(self@, user_id, c) {
                    let j = choose|j: int| 0 <= j < self.records@.len() && self.records@[j].id == c;
                    assert(self.records@[j].members@.contains(user_id));
                }
            }
        }
        r
    }

    /// The chats that `user_id` is a member of, with their titles and members.
    pub fn get_user_chats(&self, user_id: UserId) -> (r: Vec<Chat>)
        requires
            self.wf(),
        ensures
            forall|k: int| 0 <= k < r@.len() ==> {
                &&& member_of(self@, user_id, r@[k].id)
                &&& self@[r@[k].id] == (r@[k].title.0@, r@[k].users_ids@)
            },
            forall|c: ChatId| member_of(self@, user_id, c) ==> exists|k: int| 0 <= k < r@.len() && r@[k].id == c,
    {
        let mut r: Vec<Chat> = Vec::new();
        let mut i: usize = 0;
        while i < self.records.len()
            invariant
                self.wf(),
                i <= self.records@.len(),
                forall|k: int| 0 <= k < r@.len() ==> {
                    &&& member_of(self@, user_id, r@[k].id)
                    &&& self@[r@[k].id] == (r@[k].title.0@, r@[k].users_ids@)
                },
                forall|j: int| 0 <= j < i && self.records@[j].members@.contains(user_id) ==> exists|k: int|
                    0 <= k < r@.len() && r@[k].id == self.records@[j].id,
            decreases self.records@.len() - i,
        {
            let rec = &self.records[i];
            let ghost old_r = r@;
            if contains_id(rec.members.as_slice(), user_id) {
                let chat = Chat { id: rec.id, title: ChatTitle(rec.title.clone()), users_ids: rec.members.clone() };
                r.push(chat);
                assert(r@[r@.len() - 1].id == rec.id);
            }
            proof {
                assert forall|j: int| 0 <= j < i + 1 && self.records@[j].members@.contains(user_id) implies exists|k: int|
                    0 <= k < r@.len() && r@[k].id == self.records@[j].id by {
                    if j < i {
                        let k = choose|k: int| 0 <= k < old_r.len() && old_r[k].id == self.records@[j].id;
                        assert(r@[k] == old_r[k]);
                    } else {
                        assert(r@[r@.len() - 1].id == self.records@[j].id);
                    }
                }
            }
            i += 1;
        }
        proof {
            assert forall|c: ChatId| member_of(self@, user_id, c) implies exists|k: int|
                0 <= k < r@.len() && r@[k].id == c by {
                let j = choose|j: int| 0 <= j < self.records@.len() && self.records@[j].id == c;
                assert(self.records@[j].members@.contains(user_id));
            }
        }
        r
    }
}

} // verus!
