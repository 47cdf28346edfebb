use vstd::prelude::*;
use vstd::string::StringExecFns;
use crate::error::RepositoryError;
use crate::ids::{ChatId, MessageId, UserId};
use crate::models::messages::Message;

verus! {

/// Whether message `m` belongs on a page of `chat` read before `cursor`.
pub open spec fn in_page(m: Message, chat: ChatId, cursor: Option<MessageId>) -> bool {
    m.chat_id == chat && match cursor {
        Some(c) => m.id.0 < c.0,
        None => true,
    }
}

/// The messages of `s` on pages of `chat` before `cursor`, newest first
/// (`s` is in the order the messages were stored).
pub open spec fn newest_first(s: Seq<Message>, chat: ChatId, cursor: Option<MessageId>) -> Seq<Message>
    decreases s.len(),
{
    if s.len() == 0 {
        Seq::empty()
    } else {
        newest_first(s.drop_first(), chat, cursor) + (if in_page(s[0], chat, cursor) {
            seq![s[0]]
        } else {
            Seq::empty()
        })
    }
}

/// The first `n` elements of `s`, or all of them when it has fewer.
pub open spec fn take_upto<E>(s: Seq<E>, n: int) -> Seq<E> {
    if n <= 0 {
        Seq::empty()
    } else if n >= s.len() {
        s
    } else {
        s.subrange(0, n)
    }
}

/// Reading further back only extends a page: the newest-first messages of
/// a suffix of the store are a prefix of those of a longer suffix.
pub proof fn lemma_newest_first_extends(s: Seq<Message>, chat: ChatId, cursor: Option<MessageId>, j: int, i: int)
    requires
        0 <= j <= i <= s.len(),
    ensures
        newest_first(s.subrange(j, s.len() as int), chat, cursor).len() >= newest_first(
            s.subrange(i, s.len() as int),
            chat,
            cursor,
        ).len(),
        newest_first(s.subrange(j, s.len() as int), chat, cursor).subrange(
            0,
            newest_first(s.subrange(i, s.len() as int), chat, cursor).len() as int,
        ) == newest_first(s.subrange(i, s.len() as int), chat, cursor),
    decreases i - j,
{
    let short = newest_first(s.subrange(i, s.len() as int), chat, cursor);
    if j == i {
        assert(short.subrange(0, short.len() as int) =~= short);
    } else {
        lemma_newest_first_extends(s, chat, cursor, j + 1, i);
        assert(s.subrange(j, s.len() as int).drop_first() =~= s.subrange(j + 1, s.len() as int));
        let mid = newest_first(s.subrange(j + 1, s.len() as int), chat, cursor);
        let long = newest_first(s.subrange(j, s.len() as int), chat, cursor);
        assert(long.subrange(0, mid.len() as int) =~= mid);
        assert(long.subrange(0, short.len() as int) =~= mid.subrange(0, short.len() as int));
    }
}

/// Message ids grow in the order messages were stored.
pub open spec fn ids_increasing(s: Seq<Message>) -> bool {
    forall|i: int, j: int| 0 <= i < j < s.len() ==> s[i].id.0 < s[j].id.0
}

/// Every message on a page is a stored message that belongs on it.
pub proof fn lemma_newest_first_members(s: Seq<Message>, chat: ChatId, cursor: Option<MessageId>)
    ensures
        forall|i: int| 0 <= i < newest_first(s, chat, cursor).len() ==> {
            &&& s.contains(#[trigger] newest_first(s, chat, cursor)[i])
            &&& in_page(newest_first(s, chat, cursor)[i], chat, cursor)
        },
    decreases s.len(),
{
    if s.len() > 0 {
        let t = s.drop_first();
        lemma_newest_first_members(t, chat, cursor);
        let a = newest_first(t, chat, cursor);
        assert forall|i: int| 0 <= i < newest_first(s, chat, cursor).len() implies {
            &&& s.contains(#[trigger] newest_first(s, chat, cursor)[i])
            &&& in_page(newest_first(s, chat, cursor)[i], chat, cursor)
        } by {
            if i < a.len() {
                assert(newest_first(s, chat, cursor)[i] == a[i]);
                let j = choose|j: int| 0 <= j < t.len() && t[j] == a[i];
                assert(s[j + 1] == a[i]);
            } else {
                assert(newest_first(s, chat, cursor)[i] == s[0]);
            }
        }
    }
}

/// Nothing older than every stored message is on a page.
pub proof fn lemma_newest_first_before_all(s: Seq<Message>, chat: ChatId, v: i64)
    requires
        forall|i: int| 0 <= i < s.len() ==> s[i].id.0 >= v,
    ensures
        newest_first(s, chat, Some(MessageId(v))) == Seq::<Message>::empty(),
    decreases s.len(),
{
    if s.len() > 0 {
        lemma_newest_first_before_all(s.drop_first(), chat, v);
    }
}

/// Paging by cursor continues exactly where a page ended: reading before
/// the id of the message at position `k` of the newest-first list gives
/// the messages after position `k`, with none skipped or repeated.
pub proof fn cursor_continues_page(s: Seq<Message>, chat: ChatId, cursor: Option<MessageId>, k: int)
    requires
        ids_increasing(s),
        0 <= k < newest_first(s, chat, cursor).len(),
    ensures
        newest_first(s, chat, Some(newest_first(s, chat, cursor)[k].id)) == newest_first(s, chat, cursor).subrange(
            k + 1,
            newest_first(s, chat, cursor).len() as int,
        ),
    decreases s.len(),
{
    let all = newest_first(s, chat, cursor);
    let x = all[k];
    let t = s.drop_first();
    let a = newest_first(t, chat, cursor);
    assert(ids_increasing(t));
    if k < a.len() {
        assert(all[k] == a[k]);
        cursor_continues_page(t, chat, cursor, k);
        lemma_newest_first_members(t, chat, cursor);
        let j = choose|j: int| 0 <= j < t.len() && t[j] == a[k];
        assert(s[j + 1] == x);
        assert(s[0].id.0 < x.id.0);
        assert(in_page(s[0], chat, Some(x.id)) == in_page(s[0], chat, cursor));
        assert(newest_first(s, chat, Some(x.id)) =~= all.subrange(k + 1, all.len() as int));
    } else {
        assert(x == s[0]);
        assert forall|i: int| 0 <= i < t.len() implies t[i].id.0 >= x.id.0 by {
            assert(s[0].id.0 < s[i + 1].id.0);
        }
        lemma_newest_first_before_all(t, chat, x.id.0);
        assert(newest_first(s, chat, Some(x.id)) =~= all.subrange(k + 1, all.len() as int));
    }
}

impl Message {
    /// A copy of the message.
    pub fn duplicate(&self) -> (r: Message)
        ensures
            r == *self,
    {
        Message {
            id: self.id,
            content: self.content.clone(),
            chat_id: self.chat_id,
            sender_id: self.sender_id,
            created_at: self.created_at,
        }
    }
}

/// Messages kept in memory, in the order they were stored; ids grow with
/// each stored message.
pub struct MemoryMessages {
    records: Vec<Message>,
    next_id: i64,
}

impl View for MemoryMessages {
    type V = Seq<Message>;

    closed spec fn view(&self) -> Seq<Message> {
        self.records@
    }
}

impl MemoryMessages {
    pub closed spec fn wf(&self) -> bool {
        &&& 1 <= self.next_id
        &&& forall|i: int, j: int| 0 <= i < j < self.records@.len() ==> self.records@[i].id.0 < self.records@[j].id.0
        &&& forall|i: int| 0 <= i < self.records@.len() ==> (#[trigger] self.records@[i]).id.0 < self.next_id
    }

    /// Stored messages have growing ids.
    pub proof fn lemma_ids_increasing(&self)
        requires
            self.wf(),
        ensures
            ids_increasing(self@),
    {
    }

    /// Whether another message id can still be handed out.
    pub closed spec fn has_room(&self) -> bool {
        self.next_id < i64::MAX
    }

    pub fn new() -> (r: Self)
        ensures
            r.wf(),
            r@ == Seq::<Message>::empty(),
            r.has_room(),
    {
        MemoryMessages { records: Vec::new(), next_id: 1 }
    }

    /// Stores a message from `user_id` in `chat_id`, with a larger id than
    /// every message stored before.
    pub fn create_message(&mut self, chat_id: ChatId, user_id: UserId, content: &str, now: i64) -> (r: Result<Message, RepositoryError>)
        requires
            old(self).wf(),
        ensures
            final(self).wf(),
            r is Ok <==> old(self).has_room(),
            r is Ok ==> {
                let m = r->Ok_0;
                &&& final(self)@ == old(self)@.push(m)
                &&& forall|i: int| 0 <= i < old(self)@.len() ==> old(self)@[i].id.0 < m.id.0
                &&& m.chat_id == chat_id
                &&& m.sender_id == Some(user_id)
                &&& m.content@ == content@
                &&& m.created_at == now
            },
            r is Err ==> final(self)@ == old(self)@ && r->Err_0 is Unknown,
    {
        if self.next_id == i64::MAX {
            return Err(RepositoryError::Unknown(String::from_str("message ids exhausted")));
        }
        let m = Message {
            id: MessageId::new(self.next_id),
            content: String::from_str(content),
            chat_id,
            sender_id: Some(user_id),
            created_at: now,
        };
        let copy = m.duplicate();
        self.records.push(copy);
        self.next_id = self.next_id + 1;
        Ok(m)
    }

    /// Up to `limit` messages of `chat_id` older than `last_message_id`
    /// (all of them without one), newest first.
    pub fn get_messages(&self, chat_id: ChatId, limit: i64, last_message_id: Option<MessageId>) -> (r: Vec<Message>)
        requires
            self.wf(),
        ensures
            r@ == take_upto(newest_first(self@, chat_id, last_message_id), limit as int),
    {
        let ghost s = self.records@;
        let n = self.records.len();
        let mut r: Vec<Message> = Vec::new();
        let mut i: usize = n;
        while i > 0 && (r.len() as i64) < limit
            invariant
                s == self.records@,
                n == s.len(),
                i <= n,
                r@ == newest_first(s.subrange(i as int, n as int), chat_id, last_message_id),
                limit > 0 ==> r@.len() <= limit,
                limit <= 0 ==> i == n && r@.len() == 0,
            decreases i,
        {
            i -= 1;
            let m = &self.records[i];
            let ghost old_r = r@;
            let keep = m.chat_id == chat_id && match last_message_id {
                Some(c) => m.id.0 < c.0,
                None => true,
            };
            if keep {
                r.push(m.duplicate());
            }
            proof {
                assert(s.subrange(i as int, n as int).drop_first() =~= s.subrange(i + 1, n as int));
                assert(s.subrange(i as int, n as int)[0] == s[i as int]);
                assert(r@ =~= newest_first(s.subrange(i as int, n as int), chat_id, last_message_id));
            }
        }
        proof {
            let all = newest_first(s, chat_id, last_message_id);
            assert(s.subrange(0, n as int) =~= s);
            lemma_newest_first_extends(s, chat_id, last_message_id, 0, i as int);
            if limit > 0 && i > 0 {
                assert(r@.len() == limit);
                assert(r@ =~= take_upto(all, limit as int));
            } else if limit > 0 {
                assert(r@ =~= take_upto(all, limit as int));
            } else {
                assert(r@ =~= take_upto(all, limit as int));
            }
        }
        r
    }
}

} // verus!
