use vstd::prelude::*;
use crate::error::{ApiError, ErrorKind, Field, FieldErrors};
use crate::ids::{ChatId, UserId};
use crate::models::chats::{title_issues, ChatTitle, GetChatsResponse, NewChatRequest, NewChatResponse};
use crate::repositories::chats::{chat_created, contains_id, member_of, MemoryChats};
use crate::services::hub::{bounded_push, published_to_all, publish_to_all_reaches_exactly, SubscriptionView};
use crate::models::events::SseEventType;
use crate::models::chats::Chat;
use crate::error::RepositoryError;
use crate::controllers::messages::{access_check, require_access};
use crate::services::trace::TraceId;

verus! {

/// The field errors of a chat title.
pub open spec fn chat_field_issues(title: Seq<char>) -> Seq<(Field, Seq<Seq<char>>)> {
    if title_issues(title).len() > 0 {
        seq![(Field::Title, title_issues(title))]
    } else {
        Seq::empty()
    }
}

/// Checks a chat title; an empty result means it is acceptable.
pub fn validate_chat(title: &ChatTitle) -> (r: FieldErrors)
    ensures
        r.view() == chat_field_issues(title.0@),
{
    let mut errors = FieldErrors::new();
    errors.insert_nonempty(Field::Title, title.validate());
    assert(errors.view() =~= chat_field_issues(title.0@));
    errors
}

/// `user_id` followed by `ids`.
pub fn merge_ids(user_id: UserId, ids: Vec<UserId>) -> (r: Vec<UserId>)
    ensures
        r@ == seq![user_id] + ids@,
{
    let mut users: Vec<UserId> = Vec::new();
    users.push(user_id);
    let mut i: usize = 0;
    while i < ids.len()
        invariant
            i <= ids@.len(),
            users@ == seq![user_id] + ids@.subrange(0, i as int),
        decreases ids@.len() - i,
    {
        users.push(ids[i]);
        assert(ids@.subrange(0, i + 1) =~= ids@.subrange(0, i as int).push(ids@[i as int]));
        i += 1;
    }
    assert(ids@.subrange(0, ids@.len() as int) =~= ids@);
    users
}

/// The members a new chat is created with: its creator, then the
/// requested co-members when there are any.
pub open spec fn spec_chat_members(creator: UserId, requested: Option<Seq<UserId>>) -> Seq<UserId> {
    match requested {
        Some(ids) => if ids.len() > 0 {
            seq![creator] + ids
        } else {
            seq![creator]
        },
        None => seq![creator],
    }
}

pub fn chat_members(creator: UserId, requested: Option<Vec<UserId>>) -> (r: Vec<UserId>)
    ensures
        r@ == spec_chat_members(creator, match requested {
            Some(v) => Some(v@),
            None => None,
        }),
{
    match requested {
        Some(ids) => {
            if ids.len() > 0 {
                merge_ids(creator, ids)
            } else {
                let mut r: Vec<UserId> = Vec::new();
                r.push(creator);
                assert(r@ =~= seq![creator]);
                r
            }
        },
        None => {
            let mut r: Vec<UserId> = Vec::new();
            r.push(creator);
            assert(r@ =~= seq![creator]);
            r
        },
    }
}

/// Who is told about an action of `actor`: every member but the actor,
/// each once.
pub fn fanout_targets(members: &Vec<UserId>, actor: UserId) -> (r: Vec<UserId>)
    ensures
        r@.no_duplicates(),
        forall|u: UserId| r@.contains(u) <==> members@.contains(u) && u != actor,
{
    let mut r: Vec<UserId> = Vec::new();
    let mut i: usize = 0;
    while i < members.len()
        invariant
            i <= members@.len(),
            r@.no_duplicates(),
            forall|u: UserId| r@.contains(u) <==> members@.subrange(0, i as int).contains(u) && u != actor,
        decreases members@.len() - i,
    {
        let m = members[i];
        let ghost old_r = r@;
        let ghost pre = members@.subrange(0, i as int);
        if m != actor && !contains_id(r.as_slice(), m) {
            r.push(m);
        }
        proof {
            let post = members@.subrange(0, i + 1);
            assert(post =~= pre.push(m));
            assert forall|v: UserId| r@.contains(v) <==> post.contains(v) && v != actor by {
                if v == m {
                    assert(post[i as int] == m);
                    if m != actor && r@ != old_r {
                        assert(r@[r@.len() - 1] == m);
                    }
                } else {
                    if post.contains(v) {
                        let k = choose|k: int| 0 <= k < post.len() && post[k] == v;
                        assert(pre[k] == v);
                        assert(pre.contains(v));
                        if v != actor {
                            assert(old_r.contains(v));
                            let j = choose|j: int| 0 <= j < old_r.len() && old_r[j] == v;
                            assert(r@[j] == v);
                        }
                    }
                    if r@.contains(v) {
                        let j = choose|j: int| 0 <= j < r@.len() && r@[j] == v;
                        assert(j < old_r.len());
                        assert(old_r[j] == v);
                        assert(old_r.contains(v));
                        let k = choose|k: int| 0 <= k < pre.len() && pre[k] == v;
                        assert(post[k] == v);
                    }
                }
            }
        }
        i += 1;
    }
    assert(members@.subrange(0, members@.len() as int) =~= members@);
    r
}

/// An action by `actor` in a chat with `members` reaches the
/// subscriptions of every other member, each once, and no one else's.
pub proof fn fanout_reaches_other_members(
    subs: Seq<SubscriptionView>,
    members: Seq<UserId>,
    actor: UserId,
    targets: Seq<UserId>,
    e: (SseEventType, Seq<char>),
)
    requires
        targets.no_duplicates(),
        forall|u: UserId| targets.contains(u) <==> members.contains(u) && u != actor,
    ensures
        published_to_all(subs, targets, e).len() == subs.len(),
        forall|i: int| 0 <= i < subs.len() ==> #[trigger] published_to_all(subs, targets, e)[i] == if members.contains(subs[i].user)
            && subs[i].user != actor {
            SubscriptionView { id: subs[i].id, user: subs[i].user, pending: bounded_push(subs[i].pending, e) }
        } else {
            subs[i]
        },
{
    publish_to_all_reaches_exactly(subs, targets, e);
}

/// A chat that was created, with what its creator's co-members need to be told.
pub struct ChatCreated {
    pub response: NewChatResponse,
    pub members: Vec<UserId>,
    pub recipients: Vec<UserId>,
}

/// Whether a chat may be created with this title.
pub fn check_new_chat(title: &ChatTitle, trace_id: &TraceId) -> (r: Result<(), ApiError>)
    ensures
        r is Ok <==> chat_field_issues(title.0@).len() == 0,
        r is Err ==> r->Err_0.is_error(ErrorKind::Validation, *trace_id),
{
    let errors = validate_chat(title);
    if !errors.is_empty() {
        return Err(ApiError::Validation { fields: errors, trace_id: trace_id.duplicate() });
    }
    Ok(())
}

/// The created chat with who is to be told about it: every member but the
/// creator, each once. A failed store is unknown.
pub fn created_chat(stored: Result<ChatId, RepositoryError>, creator: UserId, members: Vec<UserId>, trace_id: &TraceId) -> (r:
    Result<ChatCreated, ApiError>)
    ensures
        r is Ok <==> stored is Ok,
        r is Ok ==> {
            &&& r->Ok_0.response.chat_id == stored->Ok_0
            &&& r->Ok_0.members@ == members@
            &&& r->Ok_0.recipients@.no_duplicates()
            &&& forall|u: UserId| r->Ok_0.recipients@.contains(u) <==> members@.contains(u) && u != creator
        },
        r is Err ==> r->Err_0.is_error(ErrorKind::Unknown, *trace_id),
{
    match stored {
        Ok(chat_id) => {
            let recipients = fanout_targets(&members, creator);
            Ok(ChatCreated { response: NewChatResponse::new(chat_id), members, recipients })
        },
        Err(_) => Err(ApiError::Unknown { trace_id: trace_id.duplicate() }),
    }
}

/// The outcome of removing a chat; a failed removal is unknown.
pub fn removed_chat(result: Result<(), RepositoryError>, trace_id: &TraceId) -> (r: Result<(), ApiError>)
    ensures
        r is Ok <==> result is Ok,
        r is Err ==> r->Err_0.is_error(ErrorKind::Unknown, *trace_id),
{
    match result {
        Ok(()) => Ok(()),
        Err(_) => Err(ApiError::Unknown { trace_id: trace_id.duplicate() }),
    }
}

/// The chats read for a user; a failed read is unknown.
pub fn listed_chats(result: Result<Vec<Chat>, RepositoryError>, trace_id: &TraceId) -> (r: Result<GetChatsResponse, ApiError>)
    ensures
        r is Ok <==> result is Ok,
        r is Ok ==> r->Ok_0.0@ == result->Ok_0@,
        r is Err ==> r->Err_0.is_error(ErrorKind::Unknown, *trace_id),
{
    match result {
        Ok(chats) => Ok(GetChatsResponse(chats)),
        Err(_) => Err(ApiError::Unknown { trace_id: trace_id.duplicate() }),
    }
}

/// Creates a chat for `creator` and names who is to be told about it.
pub fn new_chat(chats: &mut MemoryChats, creator: UserId, chat: NewChatRequest, trace_id: &TraceId) -> (r:
    Result<ChatCreated, ApiError>)
    requires
        old(chats).wf(),
    ensures
        final(chats).wf(),
        chat_field_issues(chat.title.0@).len() > 0 ==> r is Err && r->Err_0.is_error(ErrorKind::Validation, *trace_id),
        chat_field_issues(chat.title.0@).len() == 0 && old(chats).has_room() ==> r is Ok,
        r is Ok ==> {
            let c = r->Ok_0.response.chat_id;
            let members = spec_chat_members(creator, match chat.users_ids {
                Some(v) => Some(v@),
                None => None,
            });
            &&& chat_created(old(chats)@, final(chats)@, c, chat.title.0@, members)
            &&& r->Ok_0.members@ == members
            &&& r->Ok_0.recipients@.no_duplicates()
            &&& forall|u: UserId| r->Ok_0.recipients@.contains(u) <==> members.contains(u) && u != creator
        },
        r is Err ==> final(chats)@ == old(chats)@,
        r is Err && chat_field_issues(chat.title.0@).len() == 0 ==> r->Err_0.is_error(ErrorKind::Unknown, *trace_id),
{
    check_new_chat(&chat.title, trace_id)?;
    let members = chat_members(creator, chat.users_ids);
    let stored = chats.create_chat(&chat.title, members.as_slice());
    created_chat(stored, creator, members, trace_id)
}

/// The chats of `user_id`.
pub fn get_chats(chats: &MemoryChats, user_id: UserId) -> (r: GetChatsResponse)
    requires
        chats.wf(),
    ensures
        forall|k: int| 0 <= k < r.0@.len() ==> {
            &&& member_of(chats@, user_id, r.0@[k].id)
            &&& chats@[r.0@[k].id] == (r.0@[k].title.0@, r.0@[k].users_ids@)
        },
        forall|c: ChatId| member_of(chats@, user_id, c) ==> exists|k: int| 0 <= k < r.0@.len() && r.0@[k].id == c,
{
    GetChatsResponse(chats.get_user_chats(user_id))
}

/// Removes a chat on behalf of `user_id`, who must be one of its members;
/// a missing chat and a chat of others are both forbidden.
pub fn remove_chat(chats: &mut MemoryChats, user_id: UserId, chat_id: ChatId, trace_id: &TraceId) -> (r:
    Result<(), ApiError>)
    requires
        old(chats).wf(),
    ensures
        final(chats).wf(),
        r is Ok <==> member_of(old(chats)@, user_id, chat_id),
        r is Ok ==> final(chats)@ == old(chats)@.remove(chat_id),
        r is Err ==> r->Err_0.is_error(ErrorKind::Forbidden, *trace_id) && final(chats)@ == old(chats)@,
{
    let fetched = Ok(chats.get_user_chats_ids(user_id));
    require_access(access_check(&fetched, chat_id), trace_id)?;
    chats.remove_chat(chat_id);
    Ok(())
}

} // verus!
