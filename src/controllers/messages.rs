use vstd::prelude::*;
use crate::error::{ApiError, ErrorKind, Field, FieldErrors, RepositoryError};
use crate::ids::{ChatId, MessageId, UserId};
use crate::models::messages::{content_issues, GetMessagesResponse, Message, NewMessageRequest, MAX_MESSAGES};
use crate::repositories::chats::{member_of, MemoryChats};
use crate::repositories::messages::{newest_first, take_upto, MemoryMessages};
use crate::controllers::chats::fanout_targets;
use crate::services::trace::TraceId;

verus! {

/// What a membership check found.
#[derive(Clone, Copy, Debug, PartialEq, Eq, Structural)]
pub enum AccessCheck {
    /// The user is a member of the chat.
    Member,
    /// The user is not a member, or the chat does not exist.
    NotMember,
    /// The user's chats could not be read.
    StorageFailure,
}

pub open spec fn spec_access_check(fetched: Result<Vec<ChatId>, RepositoryError>, chat_id: ChatId) -> AccessCheck {
    match fetched {
        Ok(ids) => if ids@.contains(chat_id) {
            AccessCheck::Member
        } else {
            AccessCheck::NotMember
        },
        Err(_) => AccessCheck::StorageFailure,
    }
}

/// Classifies the chats fetched for a user against `chat_id`; a failed
/// fetch is told apart so that it can be reported as an internal failure.
pub fn access_check(fetched: &Result<Vec<ChatId>, RepositoryError>, chat_id: ChatId) -> (r: AccessCheck)
    ensures
        r == spec_access_check(*fetched, chat_id),
{
    match fetched {
        Ok(ids) => {
            let mut i: usize = 0;
            while i < ids.len()
                invariant
                    fetched is Ok && fetched->Ok_0@ == ids@,
                    i <= ids@.len(),
                    forall|j: int| 0 <= j < i ==> ids@[j] != chat_id,
                decreases ids@.len() - i,
            {
                if ids[i] == chat_id {
                    assert(ids@[i as int] == chat_id);
                    return AccessCheck::Member;
                }
                i += 1;
            }
            AccessCheck::NotMember
        },
        Err(_) => AccessCheck::StorageFailure,
    }
}

/// Whether `chat_id` is among the chats fetched for a user. A failed fetch
/// denies access: the check fails closed.
pub fn check_chat_access(fetched: &Result<Vec<ChatId>, RepositoryError>, chat_id: ChatId) -> (r: bool)
    ensures
        r == (fetched is Ok && fetched->Ok_0@.contains(chat_id)),
{
    access_check(fetched, chat_id) == AccessCheck::Member
}

/// Lets only members through. Non-members, missing chats and failed checks
/// all look the same to the client: forbidden.
pub fn require_access(check: AccessCheck, trace_id: &TraceId) -> (r: Result<(), ApiError>)
    ensures
        r is Ok <==> check == AccessCheck::Member,
        r is Err ==> r->Err_0.is_error(ErrorKind::Forbidden, *trace_id),
{
    match check {
        AccessCheck::Member => Ok(()),
        _ => Err(ApiError::Forbidden { trace_id: trace_id.duplicate() }),
    }
}

/// The chats of `user_id` as a successful fetch.
fn fetched_chats(chats: &MemoryChats, user_id: UserId) -> (r: Result<Vec<ChatId>, RepositoryError>)
    requires
        chats.wf(),
    ensures
        forall|c: ChatId| spec_access_check(r, c) == if member_of(chats@, user_id, c) {
            AccessCheck::Member
        } else {
            AccessCheck::NotMember
        },
{
    Ok(chats.get_user_chats_ids(user_id))
}

/// The page size actually used: the request clamped to `0..=MAX_MESSAGES`.
pub open spec fn spec_page_limit(requested: i64) -> i64 {
    if requested > MAX_MESSAGES {
        MAX_MESSAGES
    } else if requested < 0 {
        0
    } else {
        requested
    }
}

pub fn page_limit(requested: i64) -> (r: i64)
    ensures
        r == spec_page_limit(requested),
        0 <= r <= MAX_MESSAGES,
{
    if requested > MAX_MESSAGES {
        MAX_MESSAGES
    } else if requested < 0 {
        0
    } else {
        requested
    }
}

/// Cuts a page of `limit` messages out of `fetched`, which was read with
/// room for one more: that extra message only tells that more remain.
pub fn page_of(fetched: Vec<Message>, limit: i64) -> (r: GetMessagesResponse)
    requires
        0 <= limit,
    ensures
        r.messages@ == take_upto(fetched@, limit as int),
        r.has_more == (fetched@.len() > limit),
{
    let has_more = fetched.len() as u64 > limit as u64;
    let mut messages = fetched;
    if has_more {
        messages.truncate(limit as usize);
    }
    assert(messages@ =~= take_upto(fetched@, limit as int));
    GetMessagesResponse { messages, has_more }
}

/// The page cut out of what a read with room for one more returned; a
/// failed read is unknown.
pub fn page_result(fetched: Result<Vec<Message>, RepositoryError>, limit: i64, trace_id: &TraceId) -> (r: Result<GetMessagesResponse, ApiError>)
    requires
        0 <= limit,
    ensures
        r is Ok <==> fetched is Ok,
        r is Ok ==> r->Ok_0.messages@ == take_upto(fetched->Ok_0@, limit as int)
            && r->Ok_0.has_more == (fetched->Ok_0@.len() > limit),
        r is Err ==> r->Err_0.is_error(ErrorKind::Unknown, *trace_id),
{
    match fetched {
        Ok(m) => Ok(page_of(m, limit)),
        Err(_) => Err(ApiError::Unknown { trace_id: trace_id.duplicate() }),
    }
}

/// One page of a chat's messages for `user_id`, newest first, older than
/// `last_message_id` when one is given; only members may read.
pub fn get_messages(
    chats: &MemoryChats,
    messages: &MemoryMessages,
    user_id: UserId,
    chat_id: ChatId,
    limit: i64,
    last_message_id: Option<MessageId>,
    trace_id: &TraceId,
) -> (r: Result<GetMessagesResponse, ApiError>)
    requires
        chats.wf(),
        messages.wf(),
    ensures
        r is Ok <==> member_of(chats@, user_id, chat_id),
        r is Err ==> r->Err_0.is_error(ErrorKind::Forbidden, *trace_id),
        r is Ok ==> {
            let all = newest_first(messages@, chat_id, last_message_id);
            let n = spec_page_limit(limit) as int;
            &&& r->Ok_0.messages@ == take_upto(all, n)
            &&& r->Ok_0.has_more == (all.len() > n)
        },
{
    require_access(access_check(&fetched_chats(chats, user_id), chat_id), trace_id)?;
    let n = page_limit(limit);
    let fetched = messages.get_messages(chat_id, n + 1, last_message_id);
    proof {
        let all = newest_first(messages@, chat_id, last_message_id);
        assert(take_upto(take_upto(all, n + 1), n as int) =~= take_upto(all, n as int));
    }
    page_result(Ok(fetched), n, trace_id)
}

/// Whether a message may be stored: the sender must be a member and the
/// body must not be empty.
pub fn check_message(check: AccessCheck, req: &NewMessageRequest, trace_id: &TraceId) -> (r: Result<(), ApiError>)
    ensures
        check != AccessCheck::Member ==> r is Err && r->Err_0.is_error(ErrorKind::Forbidden, *trace_id),
        check == AccessCheck::Member && content_issues(req.content.0@).len() > 0 ==> r is Err
            && r->Err_0.is_error(ErrorKind::Validation, *trace_id),
        check == AccessCheck::Member && content_issues(req.content.0@).len() == 0 ==> r is Ok,
{
    require_access(check, trace_id)?;
    let mut errors = FieldErrors::new();
    errors.insert_nonempty(Field::Content, req.content.validate());
    if !errors.is_empty() {
        return Err(ApiError::Validation { trace_id: trace_id.duplicate(), fields: errors });
    }
    Ok(())
}

/// The stored message; a failed store is unknown.
pub fn stored_message(result: Result<Message, RepositoryError>, trace_id: &TraceId) -> (r: Result<Message, ApiError>)
    ensures
        r is Ok <==> result is Ok,
        r is Ok ==> r->Ok_0 == result->Ok_0,
        r is Err ==> r->Err_0.is_error(ErrorKind::Unknown, *trace_id),
{
    match result {
        Ok(m) => Ok(m),
        Err(_) => Err(ApiError::Unknown { trace_id: trace_id.duplicate() }),
    }
}

/// Who is told about a message from `sender`: the other members, each
/// once. When the members cannot be read nobody is told; the message
/// itself still stands.
pub fn message_recipients(members: &Result<Vec<UserId>, RepositoryError>, sender: UserId) -> (r: Vec<UserId>)
    ensures
        r@.no_duplicates(),
        members is Ok ==> forall|u: UserId| r@.contains(u) <==> members->Ok_0@.contains(u) && u != sender,
        members is Err ==> r@.len() == 0,
{
    match members {
        Ok(m) => fanout_targets(m, sender),
        Err(_) => Vec::new(),
    }
}

/// A stored message, with the members to be told about it.
pub struct SentMessage {
    pub message: Message,
    pub recipients: Vec<UserId>,
}

/// Sends a message from `user_id` to `chat_id`: only members may send,
/// and an empty body is rejected. The other members are to be told.
pub fn new_message(
    chats: &MemoryChats,
    messages: &mut MemoryMessages,
    user_id: UserId,
    chat_id: ChatId,
    req: &NewMessageRequest,
    now: i64,
    trace_id: &TraceId,
) -> (r: Result<SentMessage, ApiError>)
    requires
        chats.wf(),
        old(messages).wf(),
    ensures
        final(messages).wf(),
        !member_of(chats@, user_id, chat_id) ==> r is Err && r->Err_0.is_error(ErrorKind::Forbidden, *trace_id),
        member_of(chats@, user_id, chat_id) && content_issues(req.content.0@).len() > 0 ==> r is Err
            && r->Err_0.is_error(ErrorKind::Validation, *trace_id),
        member_of(chats@, user_id, chat_id) && content_issues(req.content.0@).len() == 0 && old(messages).has_room()
            ==> r is Ok,
        r is Ok ==> {
            let m = r->Ok_0.message;
            &&& final(messages)@ == old(messages)@.push(m)
            &&& m.chat_id == chat_id && m.sender_id == Some(user_id) && m.content@ == req.content.0@
            &&& m.created_at == now
            &&& r->Ok_0.recipients@.no_duplicates()
            &&& forall|u: UserId| r->Ok_0.recipients@.contains(u) <==> member_of(chats@, u, chat_id) && u != user_id
        },
        r is Err ==> final(messages)@ == old(messages)@,
{
    check_message(access_check(&fetched_chats(chats, user_id), chat_id), req, trace_id)?;
    let message = stored_message(messages.create_message(chat_id, user_id, req.content.as_str(), now), trace_id)?;
    let recipients = message_recipients(&Ok(chats.get_chat_members(chat_id)), user_id);
    Ok(SentMessage { message, recipients })
}

} // verus!
