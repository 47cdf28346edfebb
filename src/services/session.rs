use vstd::prelude::*;
use crate::error::{ApiError, ErrorKind, RepositoryError};
use crate::ids::UserId;
use crate::models::users::SESSION_LIFETIME;
use crate::repositories::sessions::{live_session, unexpired, MemorySessions};
use crate::services::trace::TraceId;

verus! {

/// How many tokens one session issuance tries before it gives up.
pub const SESSION_ATTEMPTS: usize = 5;

/// Seconds between two sweeps of expired sessions (one hour).
pub const CLEANUP_INTERVAL: u64 = 3600;

/// When a session issued at `now` expires; saturates at the largest time.
pub open spec fn spec_expiry(now: i64) -> i64 {
    if now + SESSION_LIFETIME > i64::MAX {
        i64::MAX
    } else {
        (now + SESSION_LIFETIME) as i64
    }
}

pub fn session_expiry(now: i64) -> (r: i64)
    ensures
        r == spec_expiry(now),
{
    if now > i64::MAX - SESSION_LIFETIME {
        i64::MAX
    } else {
        now + SESSION_LIFETIME
    }
}

/// What session issuance does after one attempt to store a token.
#[derive(Clone, Copy, Debug, PartialEq, Eq, Structural)]
pub enum IssueStep {
    /// The token was stored: hand it out.
    Accept,
    /// The token was taken: draw another one.
    Retry,
    /// Stop and report an error of this kind.
    Fail(ErrorKind),
}

pub open spec fn spec_issue_step(attempt: int, outcome: Result<(), RepositoryError>) -> IssueStep {
    match outcome {
        Ok(_) => IssueStep::Accept,
        Err(RepositoryError::Conflict) => if attempt + 1 < SESSION_ATTEMPTS {
            IssueStep::Retry
        } else {
            IssueStep::Fail(ErrorKind::Conflict)
        },
        Err(_) => IssueStep::Fail(ErrorKind::Unknown),
    }
}

/// Decides the next step after attempt number `attempt` (from 0) ended
/// with `outcome`: a taken token is retried until the attempts run out.
pub fn next_issue_step(attempt: usize, outcome: &Result<(), RepositoryError>) -> (r: IssueStep)
    ensures
        r == spec_issue_step(attempt as int, *outcome),
{
    match outcome {
        Ok(_) => IssueStep::Accept,
        Err(RepositoryError::Conflict) => if attempt < SESSION_ATTEMPTS - 1 {
            IssueStep::Retry
        } else {
            IssueStep::Fail(ErrorKind::Conflict)
        },
        Err(_) => IssueStep::Fail(ErrorKind::Unknown),
    }
}

/// The error of kind `kind` that carries `trace_id` (none for an internal error).
pub fn error_of_kind(kind: ErrorKind, trace_id: &TraceId) -> (r: ApiError)
    requires
        kind != ErrorKind::Validation,
    ensures
        r.spec_kind() == kind,
        kind != ErrorKind::Internal ==> r.spec_trace() == Some(*trace_id),
{
    let t = trace_id.duplicate();
    match kind {
        ErrorKind::Unknown => ApiError::Unknown { trace_id: t },
        ErrorKind::Internal => ApiError::Internal,
        ErrorKind::Conflict => ApiError::Conflict { trace_id: t },
        ErrorKind::NotFound => ApiError::NotFound { trace_id: t },
        ErrorKind::Unauthorized => ApiError::Unauthorized { trace_id: t },
        _ => ApiError::Forbidden { trace_id: t },
    }
}

/// The tokens of `draws`.
pub open spec fn token_views(draws: Seq<String>) -> Seq<Seq<char>> {
    draws.map_values(|s: String| s@)
}

/// How many of `n` drawn tokens issuance may try.
pub open spec fn attempts_for(n: int) -> int {
    if n < SESSION_ATTEMPTS {
        n
    } else {
        SESSION_ATTEMPTS as int
    }
}

/// Draw `k` is the first of the tried draws whose token is not stored yet.
pub open spec fn first_free_draw(sessions: Map<Seq<char>, (UserId, i64)>, draws: Seq<Seq<char>>, k: int) -> bool {
    &&& 0 <= k < attempts_for(draws.len() as int)
    &&& !sessions.contains_key(draws[k])
    &&& forall|j: int| 0 <= j < k ==> sessions.contains_key(draws[j])
}

/// Issues a session for `user_id` at `now`, trying the drawn tokens in
/// order, at most `SESSION_ATTEMPTS` of them. The first one not stored yet
/// is stored and returned; when every tried one is taken, the result is a
/// conflict and nothing is stored.
pub fn create_session(
    sessions: &mut MemorySessions,
    user_id: UserId,
    now: i64,
    draws: &Vec<String>,
    trace_id: &TraceId,
) -> (r: Result<String, ApiError>)
    requires
        old(sessions).wf(),
    ensures
        final(sessions).wf(),
        r is Ok <==> exists|k: int| first_free_draw(old(sessions)@, token_views(draws@), k),
        r is Ok ==> {
            &&& exists|k: int| first_free_draw(old(sessions)@, token_views(draws@), k)
                && r->Ok_0@ == draws@[k]@
            &&& final(sessions)@ == old(sessions)@.insert(r->Ok_0@, (user_id, spec_expiry(now)))
        },
        r is Err ==> r->Err_0.is_error(ErrorKind::Conflict, *trace_id) && final(sessions)@ == old(sessions)@,
        old(sessions)@.dom().len() == 0 && draws@.len() > 0 ==> r is Ok,
{
    let ghost tv = token_views(draws@);
    assert(old(sessions)@.dom().len() == 0 && draws@.len() > 0 ==> first_free_draw(old(sessions)@, tv, 0)) by {
        if old(sessions)@.dom().len() == 0 && draws@.len() > 0 {
            old(sessions).lemma_finite();
            vstd::set_lib::lemma_set_empty_equivalency_len(old(sessions)@.dom());
            assert(!old(sessions)@.dom().contains(tv[0]));
        }
    }
    let expires_at = session_expiry(now);
    let mut attempt: usize = 0;
    while attempt < draws.len() && attempt < SESSION_ATTEMPTS
        invariant
            sessions.wf(),
            sessions@ == old(sessions)@,
            tv == token_views(draws@),
            old(sessions)@.dom().len() == 0 && draws@.len() > 0 ==> first_free_draw(old(sessions)@, tv, 0),
            expires_at == spec_expiry(now),
            attempt <= attempts_for(draws@.len() as int),
            forall|j: int| 0 <= j < attempt ==> sessions@.contains_key(tv[j]),
        decreases draws@.len() - attempt,
    {
        let token = draws[attempt].clone();
        let outcome = sessions.insert(token.clone(), user_id, expires_at);
        match next_issue_step(attempt, &outcome) {
            IssueStep::Accept => {
                assert(token@ == draws@[attempt as int]@);
                assert(first_free_draw(old(sessions)@, tv, attempt as int) && token@
                    == draws@[attempt as int]@);
                return Ok(token);
            },
            IssueStep::Retry => {},
            IssueStep::Fail(kind) => {
                proof {
                    assert forall|k: int| !first_free_draw(old(sessions)@, tv, k) by {
                        if 0 <= k < attempts_for(draws@.len() as int) && k > attempt {
                            assert(false);
                        }
                    }
                }
                return Err(error_of_kind(kind, trace_id));
            },
        }
        attempt += 1;
    }
    proof {
        assert forall|k: int| !first_free_draw(old(sessions)@, tv, k) by {
            if 0 <= k < attempts_for(draws@.len() as int) {
                assert(sessions@.contains_key(tv[k]));
            }
        }
    }
    Err(ApiError::Conflict { trace_id: trace_id.duplicate() })
}

/// A token is never issued twice. Once issuance has stored a token, a later
/// issuance that draws the same token cannot hand it out: if that token is
/// its first draw it moves on to a later one, and when every token it tries
/// is taken it finds none, which is a conflict.
pub proof fn taken_token_is_never_reissued(
    before: Map<Seq<char>, (UserId, i64)>,
    first: Seq<Seq<char>>,
    k: int,
    owner: UserId,
    expires_at: i64,
    second: Seq<Seq<char>>,
)
    requires
        first_free_draw(before, first, k),
    ensures
        ({
            let after = before.insert(first[k], (owner, expires_at));
            &&& forall|k2: int| first_free_draw(after, second, k2) ==> second[k2] != first[k]
            &&& second.len() > 0 && second[0] == first[k] ==> forall|k2: int|
                first_free_draw(after, second, k2) ==> k2 >= 1
            &&& (forall|j: int| 0 <= j < attempts_for(second.len() as int) ==> after.contains_key(second[j]))
                ==> !exists|k2: int| first_free_draw(after, second, k2)
        }),
{
}

/// The owner of the live session `token`; a missing or expired one is not
/// found, and the two cases cannot be told apart.
pub fn validate_session(sessions: &MemorySessions, token: &String, now: i64, trace_id: &TraceId) -> (r:
    Result<UserId, ApiError>)
    requires
        sessions.wf(),
    ensures
        r is Ok <==> live_session(sessions@, token@, now),
        r is Ok ==> r->Ok_0 == sessions@[token@].0,
        r is Err ==> r->Err_0.is_error(ErrorKind::NotFound, *trace_id),
{
    match sessions.find_by_token(token, now) {
        Ok(owner) => Ok(owner),
        Err(_) => Err(ApiError::NotFound { trace_id: trace_id.duplicate() }),
    }
}

/// Ends the session `token`; ending a missing one does nothing.
pub fn delete_session(sessions: &mut MemorySessions, token: &String)
    requires
        old(sessions).wf(),
    ensures
        final(sessions).wf(),
        final(sessions)@ == old(sessions)@.remove(token@),
{
    sessions.delete_by_token(token);
}

/// One sweep: removes every session that expired before `now` and
/// returns how many were removed.
pub fn cleanup_sweep(sessions: &mut MemorySessions, now: i64) -> (r: usize)
    requires
        old(sessions).wf(),
    ensures
        final(sessions).wf(),
        final(sessions)@ == unexpired(old(sessions)@, now),
        r == old(sessions)@.len() - final(sessions)@.len(),
{
    sessions.delete_expired(now)
}

} // verus!
