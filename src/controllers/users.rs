use vstd::prelude::*;
use crate::error::{ApiError, ErrorKind, Field, FieldErrors, RepositoryError};
use crate::ids::UserId;
use crate::models::users::{
    password_hash_of, password_issues, username_issues, LoginUserRequest, LoginUserResponse,
    PasswordHash,
};
use crate::random::RandomGenerator;
use crate::repositories::sessions::{live_session, MemorySessions};
use crate::repositories::users::{AccountView, MemoryUsers};
use crate::services::session::{create_session, first_free_draw, spec_expiry, token_views};
use crate::services::trace::TraceId;

verus! {

/// The field errors of a registration or sign-in request.
pub open spec fn user_field_issues(username: Seq<char>, password: Seq<char>) -> Seq<(Field, Seq<Seq<char>>)> {
    (if username_issues(username).len() > 0 {
        seq![(Field::Username, username_issues(username))]
    } else {
        Seq::empty()
    }) + (if password_issues(password).len() > 0 {
        seq![(Field::Password, password_issues(password))]
    } else {
        Seq::empty()
    })
}

/// Checks both credentials; an empty result means the request is acceptable.
pub fn validate_user(user: &LoginUserRequest) -> (r: FieldErrors)
    ensures
        r.view() == user_field_issues(user.username.0@, user.password.0@),
{
    let mut errors = FieldErrors::new();
    let username_errors = user.username.validate();
    errors.insert_nonempty(Field::Username, username_errors);
    let password_errors = user.password.validate();
    errors.insert_nonempty(Field::Password, password_errors);
    assert(errors.view() =~= user_field_issues(user.username.0@, user.password.0@));
    errors
}

/// Maps the outcome of storing an account: a taken username is a conflict,
/// any other storage failure is unknown.
pub fn creation_outcome(result: Result<UserId, RepositoryError>, trace_id: &TraceId) -> (r: Result<UserId, ApiError>)
    ensures
        result is Ok <==> r is Ok,
        result is Ok ==> r->Ok_0 == result->Ok_0,
        result is Err && result->Err_0 is Conflict ==> r->Err_0.is_error(ErrorKind::Conflict, *trace_id),
        result is Err && !(result->Err_0 is Conflict) ==> r->Err_0.is_error(ErrorKind::Unknown, *trace_id),
{
    match result {
        Ok(id) => Ok(id),
        Err(RepositoryError::Conflict) => Err(ApiError::Conflict { trace_id: trace_id.duplicate() }),
        Err(_) => Err(ApiError::Unknown { trace_id: trace_id.duplicate() }),
    }
}

/// Maps the outcome of a lookup: a missing record is not-found, any other
/// storage failure is unknown.
pub fn lookup_outcome<T>(result: Result<T, RepositoryError>, trace_id: &TraceId) -> (r: Result<T, ApiError>)
    ensures
        result is Ok <==> r is Ok,
        result is Ok ==> r->Ok_0 == result->Ok_0,
        result is Err && result->Err_0 is NotFound ==> r->Err_0.is_error(ErrorKind::NotFound, *trace_id),
        result is Err && !(result->Err_0 is NotFound) ==> r->Err_0.is_error(ErrorKind::Unknown, *trace_id),
{
    match result {
        Ok(v) => Ok(v),
        Err(RepositoryError::NotFound) => Err(ApiError::NotFound { trace_id: trace_id.duplicate() }),
        Err(_) => Err(ApiError::Unknown { trace_id: trace_id.duplicate() }),
    }
}

/// Whether `password` signs in as `username` in `users`.
pub open spec fn credentials_match(users: Map<Seq<char>, AccountView>, username: Seq<char>, password: Seq<char>) -> bool {
    users.contains_key(username) && users[username].hash == password_hash_of(password, users[username].salt)
}

/// Stores a new account for the request, its password hashed with a fresh salt.
pub fn create_user<R: RandomGenerator>(
    rand: &mut R,
    users: &mut MemoryUsers,
    user: &LoginUserRequest,
    now: i64,
    trace_id: &TraceId,
) -> (r: Result<UserId, ApiError>)
    requires
        old(users).wf(),
    ensures
        final(users).wf(),
        old(users)@.contains_key(user.username.0@) ==> r is Err && r->Err_0.is_error(ErrorKind::Conflict, *trace_id),
        !old(users)@.contains_key(user.username.0@) ==> (r is Ok <==> old(users).has_room()),
        r is Ok ==> {
            let s = final(users)@[user.username.0@].salt;
            final(users)@ == old(users)@.insert(user.username.0@, AccountView {
                id: r->Ok_0,
                hash: password_hash_of(user.password.0@, s),
                salt: s,
                created_at: now,
            })
        },
        r is Ok ==> credentials_match(final(users)@, user.username.0@, user.password.0@),
        r is Err ==> final(users)@ == old(users)@,
{
    let salt = rand.get_salt();
    let password_hash = PasswordHash::new(user.password.as_str(), salt.as_str());
    let result = users.create_user(user.username.as_str(), password_hash, now);
    creation_outcome(result, trace_id)
}

/// The salt stored for `username`.
pub fn get_user_salt(users: &MemoryUsers, username: &str, trace_id: &TraceId) -> (r: Result<String, ApiError>)
    requires
        users.wf(),
    ensures
        r is Ok <==> users@.contains_key(username@),
        r is Ok ==> r->Ok_0@ == users@[username@].salt,
        r is Err ==> r->Err_0.is_error(ErrorKind::NotFound, *trace_id),
{
    lookup_outcome(users.get_user_salt(username), trace_id)
}

/// The id of the account that the credentials sign in to; unknown users
/// and wrong passwords are both not found.
pub fn get_user_id(users: &MemoryUsers, user: &LoginUserRequest, trace_id: &TraceId) -> (r: Result<UserId, ApiError>)
    requires
        users.wf(),
    ensures
        r is Ok <==> credentials_match(users@, user.username.0@, user.password.0@),
        r is Ok ==> r->Ok_0 == users@[user.username.0@].id,
        r is Err ==> r->Err_0.is_error(ErrorKind::NotFound, *trace_id),
{
    let salt = get_user_salt(users, user.username.as_str(), trace_id)?;
    let password_hash = PasswordHash::new(user.password.as_str(), salt.as_str());
    match lookup_outcome(users.get_user(user.username.as_str(), &password_hash), trace_id) {
        Ok(found) => Ok(found.id),
        Err(e) => Err(e),
    }
}

/// Registering and then signing in with the same credentials reaches the
/// new account, and a session issued for it at `now` resolves to that
/// account at any `later` time before it expires.
pub proof fn register_then_login(
    users: Map<Seq<char>, AccountView>,
    username: Seq<char>,
    password: Seq<char>,
    salt: Seq<char>,
    id: UserId,
    created_at: i64,
    sessions: Map<Seq<char>, (UserId, i64)>,
    token: Seq<char>,
    now: i64,
    later: i64,
)
    requires
        !users.contains_key(username),
        now <= later < spec_expiry(now),
    ensures
        ({
            let registered = users.insert(username, AccountView {
                id,
                hash: password_hash_of(password, salt),
                salt,
                created_at,
            });
            let signed_in = sessions.insert(token, (registered[username].id, spec_expiry(now)));
            &&& credentials_match(registered, username, password)
            &&& registered[username].id == id
            &&& live_session(signed_in, token, later)
            &&& signed_in[token].0 == id
        }),
{
}

/// Whether the credentials may be registered.
pub fn check_registration(user: &LoginUserRequest, trace_id: &TraceId) -> (r: Result<(), ApiError>)
    ensures
        r is Ok <==> user_field_issues(user.username.0@, user.password.0@).len() == 0,
        r is Err ==> r->Err_0.is_error(ErrorKind::Validation, *trace_id),
{
    let errors = validate_user(user);
    if !errors.is_empty() {
        return Err(ApiError::Validation { fields: errors, trace_id: trace_id.duplicate() });
    }
    Ok(())
}

/// Registers an account and opens its first session with the first of the
/// drawn tokens that is free (trying at most `SESSION_ATTEMPTS` of them).
pub fn register_user<R: RandomGenerator>(
    rand: &mut R,
    users: &mut MemoryUsers,
    sessions: &mut MemorySessions,
    user: &LoginUserRequest,
    now: i64,
    draws: &Vec<String>,
    trace_id: &TraceId,
) -> (r: Result<LoginUserResponse, ApiError>)
    requires
        old(users).wf(),
        old(sessions).wf(),
    ensures
        final(users).wf(),
        final(sessions).wf(),
        user_field_issues(user.username.0@, user.password.0@).len() > 0 ==> r is Err
            && r->Err_0.is_error(ErrorKind::Validation, *trace_id) && final(users)@ == old(users)@,
        user_field_issues(user.username.0@, user.password.0@).len() == 0 && old(users)@.contains_key(user.username.0@)
            ==> r is Err && r->Err_0.is_error(ErrorKind::Conflict, *trace_id),
        user_field_issues(user.username.0@, user.password.0@).len() == 0 && !old(users)@.contains_key(user.username.0@)
            && old(users).has_room() ==> {
            &&& credentials_match(final(users)@, user.username.0@, user.password.0@)
            &&& r is Ok <==> exists|k: int| first_free_draw(old(sessions)@, token_views(draws@), k)
            &&& r is Err ==> r->Err_0.is_error(ErrorKind::Conflict, *trace_id)
        },
        r is Ok ==> {
            &&& !old(users)@.contains_key(user.username.0@)
            &&& final(users)@.contains_key(user.username.0@)
            &&& final(users)@[user.username.0@].id == r->Ok_0.user_id
            &&& credentials_match(final(users)@, user.username.0@, user.password.0@)
            &&& exists|k: int| first_free_draw(old(sessions)@, token_views(draws@), k)
                && r->Ok_0.session@ == draws@[k]@
            &&& final(sessions)@ == old(sessions)@.insert(r->Ok_0.session@, (r->Ok_0.user_id, spec_expiry(now)))
        },
        r is Err ==> final(sessions)@ == old(sessions)@,
{
    check_registration(user, trace_id)?;
    let user_id = create_user(rand, users, user, now, trace_id)?;
    let session = create_session(sessions, user_id, now, draws, trace_id)?;
    Ok(LoginUserResponse::new(user_id, session))
}

/// Signs in with the credentials and opens a new session with the first of
/// the drawn tokens that is free.
pub fn login_user(
    users: &MemoryUsers,
    sessions: &mut MemorySessions,
    user: &LoginUserRequest,
    now: i64,
    draws: &Vec<String>,
    trace_id: &TraceId,
) -> (r: Result<LoginUserResponse, ApiError>)
    requires
        users.wf(),
        old(sessions).wf(),
    ensures
        final(sessions).wf(),
        !credentials_match(users@, user.username.0@, user.password.0@) ==> r is Err
            && r->Err_0.is_error(ErrorKind::NotFound, *trace_id) && final(sessions)@ == old(sessions)@,
        credentials_match(users@, user.username.0@, user.password.0@) ==> {
            &&& r is Ok <==> exists|k: int| first_free_draw(old(sessions)@, token_views(draws@), k)
            &&& r is Err ==> r->Err_0.is_error(ErrorKind::Conflict, *trace_id) && final(sessions)@ == old(sessions)@
        },
        r is Ok ==> {
            &&& credentials_match(users@, user.username.0@, user.password.0@)
            &&& r->Ok_0.user_id == users@[user.username.0@].id
            &&& exists|k: int| first_free_draw(old(sessions)@, token_views(draws@), k)
                && r->Ok_0.session@ == draws@[k]@
            &&& final(sessions)@ == old(sessions)@.insert(r->Ok_0.session@, (r->Ok_0.user_id, spec_expiry(now)))
        },
{
    let user_id = get_user_id(users, user, trace_id)?;
    let session = create_session(sessions, user_id, now, draws, trace_id)?;
    Ok(LoginUserResponse::new(user_id, session))
}

} // verus!
