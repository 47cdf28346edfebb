use vstd::prelude::*;
use vstd::string::StringExecFns;
use crate::error::{ApiError, ErrorKind, RepositoryError, CLEAR_SESSION_COOKIE, SESSION_COOKIE_NAME};
use crate::models::users::User;
use crate::repositories::sessions::{live_session, MemorySessions};
use crate::repositories::users::{has_id, MemoryUsers};
use crate::services::trace::TraceId;

verus! {

/// What `cookie::Cookie::split_parse` yields for a `Cookie` header value:
/// for each non-blank `;`-separated piece, its name and value, or nothing
/// where the piece is not a well-formed cookie.
pub uninterp spec fn cookie_pieces_of(header: Seq<char>) -> Seq<Option<(Seq<char>, Seq<char>)>>;

/// The names and values held in parsed cookie pieces.
pub open spec fn piece_views(v: Seq<Option<(String, String)>>) -> Seq<Option<(Seq<char>, Seq<char>)>> {
    v.map_values(|p: Option<(String, String)>|
        match p {
            Some(q) => Some((q.0@, q.1@)),
            None => None,
        })
}

/// Relies on `cookie::Cookie::split_parse`, `Cookie::name` and
/// `Cookie::value`: the pieces of a `Cookie` header, in order.
#[verifier::external_body]
fn split_cookies(header: &str) -> (r: Vec<Option<(String, String)>>)
    ensures
        piece_views(r@) == cookie_pieces_of(header@),
{
    let mut r = Vec::new();
    for piece in cookie::Cookie::split_parse(header) {
        r.push(match piece {
            Ok(c) => Some((c.name().to_owned(), c.value().to_owned())),
            Err(_) => None,
        });
    }
    r
}

/// The value of the first well-formed piece named `session`.
pub open spec fn first_session_value(pieces: Seq<Option<(Seq<char>, Seq<char>)>>) -> Option<Seq<char>>
    decreases pieces.len(),
{
    if pieces.len() == 0 {
        None
    } else if pieces[0] is Some && pieces[0]->Some_0.0 == SESSION_COOKIE_NAME@ {
        Some(pieces[0]->Some_0.1)
    } else {
        first_session_value(pieces.drop_first())
    }
}

/// The session token carried by the first `Cookie` header that has one.
pub open spec fn session_token_of(headers: Seq<Seq<char>>) -> Option<Seq<char>>
    decreases headers.len(),
{
    if headers.len() == 0 {
        None
    } else if first_session_value(cookie_pieces_of(headers[0])) is Some {
        first_session_value(cookie_pieces_of(headers[0]))
    } else {
        session_token_of(headers.drop_first())
    }
}

/// The value of the first well-formed piece named `session`.
pub fn find_session_cookie(pieces: &Vec<Option<(String, String)>>) -> (r: Option<String>)
    ensures
        match r {
            Some(v) => first_session_value(piece_views(pieces@)) == Some(v@),
            None => first_session_value(piece_views(pieces@)) is None,
        },
{
    let ghost views = piece_views(pieces@);
    let name = String::from_str(SESSION_COOKIE_NAME);
    assert(views.subrange(0, views.len() as int) =~= views);
    let mut i: usize = 0;
    while i < pieces.len()
        invariant
            views == piece_views(pieces@),
            name@ == SESSION_COOKIE_NAME@,
            i <= pieces@.len(),
            first_session_value(views) == first_session_value(views.subrange(i as int, views.len() as int)),
        decreases pieces@.len() - i,
    {
        proof {
            assert(views.subrange(i as int, views.len() as int).drop_first() =~= views.subrange(i + 1, views.len() as int));
            assert(views.subrange(i as int, views.len() as int)[0] == views[i as int]);
        }
        match &pieces[i] {
            Some(p) => {
                if p.0 == name {
                    return Some(p.1.clone());
                }
            },
            None => {},
        }
        i += 1;
    }
    None
}

/// The session token carried by the request's `Cookie` header values.
pub fn session_token(headers: &Vec<String>) -> (r: Option<String>)
    ensures
        match r {
            Some(v) => session_token_of(headers@.map_values(|h: String| h@)) == Some(v@),
            None => session_token_of(headers@.map_values(|h: String| h@)) is None,
        },
{
    let ghost hs = headers@.map_values(|h: String| h@);
    assert(hs.subrange(0, hs.len() as int) =~= hs);
    let mut i: usize = 0;
    while i < headers.len()
        invariant
            hs == headers@.map_values(|h: String| h@),
            i <= headers@.len(),
            session_token_of(hs) == session_token_of(hs.subrange(i as int, hs.len() as int)),
        decreases headers@.len() - i,
    {
        proof {
            assert(hs.subrange(i as int, hs.len() as int).drop_first() =~= hs.subrange(i + 1, hs.len() as int));
            assert(hs.subrange(i as int, hs.len() as int)[0] == hs[i as int]);
        }
        let pieces = split_cookies(headers[i].as_str());
        if let Some(v) = find_session_cookie(&pieces) {
            return Some(v);
        }
        i += 1;
    }
    None
}

/// The caller of an authenticated request: its session and its account.
#[derive(Clone, Debug)]
pub struct Auth {
    pub session: String,
    pub user: User,
}

/// The error for a request without a valid session; its response clears
/// the client's session cookie.
pub fn unauthorized(trace_id: &TraceId) -> (r: ApiError)
    ensures
        r.is_error(ErrorKind::Unauthorized, *trace_id),
        r.spec_status() == 401,
        r.spec_headers().contains(("Set-Cookie"@, CLEAR_SESSION_COOKIE@)),
{
    let r = ApiError::Unauthorized { trace_id: trace_id.duplicate() };
    assert(r.spec_headers()[0] == ("Set-Cookie"@, CLEAR_SESSION_COOKIE@));
    r
}

/// Every unauthorized response is a 401 that clears the session cookie.
pub proof fn unauthorized_clears_cookie(e: ApiError)
    requires
        e.spec_kind() == ErrorKind::Unauthorized,
    ensures
        e.spec_status() == 401,
        e.spec_headers().contains(("Set-Cookie"@, CLEAR_SESSION_COOKIE@)),
{
    assert(e.spec_headers()[0] == ("Set-Cookie"@, CLEAR_SESSION_COOKIE@));
}

/// Completes authentication once the account behind `token` was looked up:
/// any lookup failure is unauthorized.
pub fn auth_from_lookup(token: String, lookup: Result<User, RepositoryError>, trace_id: &TraceId) -> (r:
    Result<Auth, ApiError>)
    ensures
        r is Ok <==> lookup is Ok,
        r is Ok ==> r->Ok_0.session@ == token@ && r->Ok_0.user == lookup->Ok_0,
        r is Err ==> r->Err_0.is_error(ErrorKind::Unauthorized, *trace_id),
{
    match lookup {
        Ok(user) => Ok(Auth { session: token, user }),
        Err(_) => Err(unauthorized(trace_id)),
    }
}

/// Resolves the caller of a request from its `Cookie` header values: the
/// session must be live and its owner must exist. Without a trace id the
/// request was not set up and the failure is internal; every other failure
/// is unauthorized.
pub fn authenticate(
    users: &MemoryUsers,
    sessions: &MemorySessions,
    cookie_headers: &Vec<String>,
    trace_id: Option<&TraceId>,
    now: i64,
) -> (r: Result<Auth, ApiError>)
    requires
        users.wf(),
        sessions.wf(),
    ensures
        trace_id is None ==> r is Err && r->Err_0.spec_kind() == ErrorKind::Internal,
        trace_id is Some ==> (r is Ok <==> ({
            let t = session_token_of(cookie_headers@.map_values(|h: String| h@));
            &&& t is Some
            &&& live_session(sessions@, t->Some_0, now)
            &&& has_id(users@, sessions@[t->Some_0].0)
        })),
        r is Ok ==> {
            let t = session_token_of(cookie_headers@.map_values(|h: String| h@));
            &&& t == Some(r->Ok_0.session@)
            &&& r->Ok_0.user.id == sessions@[r->Ok_0.session@].0
        },
        trace_id is Some && r is Err ==> r->Err_0.is_error(ErrorKind::Unauthorized, *trace_id->Some_0),
{
    let trace_id = match trace_id {
        Some(t) => t,
        None => {
            return Err(ApiError::Internal);
        },
    };
    let token = match session_token(cookie_headers) {
        Some(t) => t,
        None => {
            return Err(unauthorized(trace_id));
        },
    };
    let owner = match sessions.find_by_token(&token, now) {
        Ok(owner) => owner,
        Err(_) => {
            return Err(unauthorized(trace_id));
        },
    };
    auth_from_lookup(token, users.get_user_by_id(owner), trace_id)
}

} // verus!
