use vstd::prelude::*;
use crate::error::{ApiError, ErrorKind, Field, FieldErrors, RepositoryError};
use crate::models::search::{SearchUsersQuery, SearchUsersResponse};
use crate::models::users::{username_issues, PublicUser, User};
use crate::services::trace::TraceId;

verus! {

/// The field errors of a name search.
pub open spec fn search_field_issues(username: Seq<char>) -> Seq<(Field, Seq<Seq<char>>)> {
    if username_issues(username).len() > 0 {
        seq![(Field::Username, username_issues(username))]
    } else {
        Seq::empty()
    }
}

/// Checks the searched name by the rules for usernames.
pub fn validate_search(query: &SearchUsersQuery) -> (r: FieldErrors)
    ensures
        r.view() == search_field_issues(query.username.0@),
{
    let mut errors = FieldErrors::new();
    errors.insert_nonempty(Field::Username, query.username.validate());
    assert(errors.view() =~= search_field_issues(query.username.0@));
    errors
}

/// Whether the search may run.
pub fn check_search(query: &SearchUsersQuery, trace_id: &TraceId) -> (r: Result<(), ApiError>)
    ensures
        r is Ok <==> search_field_issues(query.username.0@).len() == 0,
        r is Err ==> r->Err_0.is_error(ErrorKind::Validation, *trace_id),
{
    let errors = validate_search(query);
    if !errors.is_empty() {
        return Err(ApiError::Validation { fields: errors, trace_id: trace_id.duplicate() });
    }
    Ok(())
}

/// The public view of found accounts; a storage failure is unknown.
pub fn search_outcome(found: Result<Vec<User>, RepositoryError>, trace_id: &TraceId) -> (r: Result<SearchUsersResponse, ApiError>)
    ensures
        r is Ok <==> found is Ok,
        r is Ok ==> r->Ok_0.0@.len() == found->Ok_0@.len() && forall|i: int| 0 <= i < r->Ok_0.0@.len() ==> {
            &&& (#[trigger] r->Ok_0.0@[i]).id == found->Ok_0@[i].id
            &&& r->Ok_0.0@[i].username@ == found->Ok_0@[i].username@
            &&& r->Ok_0.0@[i].created_at == found->Ok_0@[i].created_at
        },
        r is Err ==> r->Err_0.is_error(ErrorKind::Unknown, *trace_id),
{
    match found {
        Ok(users) => {
            let mut out: Vec<PublicUser> = Vec::new();
            let mut i: usize = 0;
            while i < users.len()
                invariant
                    i <= users@.len(),
                    out@.len() == i,
                    forall|j: int| 0 <= j < i ==> {
                        &&& (#[trigger] out@[j]).id == users@[j].id
                        &&& out@[j].username@ == users@[j].username@
                        &&& out@[j].created_at == users@[j].created_at
                    },
                decreases users@.len() - i,
            {
                let u = &users[i];
                out.push(PublicUser { id: u.id, username: u.username.clone(), created_at: u.created_at });
                i += 1;
            }
            Ok(SearchUsersResponse(out))
        },
        Err(_) => Err(ApiError::Unknown { trace_id: trace_id.duplicate() }),
    }
}

} // verus!
