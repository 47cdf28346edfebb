use vstd::prelude::*;
use vstd::string::StringExecFns;
use crate::services::trace::TraceId;

verus! {

/// A request field that validation can reject.
#[derive(Clone, Copy, Debug, PartialEq, Eq, Structural)]
pub enum Field {
    Username,
    Password,
    Title,
    Content,
}

impl Field {
    pub open spec fn spec_name(self) -> Seq<char> {
        match self {
            Field::Username => "username"@,
            Field::Password => "password"@,
            Field::Title => "title"@,
            Field::Content => "content"@,
        }
    }

    /// The key under which the field's messages are reported.
    pub fn name(&self) -> (r: &'static str)
        ensures
            r@ == self.spec_name(),
    {
        match self {
            Field::Username => "username",
            Field::Password => "password",
            Field::Title => "title",
            Field::Content => "content",
        }
    }
}

/// The validation messages of one field.
#[derive(Clone, Debug)]
pub struct FieldIssues {
    pub field: Field,
    pub messages: Vec<String>,
}

impl FieldIssues {
    pub open spec fn view(&self) -> (Field, Seq<Seq<char>>) {
        (self.field, self.messages@.map_values(|m: String| m@))
    }
}

/// Validation failures, grouped by field, each field at most once.
#[derive(Clone, Debug)]
pub struct FieldErrors {
    pub entries: Vec<FieldIssues>,
}

impl FieldErrors {
    pub open spec fn view(&self) -> Seq<(Field, Seq<Seq<char>>)> {
        self.entries@.map_values(|e: FieldIssues| e.view())
    }

    pub fn new() -> (r: FieldErrors)
        ensures
            r.view() == Seq::<(Field, Seq<Seq<char>>)>::empty(),
    {
        let r = FieldErrors { entries: Vec::new() };
        assert(r.view() =~= Seq::<(Field, Seq<Seq<char>>)>::empty());
        r
    }

    /// Records the messages of `field` when there are any.
    pub fn insert_nonempty(&mut self, field: Field, messages: Vec<String>)
        ensures
            final(self).view() == old(self).view() + (if messages@.len() > 0 {
                seq![(field, messages@.map_values(|m: String| m@))]
            } else {
                Seq::empty()
            }),
    {
        let ghost before = self.view();
        if messages.len() > 0 {
            let e = FieldIssues { field, messages };
            self.entries.push(e);
            assert(self.view() =~= before + seq![e.view()]);
        } else {
            assert(self.view() =~= before + Seq::<(Field, Seq<Seq<char>>)>::empty());
        }
    }

    pub fn is_empty(&self) -> (r: bool)
        ensures
            r == (self.view().len() == 0),
    {
        self.entries.len() == 0
    }

    pub fn contains_key(&self, field: Field) -> (r: bool)
        ensures
            r == (exists|i: int| 0 <= i < self.view().len() && self.view()[i].0 == field),
    {
        let mut i: usize = 0;
        while i < self.entries.len()
            invariant
                i <= self.entries@.len(),
                forall|j: int| 0 <= j < i ==> self.view()[j].0 != field,
            decreases self.entries@.len() - i,
        {
            if self.entries[i].field == field {
                assert(self.view()[i as int].0 == field);
                return true;
            }
            i += 1;
        }
        false
    }
}

/// The failures a request can end in, as reported to the client.
#[derive(Clone, Debug)]
pub enum ApiError {
    Unknown { trace_id: TraceId },
    Internal,
    Validation { fields: FieldErrors, trace_id: TraceId },
    Conflict { trace_id: TraceId },
    NotFound { trace_id: TraceId },
    Unauthorized { trace_id: TraceId },
    Forbidden { trace_id: TraceId },
}

/// The kind of an `ApiError`, without its data.
#[derive(Clone, Copy, Debug, PartialEq, Eq, Structural)]
pub enum ErrorKind {
    Unknown,
    Internal,
    Validation,
    Conflict,
    NotFound,
    Unauthorized,
    Forbidden,
}

/// Name of the cookie that carries the session token.
pub const SESSION_COOKIE_NAME: &'static str = "session";

/// `Set-Cookie` value that makes the client drop its session cookie.
pub const CLEAR_SESSION_COOKIE: &'static str = "session=_; Max-Age=0";

impl ApiError {
    pub open spec fn spec_kind(&self) -> ErrorKind {
        match self {
            ApiError::Unknown { .. } => ErrorKind::Unknown,
            ApiError::Internal => ErrorKind::Internal,
            ApiError::Validation { .. } => ErrorKind::Validation,
            ApiError::Conflict { .. } => ErrorKind::Conflict,
            ApiError::NotFound { .. } => ErrorKind::NotFound,
            ApiError::Unauthorized { .. } => ErrorKind::Unauthorized,
            ApiError::Forbidden { .. } => ErrorKind::Forbidden,
        }
    }

    /// The trace id the error carries, if any.
    pub open spec fn spec_trace(&self) -> Option<TraceId> {
        match self {
            ApiError::Unknown { trace_id } => Some(*trace_id),
            ApiError::Internal => None,
            ApiError::Validation { trace_id, .. } => Some(*trace_id),
            ApiError::Conflict { trace_id } => Some(*trace_id),
            ApiError::NotFound { trace_id } => Some(*trace_id),
            ApiError::Unauthorized { trace_id } => Some(*trace_id),
            ApiError::Forbidden { trace_id } => Some(*trace_id),
        }
    }

    /// The error is of kind `kind` and carries the trace id `t`.
    pub open spec fn is_error(&self, kind: ErrorKind, t: TraceId) -> bool {
        self.spec_kind() == kind && self.spec_trace() == Some(t)
    }

    pub fn kind(&self) -> (r: ErrorKind)
        ensures
            r == self.spec_kind(),
    {
        match self {
            ApiError::Unknown { .. } => ErrorKind::Unknown,
            ApiError::Internal => ErrorKind::Internal,
            ApiError::Validation { .. } => ErrorKind::Validation,
            ApiError::Conflict { .. } => ErrorKind::Conflict,
            ApiError::NotFound { .. } => ErrorKind::NotFound,
            ApiError::Unauthorized { .. } => ErrorKind::Unauthorized,
            ApiError::Forbidden { .. } => ErrorKind::Forbidden,
        }
    }

    pub open spec fn spec_status(&self) -> u16 {
        match self.spec_kind() {
            ErrorKind::Unknown => 500,
            ErrorKind::Internal => 500,
            ErrorKind::Validation => 400,
            ErrorKind::Conflict => 409,
            ErrorKind::NotFound => 404,
            ErrorKind::Unauthorized => 401,
            ErrorKind::Forbidden => 403,
        }
    }

    /// HTTP status code of the response that carries this error.
    pub fn status(&self) -> (r: u16)
        ensures
            r == self.spec_status(),
    {
        match self.kind() {
            ErrorKind::Unknown => 500,
            ErrorKind::Internal => 500,
            ErrorKind::Validation => 400,
            ErrorKind::Conflict => 409,
            ErrorKind::NotFound => 404,
            ErrorKind::Unauthorized => 401,
            ErrorKind::Forbidden => 403,
        }
    }

    /// The `type` tag of the error body.
    pub fn type_tag(&self) -> (r: &'static str)
        ensures
            r@ == match self.spec_kind() {
                ErrorKind::Unknown => "Unknown"@,
                ErrorKind::Internal => "Internal"@,
                ErrorKind::Validation => "Validation"@,
                ErrorKind::Conflict => "Conflict"@,
                ErrorKind::NotFound => "NotFound"@,
                ErrorKind::Unauthorized => "Unauthorized"@,
                ErrorKind::Forbidden => "Forbidden"@,
            },
    {
        match self.kind() {
            ErrorKind::Unknown => "Unknown",
            ErrorKind::Internal => "Internal",
            ErrorKind::Validation => "Validation",
            ErrorKind::Conflict => "Conflict",
            ErrorKind::NotFound => "NotFound",
            ErrorKind::Unauthorized => "Unauthorized",
            ErrorKind::Forbidden => "Forbidden",
        }
    }

    pub open spec fn spec_headers(&self) -> Seq<(Seq<char>, Seq<char>)> {
        if self.spec_kind() == ErrorKind::Unauthorized {
            seq![("Set-Cookie"@, CLEAR_SESSION_COOKIE@), ("Location"@, "/unauthorized"@)]
        } else {
            Seq::empty()
        }
    }

    /// Extra response headers: an unauthorized response clears the
    /// client's session cookie and points it to the sign-in page.
    pub fn headers(&self) -> (r: Vec<(String, String)>)
        ensures
            r@.map_values(|h: (String, String)| (h.0@, h.1@)) == self.spec_headers(),
    {
        let mut r: Vec<(String, String)> = Vec::new();
        if let ApiError::Unauthorized { .. } = self {
            r.push((String::from_str("Set-Cookie"), String::from_str(CLEAR_SESSION_COOKIE)));
            r.push((String::from_str("Location"), String::from_str("/unauthorized")));
        }
        assert(r@.map_values(|h: (String, String)| (h.0@, h.1@)) =~= self.spec_headers());
        r
    }
}

/// Failures of a storage collaborator.
#[derive(Clone, Debug)]
pub enum RepositoryError {
    /// An unexpected failure, with its description.
    Unknown(String),
    /// A uniqueness rule was broken.
    Conflict,
    /// No matching record.
    NotFound,
}

impl RepositoryError {
    /// Classifies a storage failure: a uniqueness violation is a conflict,
    /// a missing row is not-found, anything else is unknown.
    pub fn from_database(unique_violation: bool, row_not_found: bool, detail: String) -> (r:
        RepositoryError)
        ensures
            unique_violation ==> r is Conflict,
            !unique_violation && row_not_found ==> r is NotFound,
            !unique_violation && !row_not_found ==> r == RepositoryError::Unknown(detail),
    {
        if unique_violation {
            RepositoryError::Conflict
        } else if row_not_found {
            RepositoryError::NotFound
        } else {
            RepositoryError::Unknown(detail)
        }
    }
}

} // verus!
