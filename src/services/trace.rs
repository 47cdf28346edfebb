use vstd::prelude::*;

verus! {

/// The text of the small unique id built from `timestamp` and `random`.
pub uninterp spec fn small_uid_text(timestamp: u64, random: u64) -> Seq<char>;

/// Relies on `small_uid::SmallUid::from_parts` and its `Display`: the id
/// assembled from the two parts, written as the URL-safe base64 of its 8
/// big-endian bytes without padding, so 11 characters. Neither call can
/// fail.
#[verifier::external_body]
fn small_uid_from_parts(timestamp: u64, random: u64) -> (r: String)
    ensures
        r@ == small_uid_text(timestamp, random),
        r@.len() == 11,
{
    small_uid::SmallUid::from_parts(timestamp, random).to_string()
}

/// A small unique id from a timestamp in milliseconds and a random number;
/// the caller reads the clock and draws the number.
pub fn uid_from_parts(timestamp: u64, random: u64) -> (r: String)
    ensures
        r@ == small_uid_text(timestamp, random),
        r@.len() == 11,
{
    small_uid_from_parts(timestamp, random)
}

/// Identifier that ties an error reported to a client to the server's logs.
#[derive(Clone, Debug)]
pub struct TraceId(pub String);

impl TraceId {
    /// The trace id built from a timestamp in milliseconds and a random number.
    pub fn new(timestamp: u64, random: u64) -> (r: TraceId)
        ensures
            r.0@ == small_uid_text(timestamp, random),
            r.0@.len() == 11,
    {
        TraceId(small_uid_from_parts(timestamp, random))
    }

    pub fn from_string(id: String) -> (r: TraceId)
        ensures
            r.0@ == id@,
    {
        TraceId(id)
    }

    /// A copy of the id.
    pub fn duplicate(&self) -> (r: TraceId)
        ensures
            r == *self,
    {
        TraceId(self.0.clone())
    }

    pub fn as_str(&self) -> (r: &str)
        ensures
            r@ == self.0@,
    {
        self.0.as_str()
    }
}

} // verus!
