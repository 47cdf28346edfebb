use vstd::prelude::*;

verus! {

/// Identifier of a registered user.
#[derive(Clone, Copy, Debug, PartialEq, Eq, Hash, Structural)]
pub struct UserId(pub i32);

impl UserId {
    pub fn new(id: i32) -> (r: Self)
        ensures
            r.0 == id,
    {
        UserId(id)
    }

    pub fn get(&self) -> (r: i32)
        ensures
            r == self.0,
    {
        self.0
    }
}

impl From<i32> for UserId {
    fn from(value: i32) -> (r: Self) {
        UserId(value)
    }
}

impl vstd::std_specs::convert::FromSpecImpl<i32> for UserId {
    open spec fn obeys_from_spec() -> bool {
        true
    }

    open spec fn from_spec(v: i32) -> UserId {
        UserId(v)
    }
}

/// Identifier of a chat.
#[derive(Clone, Copy, Debug, PartialEq, Eq, Hash, Structural)]
pub struct ChatId(pub i32);

impl ChatId {
    pub fn new(id: i32) -> (r: Self)
        ensures
            r.0 == id,
    {
        ChatId(id)
    }

    pub fn get(&self) -> (r: i32)
        ensures
            r == self.0,
    {
        self.0
    }
}

impl From<i32> for ChatId {
    fn from(value: i32) -> (r: Self) {
        ChatId(value)
    }
}

impl vstd::std_specs::convert::FromSpecImpl<i32> for ChatId {
    open spec fn obeys_from_spec() -> bool {
        true
    }

    open spec fn from_spec(v: i32) -> ChatId {
        ChatId(v)
    }
}

/// Identifier of a stored message; later messages carry larger ids.
#[derive(Clone, Copy, Debug, PartialEq, Eq, Hash, Structural)]
pub struct MessageId(pub i64);

impl MessageId {
    pub fn new(id: i64) -> (r: Self)
        ensures
            r.0 == id,
    {
        MessageId(id)
    }

    pub fn get(&self) -> (r: i64)
        ensures
            r == self.0,
    {
        self.0
    }
}

impl From<i64> for MessageId {
    fn from(value: i64) -> (r: Self) {
        MessageId(value)
    }
}

impl vstd::std_specs::convert::FromSpecImpl<i64> for MessageId {
    open spec fn obeys_from_spec() -> bool {
        true
    }

    open spec fn from_spec(v: i64) -> MessageId {
        MessageId(v)
    }
}

} // verus!
