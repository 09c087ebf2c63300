use vstd::prelude::*;

verus! {

// Small records of the pairing sketch that lives beside the key-event core.

/// An authentication token: equal exactly when the identifiers are equal.
pub struct Token {
    pub uuid: String,
}

impl PartialEq for Token {
    fn eq(&self, other: &Self) -> (r: bool)
        ensures
            r == (self.uuid@ == other.uuid@),
    {
        self.uuid == other.uuid
    }
}

impl vstd::std_specs::cmp::PartialEqSpecImpl for Token {
    open spec fn obeys_eq_spec() -> bool {
        true
    }

    open spec fn eq_spec(&self, other: &Self) -> bool {
        self.uuid@ == other.uuid@
    }
}

/// A pairing event: a token identifier and the message it carries.
pub struct Event {
    pub uuid: String,
    pub msg: Message,
}

/// Declares std's integer-parse error type, which `FromStr` names as its
/// error; parsing a message never actually fails.
#[verifier::external_type_specification]
#[verifier::external_body]
pub struct ExParseIntError(core::num::ParseIntError);

/// A plain text message.
pub struct Message {
    payload: String,
}

impl core::str::FromStr for Message {
    type Err = core::num::ParseIntError;

    fn from_str(s: &str) -> Result<Self, Self::Err> {
        Ok(Message { payload: <String as vstd::string::StringExecFns>::from_str(s) })
    }
}

impl Message {
    /// Builds a message holding `payload`.
    pub fn new(payload: &str) -> (r: Self)
        ensures
            r.text_view() == payload@,
    {
        Message { payload: <String as vstd::string::StringExecFns>::from_str(payload) }
    }

    pub closed spec fn text_view(&self) -> Seq<char> {
        self.payload@
    }

    /// The carried text.
    pub fn text(&self) -> (r: &str)
        ensures
            r@ == self.text_view(),
    {
        self.payload.as_str()
    }
}

} // verus!
