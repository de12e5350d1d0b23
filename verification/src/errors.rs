//! Error kinds surfaced by the client: a transport failure, a response body
//! the normalizer rejects, and a classification value outside its closed
//! set.  Only the 202 status leads to an internal retry; every error here is
//! returned to the immediate caller.

use vstd::prelude::*;
use vstd::string::StringExecFns;

verus! {

/// A classification value that is not one of the known wire strings for the
/// operation, reported before any request is issued.
#[derive(Debug)]
pub struct InvalidBGGType {
    invalid_type: String,
    msg: String,
}

impl InvalidBGGType {
    /// The rejected value.
    pub closed spec fn invalid_type_view(&self) -> Seq<char> {
        self.invalid_type@
    }

    /// The accompanying message.
    pub closed spec fn msg_view(&self) -> Seq<char> {
        self.msg@
    }

    pub fn new(invalid_type: &str, msg: &str) -> (r: Self)
        ensures
            r.invalid_type_view() == invalid_type@,
            r.msg_view() == msg@,
    {
        Self { invalid_type: invalid_type.to_owned(), msg: msg.to_owned() }
    }

    /// Renders the error as text.
    pub fn describe(&self) -> (r: String)
        ensures
            r@ == "InvalidBGGType: { type: "@ + self.invalid_type_view() + ", message: "@
                + self.msg_view() + " }"@,
    {
        let mut s = String::new();
        s.append("InvalidBGGType: { type: ");
        s.append(self.invalid_type.as_str());
        s.append(", message: ");
        s.append(self.msg.as_str());
        s.append(" }");
        proof {
            assert(s@ =~= "InvalidBGGType: { type: "@ + self.invalid_type_view() + ", message: "@
                + self.msg_view() + " }"@);
        }
        s
    }
}

/// What a call can fail with: the connection itself (never retried), the
/// conversion of a completed response body, or an argument rejected before
/// any request is made.
#[derive(Debug)]
pub enum BggError {
    Transport,
    Conversion,
    InvalidArgument(InvalidBGGType),
}

} // verus!
