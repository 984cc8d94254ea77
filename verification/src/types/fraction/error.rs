//! The error that fraction operations report.

use vstd::prelude::*;

verus! {

/// The message of the error for a denominator of zero.
pub const DENOMINATOR_ZERO: &'static str = "Denominator cannot be 0";

/// The message of the error for a result that the machine integers cannot
/// hold.
pub const OVERFLOW: &'static str = "Arithmetic overflow";

/// Why a fraction could not be made. The view is the message.
#[derive(Debug)]
pub struct FractionError {
    details: String,
}

impl View for FractionError {
    type V = Seq<char>;

    closed spec fn view(&self) -> Seq<char> {
        self.details@
    }
}

impl FractionError {
    /// An error with the message `msg`.
    pub fn new(msg: &str) -> (e: FractionError)
        ensures
            e@ == msg@,
    {
        FractionError { details: msg.to_owned() }
    }

    /// The message, borrowed.
    pub fn description(&self) -> (s: &str)
        ensures
            s@ == self@,
    {
        self.details.as_str()
    }

    /// The message, as an owned string.
    pub fn to_string(&self) -> (s: String)
        ensures
            s@ == self@,
    {
        self.details.clone()
    }
}

/// The two messages differ, so an error tells which of the two it is.
pub proof fn lemma_messages_differ()
    ensures
        DENOMINATOR_ZERO@ != OVERFLOW@,
{
    reveal_strlit("Denominator cannot be 0");
    reveal_strlit("Arithmetic overflow");
    assert(DENOMINATOR_ZERO@.len() == 23);
    assert(OVERFLOW@.len() == 19);
}

} // verus!
