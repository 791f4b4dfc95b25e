//! An error together with what caused it: the message says what failed, and
//! the cause, where there is one, says why.
use vstd::prelude::*;

verus! {

#[derive(Debug, Clone, PartialEq, Eq)]
pub struct Failure {
    pub message: String,
    pub cause: Option<String>,
}

/// A failure read as text.
pub struct FailureView {
    pub message: Seq<char>,
    pub cause: Option<Seq<char>>,
}

impl View for Failure {
    type V = FailureView;

    open spec fn view(&self) -> FailureView {
        FailureView {
            message: self.message@,
            cause: match self.cause {
                Some(c) => Some(c@),
                None => None,
            },
        }
    }
}

impl Failure {
    /// The failure `message`, caused by `cause`.
    pub fn caused(message: String, cause: String) -> (r: Failure)
        ensures
            r@ == (FailureView { message: message@, cause: Some(cause@) }),
    {
        Failure { message, cause: Some(cause) }
    }
}

} // verus!
