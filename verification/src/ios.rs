//! The last-error slot of the C interface: the message of the most recent
//! failing call, cleared at the start of each call that can fail.
use vstd::prelude::*;

use crate::gpmf_lens::opt_string_view;

verus! {

/// Holds the message of the most recent failure, if any.
pub struct LastError {
    message: Option<String>,
}

impl View for LastError {
    type V = Option<Seq<char>>;

    closed spec fn view(&self) -> Option<Seq<char>> {
        opt_string_view(self.message)
    }
}

impl LastError {
    /// A slot that holds no message.
    pub fn new() -> (r: Self)
        ensures
            r@ is None,
    {
        LastError { message: None }
    }

    /// Records `message` as the last error, replacing any earlier one.
    pub fn set_last_error(&mut self, message: String)
        ensures
            final(self)@ == Some(message@),
    {
        self.message = Some(message);
    }

    /// Forgets the last error.
    pub fn clear_last_error(&mut self)
        ensures
            final(self)@ is None,
    {
        self.message = None;
    }

    /// A copy of the last error message, if there is one.
    pub fn last_error(&self) -> (r: Option<String>)
        ensures
            opt_string_view(r) == self@,
    {
        match &self.message {
            Some(m) => Some(m.clone()),
            None => None,
        }
    }
}

} // verus!
