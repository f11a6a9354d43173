use vstd::prelude::*;

verus! {

/// An error reported by the dynamic loader, holding its message.
pub struct DlError(String);

impl DlError {
    /// The message of the error.
    pub closed spec fn spec_message(&self) -> Seq<char> {
        self.0@
    }

    /// Wraps a loader message into an error.
    pub fn new(message: String) -> (e: DlError)
        ensures
            e.spec_message() == message@,
    {
        DlError(message)
    }

    /// The message carried by the error.
    pub fn message(&self) -> (m: String)
        ensures
            m@ == self.spec_message(),
    {
        self.0.clone()
    }
}

} // verus!
