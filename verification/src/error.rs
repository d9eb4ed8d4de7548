use vstd::prelude::*;

verus! {

/// Opaque error from starting a watcher.
#[derive(Debug)]
pub struct Error {
    message: &'static str,
}

/// The text of the error that a platform without a backend reports.
pub open spec fn unsupported_message() -> Seq<char> {
    "powerwatch is not supported on this platform"@
}

impl Error {
    /// The text that the error carries.
    pub closed spec fn text(&self) -> Seq<char> {
        self.message@
    }

    /// The error of a platform without a backend.
    pub fn unsupported() -> (e: Self)
        ensures
            e.text() == unsupported_message(),
    {
        Self { message: "powerwatch is not supported on this platform" }
    }

    /// An error raised by the platform backend, with the given text.
    pub fn platform(message: &'static str) -> (e: Self)
        ensures
            e.text() == message@,
    {
        Self { message }
    }

    /// The human-readable text of the error.
    pub fn message(&self) -> (m: &'static str)
        ensures
            m@ == self.text(),
    {
        self.message
    }
}

} // verus!
