use vstd::prelude::*;

verus! {

/// Why the server refused a connection.
#[derive(Copy, Clone, PartialEq, Eq, Debug, Structural)]
pub enum ErrorKind {
    AlreadyConnected,
    Other,
}

impl ErrorKind {
    pub open spec fn spec_message(self) -> Seq<char> {
        match self {
            ErrorKind::AlreadyConnected => "Client already connected"@,
            ErrorKind::Other => "Other error"@,
        }
    }

    /// The text that describes the kind of error.
    pub fn message(&self) -> (r: &'static str)
        ensures
            r@ == self.spec_message(),
    {
        match self {
            ErrorKind::AlreadyConnected => "Client already connected",
            ErrorKind::Other => "Other error",
        }
    }
}

/// A network error that the server reports to a client.
#[derive(Copy, Clone, PartialEq, Eq, Debug, Structural)]
pub struct Error {
    pub error_kind: ErrorKind,
}

impl Error {
    pub fn new(error_kind: ErrorKind) -> (r: Error)
        ensures
            r.error_kind == error_kind,
    {
        Error { error_kind }
    }

    pub open spec fn spec_message(self) -> Seq<char> {
        "Westiny network error: "@ + self.error_kind.spec_message()
    }

    /// The text that describes the error.
    pub fn message(&self) -> (r: String)
        ensures
            r@ == self.spec_message(),
    {
        let mut text = String::from_str("Westiny network error: ");
        text.append(self.error_kind.message());
        text
    }
}

} // verus!
