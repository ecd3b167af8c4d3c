use vstd::prelude::*;

verus! {

/// Errors surfaced to code awaiting a value produced by the host side.
#[derive(Debug, PartialEq, Eq)]
pub enum Error {
    /// The host-side promise was rejected; carries the host's description of
    /// the failure.
    LwtPromiseRejection(String),
}

pub open spec fn rejection_prefix() -> Seq<char> {
    "LWT promise was rejected with exception: "@
}

impl Error {
    /// The human-readable description of this error.
    pub open spec fn message_spec(&self) -> Seq<char> {
        match self {
            Error::LwtPromiseRejection(msg) => rejection_prefix() + msg@,
        }
    }

    /// Renders the error as text, e.g.
    /// `LWT promise was rejected with exception: boom`.
    pub fn message(&self) -> (r: String)
        ensures
            r@ == self.message_spec(),
    {
        proof {
            reveal_strlit("LWT promise was rejected with exception: ");
        }
        match self {
            Error::LwtPromiseRejection(msg) => {
                let mut s = String::from_str("LWT promise was rejected with exception: ");
                s.append(msg.as_str());
                s
            },
        }
    }
}

} // verus!
