//! The failures a command can end in, and the message shown for each.
use vstd::prelude::*;

verus! {

/// The RPC status code with which a server says it cannot be reached.
pub const UNAVAILABLE: i32 = 14;

/// Why a command failed.
pub enum Error {
    /// The server answered an RPC with a failure status, perhaps with details.
    RpcFailure { code: i32, details: Option<String> },
    /// The database client failed in another way; this is its own description.
    Client(String),
    /// The server's answer could not be parsed.
    ParsingFailed,
}

/// The message shown for a failure.
pub open spec fn error_text(e: Error) -> Seq<char> {
    match e {
        Error::RpcFailure { code, details } => if code == UNAVAILABLE {
            match details {
                Some(d) => "Server is unavailable: "@ + d@,
                None => "Server is unavailable."@,
            }
        } else {
            match details {
                Some(d) => "RPC error: "@ + d@,
                None => "RPC error."@,
            }
        },
        Error::Client(m) => "Dgraph error: "@ + m@,
        Error::ParsingFailed => "Parsing of result failed."@,
    }
}

impl Error {
    /// The message shown for this failure: an unreachable server and other
    /// RPC failures are told apart, each with its details when there are any.
    pub fn message(&self) -> (r: String)
        ensures
            r@ == error_text(*self),
    {
        match self {
            Error::RpcFailure { code, details } => {
                if *code == UNAVAILABLE {
                    match details {
                        Some(d) => String::from_str("Server is unavailable: ").concat(d.as_str()),
                        None => String::from_str("Server is unavailable."),
                    }
                } else {
                    match details {
                        Some(d) => String::from_str("RPC error: ").concat(d.as_str()),
                        None => String::from_str("RPC error."),
                    }
                }
            },
            Error::Client(m) => String::from_str("Dgraph error: ").concat(m.as_str()),
            Error::ParsingFailed => String::from_str("Parsing of result failed."),
        }
    }
}

} // verus!
