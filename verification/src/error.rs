use vstd::prelude::*;

verus! {

/// Errors of the GNTP client.
#[derive(Debug)]
pub enum GntpError {
    /// The connection to the Growl server could not be made.
    ConnectionError(String),
    /// An I/O operation failed (reading an icon file, talking to the server).
    IoError(String),
    /// The protocol was not followed, or the server answered with an error.
    ProtocolError(String),
}

impl GntpError {
    /// The human-readable message of the error: a prefix naming the kind, then the detail.
    pub open spec fn spec_message(&self) -> Seq<char> {
        match self {
            GntpError::ConnectionError(m) => "Connection error: "@ + m@,
            GntpError::IoError(m) => "I/O error: "@ + m@,
            GntpError::ProtocolError(m) => "Protocol error: "@ + m@,
        }
    }

    /// Renders the error as text.
    pub fn message(&self) -> (r: String)
        ensures
            r@ == self.spec_message(),
    {
        match self {
            GntpError::ConnectionError(m) => "Connection error: ".to_string().concat(m.as_str()),
            GntpError::IoError(m) => "I/O error: ".to_string().concat(m.as_str()),
            GntpError::ProtocolError(m) => "Protocol error: ".to_string().concat(m.as_str()),
        }
    }
}

} // verus!
