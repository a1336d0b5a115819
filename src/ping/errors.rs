use vstd::prelude::*;

verus! {

/// A receive that failed for a reason other than a timeout.
#[derive(Debug, Clone)]
pub enum PingRecvErrs {
    RecvErr(String),
}

#[derive(Debug, Clone)]
pub enum PingErrors {
    /// No socket was there to send on.
    LookupErr,
    /// The platform refused to make the raw socket; the cause as text. No
    /// exchange can follow.
    SocketErr(String),
    /// The send failed; the cause as text.
    PingErr(String),
    /// The payload does not fit in the request buffer.
    PayloadTooLarge,
}

/// A failed send to `target`.
#[derive(Debug, Clone)]
pub struct PingSendError {
    pub target: String,
    pub err: PingErrors,
}

impl PingSendError {
    /// Whether the session cannot go on: without a socket no later exchange
    /// can succeed, while any other failure concerns this exchange alone.
    pub fn is_fatal(&self) -> (r: bool)
        ensures
            r == self.err is SocketErr,
    {
        match &self.err {
            PingErrors::SocketErr(_) => true,
            _ => false,
        }
    }
}

} // verus!
