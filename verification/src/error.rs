//! Typed failures of a transfer.

use crate::text::{decimal, push_decimal, push_str, string_of};
use vstd::prelude::*;

verus! {

/// The two independent timeout axes of a transfer.
#[derive(Debug, Clone, Copy, PartialEq, Eq, Structural)]
pub enum TimeoutError {
    /// No chunk arrived within the idle timeout, given in seconds.
    IdleTimeout(u64),
    /// The initial connection attempt stalled.
    ConnectTimeout,
}

impl TimeoutError {
    /// The text shown to the user for this timeout.
    pub open spec fn message_spec(self) -> Seq<char> {
        match self {
            TimeoutError::IdleTimeout(secs) => "Idle timeout: no data received for "@ + decimal(
                secs as nat,
            ) + "s"@,
            TimeoutError::ConnectTimeout => "Connection timeout"@,
        }
    }

    /// The text shown to the user for this timeout.
    pub fn message(&self) -> (r: String)
        ensures
            r@ == self.message_spec(),
    {
        let mut out: Vec<char> = Vec::new();
        match self {
            TimeoutError::IdleTimeout(secs) => {
                push_str(&mut out, "Idle timeout: no data received for ");
                push_decimal(&mut out, *secs);
                push_str(&mut out, "s");
            },
            TimeoutError::ConnectTimeout => {
                push_str(&mut out, "Connection timeout");
            },
        }
        assert(out@ =~= self.message_spec());
        string_of(&out)
    }
}

/// Why a transfer or the construction of its client failed.
#[derive(Debug, Clone, Copy, PartialEq, Eq, Structural)]
pub enum TransferError {
    /// The connection attempt or the wait for the next chunk timed out.
    Timeout(TimeoutError),
    /// The server answered with a status that the transfer cannot go on with.
    Protocol(u16),
    /// The transport failed.
    Network,
    /// The input was malformed.
    Configuration,
    /// The destination could not be created, opened or written.
    Filesystem,
    /// A feature was asked for that this build does not have.
    UnsupportedFeature,
}

impl TransferError {
    /// Whether the transfer may be taken up again from the bytes already
    /// written: so after an idle timeout or a transport failure, and not
    /// after a protocol error.
    pub open spec fn resumable(self) -> bool {
        match self {
            TransferError::Timeout(TimeoutError::IdleTimeout(_)) => true,
            TransferError::Network => true,
            _ => false,
        }
    }

    /// Whether the transfer may be taken up again from the bytes already
    /// written.
    pub fn is_resumable(&self) -> (r: bool)
        ensures
            r == self.resumable(),
    {
        match self {
            TransferError::Timeout(TimeoutError::IdleTimeout(_)) => true,
            TransferError::Network => true,
            _ => false,
        }
    }

    /// Whether this is one of the two timeouts.
    pub fn is_timeout(&self) -> (r: bool)
        ensures
            r == (*self is Timeout),
    {
        match self {
            TransferError::Timeout(_) => true,
            _ => false,
        }
    }
}

} // verus!
