//! The tracker's answer to an announce: the peers of the swarm and when to
//! ask again, or the reason it refused.

use super::peers::{spells_addresses, PeerAddresses, SocketAddress};
use crate::error::TrackerError;
use vstd::prelude::*;
use vstd::string::*;

verus! {

/// A successful answer.
#[derive(Debug, Clone, PartialEq, Eq)]
pub struct TrackerResponse {
    /// The seconds to wait before the next announce.
    pub request_interval_seconds: u64,
    /// The peers of the swarm.
    pub peer_addreses: Vec<SocketAddress>,
}

/// An answer as it is decoded: a success, or a failure with its reason.
#[derive(Debug, Clone)]
pub enum TrackerResponseResult {
    Success(TrackerResponse),
    Failure { failure_reason: String },
}

/// The message of a failure that the tracker gave `reason` for.
pub open spec fn failure_message(reason: Seq<char>) -> Seq<char> {
    reason + " (Tracker)"@
}

impl TrackerResponseResult {
    /// The answer as a `Result`: the response, or the tracker's reason marked
    /// as coming from the tracker.
    pub fn into_result(self) -> (result: Result<TrackerResponse, TrackerError>)
        ensures
            match self {
                TrackerResponseResult::Success(response) => result == Ok::<_, TrackerError>(
                    response,
                ),
                TrackerResponseResult::Failure { failure_reason } => match result {
                    Err(TrackerError::Failure(message)) => message@ == failure_message(
                        failure_reason@,
                    ),
                    _ => false,
                },
            },
    {
        match self {
            TrackerResponseResult::Success(tracker_response) => Ok(tracker_response),
            TrackerResponseResult::Failure { failure_reason } => Err(
                TrackerError::Failure(failure_reason.concat(" (Tracker)")),
            ),
        }
    }
}

/// Decodes the compact peer list of a response: see `PeerAddresses::from_compact`.
pub fn deserialize_socket_addrs(bytes: &[u8]) -> (result: Result<Vec<SocketAddress>, TrackerError>)
    ensures
        bytes@.len() % 6 != 0 ==> result == Err::<Vec<SocketAddress>, _>(
            TrackerError::MalformedPeers,
        ),
        bytes@.len() % 6 == 0 ==> result.is_ok() && spells_addresses(bytes@, result.unwrap()@),
{
    match PeerAddresses::from_compact(bytes) {
        Ok(addresses) => Ok(addresses.0),
        Err(error) => Err(error),
    }
}

} // verus!
