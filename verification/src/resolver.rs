//! The address resolver: decides, from the peer address and the request's
//! headers, which IP address to report.

use vstd::prelude::*;
use crate::addr::{loopback_ip, IpAddress, PeerAddress};

verus! {

/// The headers of a request, as name/value pairs in the order delivered.
/// The resolver takes them but no current policy reads them: the parameter
/// is a seam for a future trusted-proxy policy, kept on purpose.
pub type RequestHeaders = Vec<(String, String)>;

/// The resolution policy: how the service decides which address to report.
/// `Loopback` is a stub that answers every request with the local loopback
/// address; `PeerIp` reports the transport-level address of the connecting
/// socket, and is the default.
#[derive(Clone, Copy, Debug, PartialEq, Eq, Structural)]
pub enum Policy {
    Loopback,
    PeerIp,
}

/// What `resolve` returns: the loopback address under `Policy::Loopback`,
/// the peer's own IP under `Policy::PeerIp`. No policy reads the headers.
pub open spec fn resolve_spec(
    policy: Policy,
    headers: Seq<(String, String)>,
    peer: PeerAddress,
) -> IpAddress {
    match policy {
        Policy::Loopback => loopback_ip(),
        Policy::PeerIp => peer.ip,
    }
}

/// Resolve the address to report for one request. Total: it cannot fail for
/// any peer address or header set.
pub fn resolve(policy: Policy, headers: &RequestHeaders, peer: &PeerAddress) -> (r: IpAddress)
    ensures
        r == resolve_spec(policy, headers@, *peer),
{
    match policy {
        Policy::Loopback => IpAddress::V4(127, 0, 0, 1),
        Policy::PeerIp => peer.ip,
    }
}

/// Under the peer-address policy the result is the peer's IP, whatever the
/// headers hold: headers never influence the result.
pub proof fn lemma_peer_policy_ignores_headers(
    h1: Seq<(String, String)>,
    h2: Seq<(String, String)>,
    peer: PeerAddress,
)
    ensures
        resolve_spec(Policy::PeerIp, h1, peer) == peer.ip,
        resolve_spec(Policy::PeerIp, h1, peer) == resolve_spec(Policy::PeerIp, h2, peer),
{
}

/// Under the loopback policy the result is the loopback address for every
/// header set and every peer.
pub proof fn lemma_loopback_policy_is_constant(
    h1: Seq<(String, String)>,
    peer1: PeerAddress,
    h2: Seq<(String, String)>,
    peer2: PeerAddress,
)
    ensures
        resolve_spec(Policy::Loopback, h1, peer1) == loopback_ip(),
        resolve_spec(Policy::Loopback, h1, peer1) == resolve_spec(Policy::Loopback, h2, peer2),
{
}

} // verus!
