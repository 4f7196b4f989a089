//! The allowed-prefix filter: which destinations a peer is sent packets for.

use ipnetwork::Ipv4Network;
use vstd::prelude::*;

use crate::config::{IpNetwork, Peer, PeerView};

verus! {

/// The IPv4 netmask whose first `prefix` bits are set.
pub open spec fn netmask(prefix: u8) -> u32 {
    if prefix == 0 {
        0
    } else {
        0xffff_ffffu32 << ((32 - prefix) as u32)
    }
}

/// The netmask is what is left of thirty-two set bits, held in sixty-four,
/// once they are shifted down by the prefix and then flipped.
pub proof fn lemma_netmask_flips_the_host_bits(prefix: u8)
    requires
        prefix <= 32,
    ensures
        netmask(prefix) == (!(0xffff_ffffu64 >> (prefix as u64))) as u32,
{
    assert(prefix <= 32 ==> (if prefix == 0 {
        0u32
    } else {
        0xffff_ffffu32 << ((32 - prefix) as u32)
    }) == (!(0xffff_ffffu64 >> (prefix as u64))) as u32) by (bit_vector);
}

/// Whether `ip` lies in the IPv4 block of `addr` with the first `prefix` bits
/// counting: the two agree on those bits.
pub open spec fn v4_block_contains(addr: u32, prefix: u8, ip: u32) -> bool {
    ip & netmask(prefix) == addr & netmask(prefix)
}

/// Whether `network` contains the IPv4 address `ip`. An IPv6 block contains
/// none, and neither does a block whose prefix is longer than an address.
pub open spec fn network_contains(network: IpNetwork, ip: u32) -> bool {
    match network {
        IpNetwork::V4 { addr, prefix } => prefix <= 32 && v4_block_contains(addr, prefix, ip),
        IpNetwork::V6 { .. } => false,
    }
}

/// Whether at least one block of `networks` contains `ip`.
pub open spec fn is_allowed(ip: u32, networks: Seq<IpNetwork>) -> bool {
    exists|i: int| 0 <= i < networks.len() && network_contains(#[trigger] networks[i], ip)
}

/// Whether packets for `ip` go to `peer`.
pub open spec fn peer_allows(peer: PeerView, ip: u32) -> bool {
    is_allowed(ip, peer.allowedips)
}

/// Calls `ipnetwork::Ipv4Network::contains` on the block made by
/// `Ipv4Network::new`. Trusted: `new` accepts every prefix up to 32, and
/// `contains` compares the two addresses under the mask of the prefix.
#[verifier::external_body]
fn ipv4_network_contains(addr: u32, prefix: u8, ip: u32) -> (r: bool)
    requires
        prefix <= 32,
    ensures
        r == v4_block_contains(addr, prefix, ip),
{
    match Ipv4Network::new(addr.into(), prefix) {
        Ok(network) => network.contains(ip.into()),
        Err(_) => false,
    }
}

/// Whether `network` contains the IPv4 address `ip`.
pub fn contains_ip(network: &IpNetwork, ip: u32) -> (r: bool)
    ensures
        r == network_contains(*network, ip),
{
    match *network {
        IpNetwork::V4 { addr, prefix } => prefix <= 32 && ipv4_network_contains(addr, prefix, ip),
        IpNetwork::V6 { .. } => false,
    }
}

/// Whether packets for the IPv4 address `ip` go to `peer`: whether at least
/// one of the peer's address blocks contains it. With no block, none do.
pub fn check_peer_allowed_ip(ip: u32, peer: &Peer) -> (allowed: bool)
    ensures
        allowed == peer_allows(peer@, ip),
        allowed <==> exists|i: int|
            0 <= i < peer@.allowedips.len() && network_contains(#[trigger] peer@.allowedips[i], ip),
{
    let networks = peer.allowed_ips();
    let mut allowed = false;
    let mut i: usize = 0;
    while i < networks.len()
        invariant
            i <= networks@.len(),
            allowed == is_allowed(ip, networks@.take(i as int)),
        decreases networks@.len() - i,
    {
        let ghost seen = networks@.take(i as int);
        let ghost more = networks@.take(i + 1);
        let hit = contains_ip(&networks[i], ip);
        proof {
            assert(more =~= seen.push(networks@[i as int]));
            if hit {
                assert(network_contains(more[i as int], ip));
            }
            if is_allowed(ip, seen) {
                let w = choose|w: int| 0 <= w < seen.len() && network_contains(#[trigger] seen[w], ip);
                assert(network_contains(more[w], ip));
            }
            if is_allowed(ip, more) {
                let w = choose|w: int| 0 <= w < more.len() && network_contains(#[trigger] more[w], ip);
                if w < i {
                    assert(network_contains(seen[w], ip));
                }
            }
        }
        if hit {
            allowed = true;
        }
        i = i + 1;
    }
    assert(networks@.take(networks@.len() as int) =~= networks@);
    allowed
}

/// A peer without address blocks is sent nothing.
pub proof fn lemma_empty_list_allows_nothing(ip: u32)
    ensures
        !is_allowed(ip, Seq::empty()),
{
}

/// Whether an address is allowed does not depend on the order of the blocks.
pub proof fn lemma_allowed_whatever_the_order(ip: u32, a: Seq<IpNetwork>, b: Seq<IpNetwork>)
    requires
        a.to_multiset() == b.to_multiset(),
    ensures
        is_allowed(ip, a) == is_allowed(ip, b),
{
    lemma_allowed_of_members(ip, a, b);
    lemma_allowed_of_members(ip, b, a);
}

proof fn lemma_allowed_of_members(ip: u32, a: Seq<IpNetwork>, b: Seq<IpNetwork>)
    requires
        a.to_multiset() == b.to_multiset(),
    ensures
        is_allowed(ip, a) ==> is_allowed(ip, b),
{
    if is_allowed(ip, a) {
        let w = choose|w: int| 0 <= w < a.len() && network_contains(#[trigger] a[w], ip);
        broadcast use vstd::seq_lib::group_to_multiset_ensures;
        assert(a.contains(a[w]));
        assert(a.to_multiset().count(a[w]) > 0);
        assert(b.to_multiset().count(a[w]) > 0);
        assert(b.contains(a[w]));
        let v = choose|v: int| 0 <= v < b.len() && b[v] == a[w];
        assert(network_contains(b[v], ip));
    }
}

} // verus!
