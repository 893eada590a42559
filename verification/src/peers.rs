//! Which peers may deliver storefront notifications.

use vstd::prelude::*;

verus! {

/// An internet address, as the number that its bytes make in network order.
#[derive(Clone, Copy, Debug, PartialEq, Eq, Structural)]
pub enum IpAddress {
    V4(u32),
    V6(u128),
}

/// Whether a notification is let in: every peer where no whitelist is
/// configured; otherwise only a peer whose address is known and stands on
/// the list.
pub open spec fn whitelisted(peer_ip: Option<IpAddress>, whitelist: Option<Seq<IpAddress>>) -> bool {
    match whitelist {
        None => true,
        Some(list) => match peer_ip {
            Some(ip) => list.contains(ip),
            None => false,
        },
    }
}

/// The whitelist as a sequence.
pub open spec fn listed(whitelist: Option<Vec<IpAddress>>) -> Option<Seq<IpAddress>> {
    match whitelist {
        Some(v) => Some(v@),
        None => None,
    }
}

/// Decides whether a notification from `peer_ip` is let in.
pub fn is_whitelisted(peer_ip: Option<IpAddress>, shopify_whitelist: &Option<Vec<IpAddress>>) -> (r:
    bool)
    ensures
        r == whitelisted(peer_ip, listed(*shopify_whitelist)),
{
    match shopify_whitelist {
        None => true,
        Some(whitelist) => match peer_ip {
            None => false,
            Some(ip) => {
                let mut i: usize = 0;
                while i < whitelist.len()
                    invariant
                        listed(*shopify_whitelist) == Some(whitelist@),
                        peer_ip == Some(ip),
                        i <= whitelist.len(),
                        forall|k: int| 0 <= k < i ==> whitelist@[k] != ip,
                    decreases whitelist.len() - i,
                {
                    if whitelist[i] == ip {
                        assert(whitelist@[i as int] == ip);
                        assert(whitelist@.contains(ip));
                        return true;
                    }
                    i = i + 1;
                }
                assert(!whitelist@.contains(ip));
                false
            },
        },
    }
}

} // verus!
