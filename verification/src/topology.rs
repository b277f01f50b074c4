//! Where the participants of a datagram transport listen: one loopback port per rank.

use vstd::prelude::*;

verus! {

/// The port of rank 0.
pub const BASE_PORT: u16 = 8080;

/// The number of ranks whose ports lie above `BASE_PORT` without wrapping round.
pub const MAX_DISTINCT: u32 = 57456;

/// An IPv4 address and a port.
#[derive(Clone, Copy, Debug, PartialEq, Eq)]
pub struct Endpoint {
    pub octets: [u8; 4],
    pub port: u16,
}

/// The port of `rank`: `BASE_PORT + rank`, wrapped into the sixteen bits of a port.
pub open spec fn port_of(rank: u32) -> u16 {
    ((BASE_PORT + rank) % 0x1_0000) as u16
}

/// The endpoint of `rank`: its port on the loopback address.
pub open spec fn endpoint_of(rank: u32) -> Endpoint {
    Endpoint { octets: [127u8, 0u8, 0u8, 1u8], port: port_of(rank) }
}

/// The endpoint that `rank` listens on.
pub fn loopback_endpoint(rank: u32) -> (endpoint: Endpoint)
    ensures
        endpoint == endpoint_of(rank),
        rank < MAX_DISTINCT ==> endpoint.port == BASE_PORT + rank,
{
    let port: u64 = (BASE_PORT as u64 + rank as u64) % 0x1_0000;
    Endpoint { octets: [127u8, 0u8, 0u8, 1u8], port: port as u16 }
}

/// The endpoints of the ranks `0..size`, fixed when the table is built.
pub struct AddressTable {
    endpoints: Vec<Endpoint>,
}

impl AddressTable {
    #[verifier::type_invariant]
    spec fn wf(self) -> bool {
        self.endpoints@.len() <= u32::MAX
    }

    /// The endpoints, by rank.
    pub closed spec fn view(&self) -> Seq<Endpoint> {
        self.endpoints@
    }

    /// The table of `n` participants on the loopback address. Up to `MAX_DISTINCT`
    /// participants, the ports run upwards from `BASE_PORT` in the order of the ranks, so that
    /// no two ranks share one.
    pub fn loopback(n: u32) -> (table: AddressTable)
        ensures
            table@.len() == n,
            forall|rank: int| 0 <= rank < n ==> #[trigger] table@[rank] == endpoint_of(rank as u32),
            n <= MAX_DISTINCT ==> forall|rank: int|
                0 <= rank < n ==> (#[trigger] table@[rank]).port == BASE_PORT + rank,
    {
        let mut endpoints: Vec<Endpoint> = Vec::new();
        let mut rank: u32 = 0;
        while rank < n
            invariant
                rank <= n,
                endpoints@.len() == rank,
                forall|k: int| 0 <= k < rank ==> #[trigger] endpoints@[k] == endpoint_of(k as u32),
            decreases n - rank,
        {
            endpoints.push(loopback_endpoint(rank));
            rank += 1;
        }
        AddressTable { endpoints }
    }

    /// The number of participants.
    pub fn size(&self) -> (n: u32)
        ensures
            n == self@.len(),
    {
        proof {
            use_type_invariant(self);
        }
        self.endpoints.len() as u32
    }

    /// The endpoint of `rank`, if the table has that rank.
    pub fn endpoint(&self, rank: u32) -> (found: Option<Endpoint>)
        ensures
            found == if rank < self@.len() {
                Some(self@[rank as int])
            } else {
                None
            },
    {
        if (rank as usize) < self.endpoints.len() {
            Some(self.endpoints[rank as usize])
        } else {
            None
        }
    }
}

} // verus!
