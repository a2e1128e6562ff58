//! The subnet arithmetic: given an address and a prefix length, derive the
//! mask, network and broadcast addresses and the usable host range.
//!
//! Addresses are 32-bit unsigned integers with bit 31 the most significant
//! (the first octet of the dotted-decimal form). Any 32-bit value is a valid
//! address; a prefix length is valid only in [0, 32].

use vstd::prelude::*;

verus! {

/// Why a CIDR string was rejected. Exactly these four failures exist; each
/// corresponds to one validation step of [`crate::parse::subnet_calculator`].
#[derive(Clone, Copy, Debug, PartialEq, Eq, Structural)]
pub enum CidrError {
    /// The string does not split on exactly one `/` into two non-empty parts.
    MalformedCidr,
    /// The part before the `/` is not four dot-separated octets in [0, 255].
    InvalidAddress,
    /// The part after the `/` is not a decimal integer.
    InvalidPrefixSyntax,
    /// The prefix parsed as an integer but lies outside [0, 32].
    PrefixOutOfRange,
}

impl CidrError {
    /// The human-readable message for this error.
    pub open spec fn message_spec(&self) -> Seq<char> {
        match self {
            CidrError::MalformedCidr => "Invalid CIDR notation"@,
            CidrError::InvalidAddress => "Invalid IP address"@,
            CidrError::InvalidPrefixSyntax => "Invalid prefix length"@,
            CidrError::PrefixOutOfRange => "Prefix length must be between 0 and 32"@,
        }
    }

    /// The human-readable message for this error.
    pub fn message(&self) -> (r: String)
        ensures
            r@ == self.message_spec(),
    {
        match self {
            CidrError::MalformedCidr => "Invalid CIDR notation".to_owned(),
            CidrError::InvalidAddress => "Invalid IP address".to_owned(),
            CidrError::InvalidPrefixSyntax => "Invalid prefix length".to_owned(),
            CidrError::PrefixOutOfRange => "Prefix length must be between 0 and 32".to_owned(),
        }
    }
}

/// A validated CIDR block: an IPv4 address together with a prefix length.
/// A value of this type always has `prefix <= 32`; construction fails on any
/// other prefix, so an out-of-range prefix is not representable.
#[derive(Clone, Copy, Debug, PartialEq, Eq, Structural)]
pub struct CidrInput {
    addr: u32,
    prefix: u32,
}

impl CidrInput {
    /// The address, as seen by specifications.
    pub closed spec fn addr_spec(&self) -> u32 {
        self.addr
    }

    /// The prefix length, as seen by specifications.
    pub closed spec fn prefix_spec(&self) -> u32 {
        self.prefix
    }

    /// Every constructed `CidrInput` satisfies this bound; prefixes above 32
    /// are not representable.
    #[verifier::type_invariant]
    pub open spec fn wf(&self) -> bool {
        self.prefix_spec() <= 32
    }

    /// Construct a CIDR block; fails exactly when the prefix exceeds 32.
    pub fn new(addr: u32, prefix: u32) -> (r: Option<CidrInput>)
        ensures
            r is Some <==> prefix <= 32,
            r matches Some(c) ==> c.addr_spec() == addr && c.prefix_spec() == prefix && c.wf(),
    {
        if prefix <= 32 {
            Some(CidrInput { addr, prefix })
        } else {
            None
        }
    }

    /// The address.
    pub fn addr(&self) -> (r: u32)
        ensures
            r == self.addr_spec(),
    {
        self.addr
    }

    /// The prefix length.
    pub fn prefix(&self) -> (r: u32)
        ensures
            r == self.prefix_spec(),
            r <= 32,
    {
        proof {
            use_type_invariant(self);
        }
        self.prefix
    }
}

/// The subnet mask: the top `prefix` bits set, the low `32 - prefix` bits
/// clear. The shift is special-cased at `prefix == 0`, where a full-width
/// shift would be invalid and the mask is all zero.
pub open spec fn mask_spec(prefix: u32) -> u32
    recommends
        prefix <= 32,
{
    if prefix == 0 {
        0u32
    } else {
        (!0u32) << ((32 - prefix) as u32)
    }
}

/// The network address: the input address with all host bits cleared.
pub open spec fn network_spec(addr: u32, prefix: u32) -> u32
    recommends
        prefix <= 32,
{
    addr & mask_spec(prefix)
}

/// The broadcast address: the network address with all host bits set.
pub open spec fn broadcast_spec(addr: u32, prefix: u32) -> u32
    recommends
        prefix <= 32,
{
    network_spec(addr, prefix) | !mask_spec(prefix)
}

/// The number of usable host addresses: `2^(32-prefix) - 2` (the network and
/// broadcast addresses are excluded), except that a /32 denotes the single
/// address itself. A /31 yields 0 under this formula; that degenerate count
/// is deliberate and is not adjusted for point-to-point conventions.
pub open spec fn usable_hosts_spec(prefix: u32) -> u32
    recommends
        prefix <= 32,
{
    if prefix == 32 {
        1u32
    } else if prefix == 0 {
        0xFFFF_FFFEu32
    } else {
        ((1u32 << ((32 - prefix) as u32)) - 2) as u32
    }
}

/// The first usable host address: the network address for a /32, otherwise
/// one past the network address.
pub open spec fn first_usable_spec(addr: u32, prefix: u32) -> u32
    recommends
        prefix <= 32,
{
    if prefix == 32 {
        network_spec(addr, prefix)
    } else {
        (network_spec(addr, prefix) + 1) as u32
    }
}

/// The last usable host address: the network address for a /32, otherwise
/// one before the broadcast address.
pub open spec fn last_usable_spec(addr: u32, prefix: u32) -> u32
    recommends
        prefix <= 32,
{
    if prefix == 32 {
        network_spec(addr, prefix)
    } else {
        (broadcast_spec(addr, prefix) - 1) as u32
    }
}

/// Everything the calculator derives from a valid CIDR block, plus the echoed
/// input address. Recomputed fresh on every call; never cached or mutated.
#[derive(Clone, Copy, Debug, PartialEq, Eq, Structural)]
pub struct SubnetReport {
    /// The input address, echoed unchanged.
    pub ip: u32,
    /// The subnet mask.
    pub mask: u32,
    /// The network address.
    pub network: u32,
    /// The broadcast address.
    pub broadcast: u32,
    /// The number of usable host addresses.
    pub usable_hosts: u32,
    /// The first usable host address.
    pub first_usable: u32,
    /// The last usable host address.
    pub last_usable: u32,
}

/// The report derived from `addr/prefix`, field by field.
pub open spec fn report_spec(addr: u32, prefix: u32) -> SubnetReport
    recommends
        prefix <= 32,
{
    SubnetReport {
        ip: addr,
        mask: mask_spec(prefix),
        network: network_spec(addr, prefix),
        broadcast: broadcast_spec(addr, prefix),
        usable_hosts: usable_hosts_spec(prefix),
        first_usable: first_usable_spec(addr, prefix),
        last_usable: last_usable_spec(addr, prefix),
    }
}

impl SubnetReport {
    /// Derive the full report from a validated CIDR block.
    pub fn compute(input: CidrInput) -> (r: SubnetReport)
        ensures
            r == report_spec(input.addr_spec(), input.prefix_spec()),
    {
        let addr = input.addr();
        let prefix = input.prefix();
        let mask: u32 = if prefix == 0 {
            0
        } else {
            (!0u32) << (32 - prefix)
        };
        let network: u32 = addr & mask;
        let broadcast: u32 = network | !mask;
        proof {
            assert(prefix <= 31 ==> (addr & (if prefix == 0 {
                0u32
            } else {
                (!0u32) << ((32 - prefix) as u32)
            })) < 0xFFFF_FFFFu32) by (bit_vector);
            assert(prefix <= 31 ==> ((addr & (if prefix == 0 {
                0u32
            } else {
                (!0u32) << ((32 - prefix) as u32)
            })) | !(if prefix == 0 {
                0u32
            } else {
                (!0u32) << ((32 - prefix) as u32)
            })) >= 1) by (bit_vector);
            assert(1 <= prefix <= 31 ==> (1u32 << ((32 - prefix) as u32)) >= 2) by (bit_vector);
        }
        let usable_hosts: u32 = if prefix == 32 {
            1
        } else if prefix == 0 {
            0xFFFF_FFFE
        } else {
            (1u32 << (32 - prefix)) - 2
        };
        let first_usable: u32 = if prefix == 32 {
            network
        } else {
            network + 1
        };
        let last_usable: u32 = if prefix == 32 {
            network
        } else {
            broadcast - 1
        };
        SubnetReport { ip: addr, mask, network, broadcast, usable_hosts, first_usable, last_usable }
    }
}

/// Law: for every address and every valid prefix, the network address is at
/// most the broadcast address, and the network address is a multiple of
/// `2^(32-prefix)` — equivalently, its low `32-prefix` bits (the host bits)
/// are all zero.
#[verifier::rlimit(100)]
pub proof fn lemma_network_bounds(addr: u32, prefix: u32)
    requires
        prefix <= 32,
    ensures
        network_spec(addr, prefix) <= broadcast_spec(addr, prefix),
        network_spec(addr, prefix) & !mask_spec(prefix) == 0,
        (network_spec(addr, prefix) as u64) % (1u64 << ((32 - prefix) as u64)) == 0,
{
    assert(network_spec(addr, prefix) <= broadcast_spec(addr, prefix)) by (bit_vector)
        requires
            prefix <= 32,
    ;
    assert(network_spec(addr, prefix) & !mask_spec(prefix) == 0) by (bit_vector)
        requires
            prefix <= 32,
    ;
    assert((network_spec(addr, prefix) as u64) % (1u64 << ((32 - prefix) as u64)) == 0)
        by (bit_vector)
        requires
            prefix <= 32,
    ;
}

/// Law: a /32 leaves the address unchanged everywhere — mask all ones,
/// network, broadcast, first and last usable all equal to the address — and
/// reports exactly one usable host.
pub proof fn lemma_full_prefix(addr: u32)
    ensures
        mask_spec(32) == 0xFFFF_FFFFu32,
        network_spec(addr, 32) == addr,
        broadcast_spec(addr, 32) == addr,
        usable_hosts_spec(32) == 1,
        first_usable_spec(addr, 32) == addr,
        last_usable_spec(addr, 32) == addr,
{
    assert(((!0u32) << 0u32) == 0xFFFF_FFFFu32 && (addr & ((!0u32) << 0u32)) == addr && ((addr
        & ((!0u32) << 0u32)) | !((!0u32) << 0u32)) == addr) by (bit_vector);
}

/// Law: a /0 spans the whole address space — network `0.0.0.0`, broadcast
/// `255.255.255.255`, and `2^32 - 2` usable hosts.
pub proof fn lemma_zero_prefix(addr: u32)
    ensures
        mask_spec(0) == 0,
        network_spec(addr, 0) == 0,
        broadcast_spec(addr, 0) == 0xFFFF_FFFFu32,
        usable_hosts_spec(0) == 0xFFFF_FFFEu32,
        usable_hosts_spec(0) == 0x1_0000_0000 - 2,
{
    assert((addr & 0u32) == 0 && ((addr & 0u32) | !0u32) == 0xFFFF_FFFFu32) by (bit_vector);
}

/// Law: a /31 reports zero usable hosts under this design's formula
/// `2^(32-prefix) - 2`. This is the documented degenerate case: the formula
/// is not adjusted for the point-to-point convention that treats both
/// addresses of a /31 as usable.
pub proof fn lemma_degenerate_prefix_31()
    ensures
        usable_hosts_spec(31) == 0,
{
    assert(((1u32 << 1u32) - 2) as u32 == 0) by (bit_vector);
}

} // verus!
