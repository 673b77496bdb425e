use vstd::prelude::*;
use vstd::arithmetic::power2::pow2;
use crate::text::{decimal, ipv4_text, push_all, push_decimal, push_ipv4};
use cidr_utils::cidr::{IpCidr, IpCidrError, Ipv6Cidr};

verus! {

/// An IP address: IPv4 as a big-endian `u32`, IPv6 as a big-endian `u128`.
#[derive(Clone, Copy, Debug, PartialEq, Eq, Structural, Hash)]
pub enum IpAddress {
    V4(u32),
    V6(u128),
}

/// A CIDR block: its first address (`prefix`) and the length of its network part (`bits`).
#[derive(Clone, Copy, Debug, PartialEq, Eq, Structural, Hash)]
#[allow(inconsistent_fields)]
pub enum Cidr {
    V4 { prefix: u32, bits: u8 },
    V6 { prefix: u128, bits: u8 },
}

impl Cidr {
    /// A block as `cidr_utils` holds one: at most 32 (IPv4) or 128 (IPv6) network bits, and no
    /// host bit set in the prefix.
    pub open spec fn wf(self) -> bool {
        match self {
            Cidr::V4 { prefix, bits } => bits <= 32 && prefix as nat % pow2((32 - bits) as nat) == 0,
            Cidr::V6 { prefix, bits } => bits <= 128 && prefix as nat % pow2((128 - bits) as nat) == 0,
        }
    }
}

/// Why a text is no CIDR block.
#[derive(Clone, Copy, Debug, PartialEq, Eq, Structural)]
pub enum CidrError {
    IncorrectBitsRange,
    IncorrectMask,
    IncorrectCidrString,
}

/// What `cidr_utils::cidr::IpCidr::from_str` makes of a text.
pub uninterp spec fn cidr_parse(s: Seq<char>) -> Result<Cidr, CidrError>;

/// What `Ipv6Addr` displays for an IPv6 address.
pub uninterp spec fn ipv6_text(a: u128) -> Seq<char>;

/// Parses a CIDR block with `cidr_utils::cidr::IpCidr::from_str`, which takes an IPv4 or
/// IPv6 address with an optional `/bits` or `/mask`. Nothing is claimed of the result but
/// that it is the one `cidr_parse` names for the text (the same text gives the same answer),
/// and that a block is well formed: `from_prefix_and_bits` and `from_prefix_and_mask` clear
/// the host bits of the prefix, and `get_bits` counts the bits of a valid mask.
#[verifier::external_body]
pub(crate) fn parse_cidr(s: &str) -> (r: Result<Cidr, CidrError>)
    ensures
        r == cidr_parse(s@),
        r matches Ok(c) ==> c.wf(),
{
    match IpCidr::from_str(s) {
        Ok(IpCidr::V4(c)) => Ok(Cidr::V4 { prefix: c.get_prefix(), bits: c.get_bits() }),
        Ok(IpCidr::V6(c)) => Ok(Cidr::V6 { prefix: c.get_prefix(), bits: c.get_bits() }),
        Err(IpCidrError::IncorrectBitsRange) => Err(CidrError::IncorrectBitsRange),
        Err(IpCidrError::IncorrectMask) => Err(CidrError::IncorrectMask),
        Err(IpCidrError::IncorrectIpCIDRString) => Err(CidrError::IncorrectCidrString),
    }
}

/// The text of an IPv6 address, as `cidr_utils::cidr::Ipv6Cidr::first_as_ipv6_addr` hands
/// it out and `Display` writes it. Nothing is claimed of it but that it is the text
/// `ipv6_text` names for the address.
#[verifier::external_body]
pub(crate) fn ipv6_address_text(a: u128) -> (r: String)
    ensures
        r@ == ipv6_text(a),
{
    Ipv6Cidr::from_prefix_and_bits(a, 128).unwrap().first_as_ipv6_addr().to_string()
}

/// The text of an address, as `Display` writes it.
pub open spec fn address_text(a: IpAddress) -> Seq<char> {
    match a {
        IpAddress::V4(v) => ipv4_text(v),
        IpAddress::V6(v) => ipv6_text(v),
    }
}

/// The text of a CIDR block, as `cidr_utils` displays it: its first address, `/`, and its bits.
pub open spec fn cidr_text(c: Cidr) -> Seq<char> {
    match c {
        Cidr::V4 { prefix, bits } => ipv4_text(prefix) + seq!['/'] + decimal(bits as nat),
        Cidr::V6 { prefix, bits } => ipv6_text(prefix) + seq!['/'] + decimal(bits as nat),
    }
}

/// The first address of a CIDR block.
pub open spec fn first_of(c: Cidr) -> IpAddress {
    match c {
        Cidr::V4 { prefix, .. } => IpAddress::V4(prefix),
        Cidr::V6 { prefix, .. } => IpAddress::V6(prefix),
    }
}

/// The message that `Display` writes for each parse error of `cidr_utils`.
pub open spec fn cidr_error_text(e: CidrError) -> Seq<char> {
    match e {
        CidrError::IncorrectBitsRange => "The subnet size (bits) is out of range."@,
        CidrError::IncorrectMask => "The mask is incorrect."@,
        CidrError::IncorrectCidrString => "The CIDR string is incorrect."@,
    }
}

/// Appends the text of `a` to `s`.
pub fn push_address(s: &mut String, a: &IpAddress)
    ensures
        final(s)@ == old(s)@ + address_text(*a),
{
    match a {
        IpAddress::V4(v) => push_ipv4(s, *v),
        IpAddress::V6(v) => {
            let t = ipv6_address_text(*v);
            push_all(s, t.as_str());
        },
    }
}

impl IpAddress {
    /// The text of the address.
    pub fn to_string(&self) -> (s: String)
        ensures
            s@ == address_text(*self),
    {
        let mut s = String::new();
        push_address(&mut s, self);
        s
    }
}

impl Cidr {
    /// Parses a CIDR block from text.
    pub fn from_str(s: &str) -> (r: Result<Cidr, CidrError>)
        ensures
            r == cidr_parse(s@),
            r matches Ok(c) ==> c.wf(),
    {
        parse_cidr(s)
    }

    /// The first address of the block.
    pub fn first_as_ip_addr(&self) -> (a: IpAddress)
        ensures
            a == first_of(*self),
    {
        match self {
            Cidr::V4 { prefix, .. } => IpAddress::V4(*prefix),
            Cidr::V6 { prefix, .. } => IpAddress::V6(*prefix),
        }
    }

    /// Whether this is an IPv4 block.
    pub fn is_v4(&self) -> (r: bool)
        ensures
            r == (*self is V4),
    {
        match self {
            Cidr::V4 { .. } => true,
            Cidr::V6 { .. } => false,
        }
    }

    /// The text of the block.
    pub fn to_string(&self) -> (s: String)
        ensures
            s@ == cidr_text(*self),
    {
        let mut s = String::new();
        push_cidr(&mut s, self);
        s
    }
}

/// Appends the text of `c` to `s`.
pub fn push_cidr(s: &mut String, c: &Cidr)
    ensures
        final(s)@ == old(s)@ + cidr_text(*c),
{
    let ghost start = s@;
    match c {
        Cidr::V4 { prefix, bits } => {
            push_ipv4(s, *prefix);
            s.push('/');
            push_decimal(s, *bits as u64);
        },
        Cidr::V6 { prefix, bits } => {
            let t = ipv6_address_text(*prefix);
            push_all(s, t.as_str());
            s.push('/');
            push_decimal(s, *bits as u64);
        },
    }
    assert(s@ == start + cidr_text(*c));
}

impl CidrError {
    /// The message of the error.
    pub fn to_string(&self) -> (s: String)
        ensures
            s@ == cidr_error_text(*self),
    {
        match self {
            CidrError::IncorrectBitsRange => "The subnet size (bits) is out of range.".to_string(),
            CidrError::IncorrectMask => "The mask is incorrect.".to_string(),
            CidrError::IncorrectCidrString => "The CIDR string is incorrect.".to_string(),
        }
    }
}

} // verus!
