//! The route that a Windows TUN setup adds: the forward-table row it asks the
//! IP helper for, and what the helper's answer means.

use vstd::prelude::*;

verus! {

/// `MIB_IPROUTE_TYPE_DIRECT`: a route to a directly attached network.
pub const MIB_IPROUTE_TYPE_DIRECT: u32 = 3;

/// `MIB_IPPROTO_NETMGMT`: a route added by network management.
pub const MIB_IPPROTO_NETMGMT: u32 = 3;

/// `NO_ERROR`.
pub const NO_ERROR: u32 = 0;

/// `ERROR_ACCESS_DENIED`.
pub const ERROR_ACCESS_DENIED: u32 = 5;

/// `ERROR_NOT_SUPPORTED`.
pub const ERROR_NOT_SUPPORTED: u32 = 50;

/// `ERROR_INVALID_PARAMETER`.
pub const ERROR_INVALID_PARAMETER: u32 = 87;

/// The metric given to the added route.
pub const ROUTE_METRIC: u32 = 99;

/// A row of the IPv4 forward table. The destination and mask are in network
/// byte order, as the table keeps them.
pub struct ForwardRow {
    pub dest: [u8; 4],
    pub mask: [u8; 4],
    pub policy: u32,
    pub next_hop: u32,
    pub if_index: u32,
    pub forward_type: u32,
    pub proto: u32,
    pub age: u32,
    pub next_hop_as: u32,
    pub metric1: u32,
    pub metric2: u32,
    pub metric3: u32,
    pub metric4: u32,
    pub metric5: u32,
}

/// The four bytes of `v`, most significant first.
pub open spec fn big_endian_bytes(v: u32) -> Seq<u8> {
    seq![
        (v / 0x100_0000) as u8,
        (v / 0x1_0000 % 0x100) as u8,
        (v / 0x100 % 0x100) as u8,
        (v % 0x100) as u8,
    ]
}

/// The number that four bytes stand for, most significant first.
pub open spec fn big_endian_value(b: Seq<u8>) -> nat {
    b[0] as nat * 0x100_0000 + b[1] as nat * 0x1_0000 + b[2] as nat * 0x100 + b[3] as nat
}

/// The four bytes of a number, most significant first, stand for that number
/// again, and two numbers with the same bytes are the same number.
pub proof fn law_big_endian_reads_back(v: u32, w: u32)
    ensures
        big_endian_bytes(v).len() == 4,
        big_endian_value(big_endian_bytes(v)) == v,
        big_endian_bytes(v) == big_endian_bytes(w) ==> v == w,
{
    assert(big_endian_value(big_endian_bytes(v)) == v);
    assert(big_endian_value(big_endian_bytes(w)) == w);
}

/// The bytes of `v` in network order.
pub fn to_network_order(v: u32) -> (r: [u8; 4])
    ensures
        r@ == big_endian_bytes(v),
        r[0] as nat * 0x100_0000 + r[1] as nat * 0x1_0000 + r[2] as nat * 0x100 + r[3] as nat == v,
{
    assert((v >> 24u32) as u8 == (v / 0x100_0000) as u8) by (bit_vector);
    assert((v >> 16u32) as u8 == (v / 0x1_0000 % 0x100) as u8) by (bit_vector);
    assert((v >> 8u32) as u8 == (v / 0x100 % 0x100) as u8) by (bit_vector);
    assert(v as u8 == (v % 0x100) as u8) by (bit_vector);
    let r = [(v >> 24u32) as u8, (v >> 16u32) as u8, (v >> 8u32) as u8, v as u8];
    assert(r@ =~= big_endian_bytes(v));
    proof {
        law_big_endian_reads_back(v, v);
    }
    r
}

/// The row that adds a direct route to `dst`/`mask` through interface
/// `if_index`: no next hop, metric 99, the other metrics unused (all ones).
pub fn forward_row(dst: u32, mask: u32, if_index: u32) -> (row: ForwardRow)
    ensures
        row.dest@ == big_endian_bytes(dst),
        row.mask@ == big_endian_bytes(mask),
        big_endian_value(row.dest@) == dst,
        big_endian_value(row.mask@) == mask,
        row.policy == 0,
        row.next_hop == 0,
        row.if_index == if_index,
        row.forward_type == MIB_IPROUTE_TYPE_DIRECT,
        row.proto == MIB_IPPROTO_NETMGMT,
        row.age == 0,
        row.next_hop_as == 0,
        row.metric1 == ROUTE_METRIC,
        row.metric2 == u32::MAX,
        row.metric3 == u32::MAX,
        row.metric4 == u32::MAX,
        row.metric5 == u32::MAX,
{
    let unused: u32 = !0u32;
    assert(!0u32 == u32::MAX) by (bit_vector);
    ForwardRow {
        dest: to_network_order(dst),
        mask: to_network_order(mask),
        policy: 0,
        next_hop: 0,
        if_index,
        forward_type: MIB_IPROUTE_TYPE_DIRECT,
        proto: MIB_IPPROTO_NETMGMT,
        age: 0,
        next_hop_as: 0,
        metric1: ROUTE_METRIC,
        metric2: unused,
        metric3: unused,
        metric4: unused,
        metric5: unused,
    }
}

/// Why the IP helper refused to add a route.
#[derive(Clone, Copy, PartialEq, Eq, Debug, Hash, Structural)]
pub enum RouteError {
    InvalidParameter,
    NotSupported,
    AccessDenied,
    Unknown,
}

/// What the answer of `CreateIpForwardEntry` means.
pub open spec fn route_outcome(code: u32) -> Result<(), RouteError> {
    if code == NO_ERROR {
        Ok(())
    } else if code == ERROR_INVALID_PARAMETER {
        Err(RouteError::InvalidParameter)
    } else if code == ERROR_NOT_SUPPORTED {
        Err(RouteError::NotSupported)
    } else if code == ERROR_ACCESS_DENIED {
        Err(RouteError::AccessDenied)
    } else {
        Err(RouteError::Unknown)
    }
}

/// Only `NO_ERROR` means that the route was added; the three answers that
/// the helper documents each give their own reason, and any other answer is
/// an unknown refusal.
pub proof fn law_route_outcome(code: u32)
    ensures
        route_outcome(code) is Ok <==> code == 0,
        code == 87 ==> route_outcome(code) == Err::<(), RouteError>(RouteError::InvalidParameter),
        code == 50 ==> route_outcome(code) == Err::<(), RouteError>(RouteError::NotSupported),
        code == 5 ==> route_outcome(code) == Err::<(), RouteError>(RouteError::AccessDenied),
        code != 0 && code != 87 && code != 50 && code != 5 ==> route_outcome(code) == Err::<(), RouteError>(RouteError::Unknown),
{
}

/// Maps the answer of `CreateIpForwardEntry` to success or the reason of the
/// refusal.
pub fn route_add_result(code: u32) -> (res: Result<(), RouteError>)
    ensures
        res == route_outcome(code),
        res is Ok <==> code == 0,
        code != 0 && code != 87 && code != 50 && code != 5 ==> res == Err::<(), RouteError>(RouteError::Unknown),
{
    if code == NO_ERROR {
        Ok(())
    } else if code == ERROR_INVALID_PARAMETER {
        Err(RouteError::InvalidParameter)
    } else if code == ERROR_NOT_SUPPORTED {
        Err(RouteError::NotSupported)
    } else if code == ERROR_ACCESS_DENIED {
        Err(RouteError::AccessDenied)
    } else {
        Err(RouteError::Unknown)
    }
}

impl RouteError {
    /// The message that describes the refusal.
    pub fn message(&self) -> (r: &'static str)
        ensures
            r@ == (match *self {
                RouteError::InvalidParameter => "invalid parameter"@,
                RouteError::NotSupported => "not supported"@,
                RouteError::AccessDenied => "access denied"@,
                RouteError::Unknown => "unknown"@,
            }),
    {
        match self {
            RouteError::InvalidParameter => "invalid parameter",
            RouteError::NotSupported => "not supported",
            RouteError::AccessDenied => "access denied",
            RouteError::Unknown => "unknown",
        }
    }
}

} // verus!
