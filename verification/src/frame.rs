//! The header parser: bounds-checked views into a received frame, and the
//! two fields the guard reads from it.
//!
//! A frame starts with an Ethernet header of 14 bytes whose last two bytes
//! name the protocol of the payload. Where that protocol is IPv4, an IPv4
//! header of 20 bytes follows, with the source address in its bytes 12 to 15.
//! All multi-byte fields are big-endian.

use network_types::eth::EthHdr;
use network_types::ip::Ipv4Hdr;
use vstd::prelude::*;
use vstd::slice::slice_subrange;
use crate::verdict::GuardError;

verus! {

/// Length of an Ethernet header.
pub const ETH_HDR_LEN: usize = 14;

/// Length of an IPv4 header without options.
pub const IPV4_HDR_LEN: usize = 20;

/// Offset of the protocol field in an Ethernet header.
pub const ETHER_TYPE_OFFSET: usize = 12;

/// Offset of the source address in an IPv4 header.
pub const IPV4_SRC_OFFSET: usize = 12;

/// The protocol number of IPv4 in an Ethernet header.
pub const ETHERTYPE_IPV4: u16 = 0x0800;

/// The number that two bytes spell in big-endian order.
pub open spec fn be16(b0: u8, b1: u8) -> int {
    b0 * 0x100 + b1
}

/// The number that four bytes spell in big-endian order.
pub open spec fn be32(b0: u8, b1: u8, b2: u8, b3: u8) -> int {
    b0 * 0x100_0000 + b1 * 0x1_0000 + b2 * 0x100 + b3
}

/// The protocol field of the Ethernet header that `frame` starts with.
pub open spec fn spec_ether_type(frame: Seq<u8>) -> int
    recommends
        frame.len() >= ETH_HDR_LEN,
{
    be16(frame[ETHER_TYPE_OFFSET as int], frame[ETHER_TYPE_OFFSET + 1])
}

/// The source address of the IPv4 header that follows the Ethernet header
/// of `frame`.
pub open spec fn spec_ipv4_source(frame: Seq<u8>) -> int
    recommends
        frame.len() >= ETH_HDR_LEN + IPV4_HDR_LEN,
{
    be32(
        frame[ETH_HDR_LEN + IPV4_SRC_OFFSET],
        frame[ETH_HDR_LEN + IPV4_SRC_OFFSET + 1],
        frame[ETH_HDR_LEN + IPV4_SRC_OFFSET + 2],
        frame[ETH_HDR_LEN + IPV4_SRC_OFFSET + 3],
    )
}

/// What the parser makes of `frame`: `Truncated` where the frame ends inside
/// the Ethernet header, or inside the IPv4 header that the Ethernet header
/// announces; no address where the payload is not IPv4; else the IPv4 source
/// address.
pub open spec fn spec_source_address(frame: Seq<u8>) -> Result<Option<u32>, GuardError> {
    if frame.len() < ETH_HDR_LEN {
        Err(GuardError::Truncated)
    } else if spec_ether_type(frame) != ETHERTYPE_IPV4 {
        Ok(None)
    } else if frame.len() < ETH_HDR_LEN + IPV4_HDR_LEN {
        Err(GuardError::Truncated)
    } else {
        Ok(Some(spec_ipv4_source(frame) as u32))
    }
}

/// `network_types::eth::EthHdr::LEN`, the size of that crate's Ethernet
/// header: two addresses of 6 bytes and a protocol field of 2 bytes, packed.
/// The contract is taken on trust from the layout of that type.
#[verifier::external_body]
fn eth_hdr_len() -> (len: usize)
    ensures
        len == ETH_HDR_LEN,
{
    EthHdr::LEN
}

/// `network_types::ip::Ipv4Hdr::LEN`, the size of that crate's IPv4 header:
/// the fixed 20 bytes that precede any options, with the source address in
/// bytes 12 to 15. The contract is taken on trust from the layout of that
/// type.
#[verifier::external_body]
fn ipv4_hdr_len() -> (len: usize)
    ensures
        len == IPV4_HDR_LEN,
{
    Ipv4Hdr::LEN
}

/// The view of `size` bytes at `offset` in `frame`, if the frame holds all of
/// them; `Truncated` if it does not. No byte outside the frame is ever read.
pub fn ptr_at<'a>(frame: &'a [u8], offset: usize, size: usize) -> (view: Result<
    &'a [u8],
    GuardError,
>)
    ensures
        match view {
            Ok(bytes) => offset + size <= frame@.len() && bytes@ == frame@.subrange(
                offset as int,
                offset + size,
            ),
            Err(error) => offset + size > frame@.len() && error == GuardError::Truncated,
        },
{
    if offset > frame.len() || size > frame.len() - offset {
        return Err(GuardError::Truncated);
    }
    Ok(slice_subrange(frame, offset, offset + size))
}

/// The number that two bytes spell in big-endian order.
fn read_be16(b0: u8, b1: u8) -> (value: u16)
    ensures
        value == be16(b0, b1),
{
    let value = ((b0 as u16) << 8) | (b1 as u16);
    assert(value == b0 * 0x100 + b1) by (bit_vector)
        requires
            value == ((b0 as u16) << 8) | (b1 as u16),
    ;
    value
}

/// The number that four bytes spell in big-endian order.
fn read_be32(b0: u8, b1: u8, b2: u8, b3: u8) -> (value: u32)
    ensures
        value == be32(b0, b1, b2, b3),
{
    let value = ((b0 as u32) << 24) | ((b1 as u32) << 16) | ((b2 as u32) << 8) | (b3 as u32);
    assert(value == b0 * 0x100_0000 + b1 * 0x1_0000 + b2 * 0x100 + b3) by (bit_vector)
        requires
            value == ((b0 as u32) << 24) | ((b1 as u32) << 16) | ((b2 as u32) << 8) | (b3 as u32),
    ;
    value
}

/// The protocol field of the Ethernet header at the start of `frame`, or
/// `Truncated` if the frame is shorter than that header.
pub fn ether_type(frame: &[u8]) -> (protocol: Result<u16, GuardError>)
    ensures
        match protocol {
            Ok(value) => frame@.len() >= ETH_HDR_LEN && value == spec_ether_type(frame@),
            Err(error) => frame@.len() < ETH_HDR_LEN && error == GuardError::Truncated,
        },
{
    match ptr_at(frame, 0, eth_hdr_len()) {
        Ok(header) => Ok(read_be16(header[ETHER_TYPE_OFFSET], header[ETHER_TYPE_OFFSET + 1])),
        Err(error) => Err(error),
    }
}

/// The source address of the IPv4 header that follows the Ethernet header
/// of `frame`, or `Truncated` if the frame ends before the end of that
/// header.
pub fn ipv4_source(frame: &[u8]) -> (source: Result<u32, GuardError>)
    ensures
        match source {
            Ok(addr) => frame@.len() >= ETH_HDR_LEN + IPV4_HDR_LEN && addr == spec_ipv4_source(
                frame@,
            ),
            Err(error) => frame@.len() < ETH_HDR_LEN + IPV4_HDR_LEN && error
                == GuardError::Truncated,
        },
{
    match ptr_at(frame, eth_hdr_len(), ipv4_hdr_len()) {
        Ok(header) => Ok(
            read_be32(
                header[IPV4_SRC_OFFSET],
                header[IPV4_SRC_OFFSET + 1],
                header[IPV4_SRC_OFFSET + 2],
                header[IPV4_SRC_OFFSET + 3],
            ),
        ),
        Err(error) => Err(error),
    }
}

/// Parses the headers of `frame`: the IPv4 source address, no address where
/// the payload is not IPv4, or `Truncated`.
pub fn source_address(frame: &[u8]) -> (parsed: Result<Option<u32>, GuardError>)
    ensures
        parsed == spec_source_address(frame@),
{
    match ether_type(frame) {
        Err(error) => Err(error),
        Ok(protocol) => {
            if protocol != ETHERTYPE_IPV4 {
                Ok(None)
            } else {
                match ipv4_source(frame) {
                    Ok(addr) => Ok(Some(addr)),
                    Err(error) => Err(error),
                }
            }
        },
    }
}

} // verus!
