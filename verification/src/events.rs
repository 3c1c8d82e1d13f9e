//! Decoding of the fixed-layout samples the perf-event collaborator hands
//! to its callback.
//!
//! A sample is a 12-byte record: two 32-bit addresses and two 16-bit ports,
//! all little-endian in the record, the ports additionally in network byte
//! order.

use crate::bytes::{le16_at, le32_at, read_u16, read_u32};
use crate::error::Error;
use vstd::prelude::*;

verus! {

/// Byte size of one perf-event sample record.
pub const PERF_EVENT_ITEM_SIZE: usize = 12;

/// The value with its two bytes swapped: network byte order to host order.
pub open spec fn spec_ntohs(value: u16) -> u16 {
    ((value & 0xff) << 8) | (value >> 8)
}

/// Converts a 16-bit value from network byte order to host order.
pub fn ntohs(value: u16) -> (r: u16)
    ensures
        r == spec_ntohs(value),
{
    ((value & 0xff) << 8) | (value >> 8)
}

/// The four octets of a 32-bit address, in the order they are written.
pub open spec fn spec_ip_octets(ip: u32) -> (u8, u8, u8, u8) {
    (ip as u8, (ip >> 8) as u8, (ip >> 16) as u8, (ip >> 24) as u8)
}

/// Splits a 32-bit address into its four octets, lowest byte first.
pub fn int_to_ip(ip: u32) -> (r: (u8, u8, u8, u8))
    ensures
        r == spec_ip_octets(ip),
{
    (ip as u8, (ip >> 8) as u8, (ip >> 16) as u8, (ip >> 24) as u8)
}

/// One decoded perf-event sample: a connection's endpoints.
#[derive(Debug, Clone, Copy, PartialEq, Eq, Structural)]
pub struct PerfEventItem {
    /// Source address, as stored.
    pub src_ip: u32,
    /// Destination address, as stored.
    pub dst_ip: u32,
    /// Source port, network byte order as stored.
    pub src_port: u16,
    /// Destination port, network byte order as stored.
    pub dst_port: u16,
}

/// The sample record stored at the start of `s`.
pub open spec fn spec_perf_event_item_at(s: Seq<u8>) -> PerfEventItem {
    PerfEventItem {
        src_ip: le32_at(s, 0),
        dst_ip: le32_at(s, 4),
        src_port: le16_at(s, 8),
        dst_port: le16_at(s, 10),
    }
}

impl PerfEventItem {
    /// Decodes the sample record at the start of a callback's byte slice.
    /// A slice shorter than the record is rejected.
    pub fn parse(data: &[u8]) -> (r: Result<PerfEventItem, Error>)
        ensures
            r is Ok <==> data@.len() >= PERF_EVENT_ITEM_SIZE,
            r matches Ok(e) ==> e == spec_perf_event_item_at(data@),
            r is Err ==> r == Result::<PerfEventItem, Error>::Err(Error::MalformedObject),
    {
        if data.len() < PERF_EVENT_ITEM_SIZE {
            return Err(Error::MalformedObject);
        }
        Ok(
            PerfEventItem {
                src_ip: read_u32(data, 0),
                dst_ip: read_u32(data, 4),
                src_port: read_u16(data, 8),
                dst_port: read_u16(data, 10),
            },
        )
    }
}

} // verus!
