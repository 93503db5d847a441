//! Locating the UDP payload inside an Ethernet/IPv4/UDP frame.
use vstd::prelude::*;

verus! {

pub const ETHERNET_HEADER_LEN: usize = 14;
pub const UDP_HEADER_LEN: usize = 8;

/// Where the UDP payload lies in a captured frame: after the Ethernet
/// header, an IPv4 header of four times the low nibble of its first byte,
/// and the UDP header; up to the IPv4 total length.
pub open spec fn udp_bounds(f: Seq<u8>) -> Option<(int, int)> {
    if f.len() < ETHERNET_HEADER_LEN + 4 {
        None
    } else {
        let ihl = (f[14] % 16) * 4;
        let total = f[16] * 256 + f[17];
        if ihl + UDP_HEADER_LEN <= total && ETHERNET_HEADER_LEN + total <= f.len() {
            Some((ETHERNET_HEADER_LEN + ihl + UDP_HEADER_LEN, ETHERNET_HEADER_LEN + total))
        } else {
            None
        }
    }
}

/// Start and end of the UDP payload of `frame`, or `None` when its headers
/// do not fit in it.
pub fn udp_payload_bounds(frame: &[u8]) -> (r: Option<(usize, usize)>)
    ensures
        match r {
            Some((s, e)) => udp_bounds(frame@) == Some((s as int, e as int)),
            None => udp_bounds(frame@) is None,
        },
{
    if frame.len() < ETHERNET_HEADER_LEN + 4 {
        return None;
    }
    let ihl: usize = ((frame[14] % 16) as usize) * 4;
    let total: usize = (frame[16] as usize) * 256 + frame[17] as usize;
    if ihl + UDP_HEADER_LEN <= total && ETHERNET_HEADER_LEN + total <= frame.len() {
        Some((ETHERNET_HEADER_LEN + ihl + UDP_HEADER_LEN, ETHERNET_HEADER_LEN + total))
    } else {
        None
    }
}

} // verus!
