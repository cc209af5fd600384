//! Frame parsing: raw link-layer bytes to addressing and TCP payload.
//!
//! Slicing of the ethernet, IP and TCP headers is done by etherparse behind
//! one trusted wrapper; everything a frame yields is named by
//! [`sliced_tcp_of`], and the parser's own contract is stated over that
//! name. Frames without both an IP and a TCP layer, and frames with an
//! empty payload, are not interesting and yield nothing.
use vstd::prelude::*;

use etherparse::InternetSlice;
use etherparse::SlicedPacket;
use etherparse::TransportSlice;

verus! {

/// Addressing and payload of one accepted frame.
pub struct FrameData {
    pub src_ip: String,
    pub src_port: u16,
    pub dst_ip: String,
    pub dst_port: u16,
    pub payload: Vec<u8>,
}

/// What slicing one ethernet frame yields, if it carries IPv4 or IPv6 over
/// TCP: source address text, destination address text, source port,
/// destination port, and the TCP payload bytes. The result is a function of
/// the frame bytes alone.
pub uninterp spec fn sliced_tcp_of(frame: Seq<u8>) -> Option<
    (Seq<char>, Seq<char>, u16, u16, Seq<u8>),
>;

/// Relies on etherparse's `SlicedPacket::from_ethernet` and its slice
/// accessors: they split one ethernet frame into IP addressing, TCP ports
/// and TCP payload; the addresses are rendered as text by std's address
/// formatting. A frame that does not slice to an IP layer over TCP yields
/// nothing.
#[verifier::external_body]
fn slice_tcp_frame(data: &[u8]) -> (r: Option<(String, String, u16, u16, Vec<u8>)>)
    ensures
        (r is Some) == (sliced_tcp_of(data@) is Some),
        r is Some ==> r->Some_0.0@ == sliced_tcp_of(data@)->Some_0.0 && r->Some_0.1@
            == sliced_tcp_of(data@)->Some_0.1 && r->Some_0.2 == sliced_tcp_of(data@)->Some_0.2
            && r->Some_0.3 == sliced_tcp_of(data@)->Some_0.3 && r->Some_0.4@ == sliced_tcp_of(
            data@,
        )->Some_0.4,
{
    let s = match SlicedPacket::from_ethernet(data) {
        Ok(s) => s,
        Err(_) => return None,
    };
    let (si, di) = match &s.ip {
        Some(InternetSlice::Ipv4(h, _)) => (h.source_addr().to_string(), h.destination_addr().to_string()),
        Some(InternetSlice::Ipv6(h, _)) => (h.source_addr().to_string(), h.destination_addr().to_string()),
        None => return None,
    };
    match &s.transport {
        Some(TransportSlice::Tcp(t)) => Some((si, di, t.source_port(), t.destination_port(), s.payload.to_vec())),
        _ => None,
    }
}

/// A frame is accepted iff it slices to IP over TCP and its payload is
/// non-empty.
pub open spec fn spec_frame_accepted(frame: Seq<u8>) -> bool {
    sliced_tcp_of(frame) is Some && sliced_tcp_of(frame)->Some_0.4.len() > 0
}

/// Frame parsing as the capture loop applies it: the four-tuple addressing
/// and the payload for accepted frames, nothing for anything else — non-IP,
/// non-TCP, a slicing error and an empty payload are all alike not
/// interesting.
pub fn parse_frame(data: &[u8]) -> (r: Option<FrameData>)
    ensures
        (r is Some) == spec_frame_accepted(data@),
        r is Some ==> r->Some_0.src_ip@ == sliced_tcp_of(data@)->Some_0.0
            && r->Some_0.dst_ip@ == sliced_tcp_of(data@)->Some_0.1 && r->Some_0.src_port
            == sliced_tcp_of(data@)->Some_0.2 && r->Some_0.dst_port == sliced_tcp_of(
            data@,
        )->Some_0.3 && r->Some_0.payload@ == sliced_tcp_of(data@)->Some_0.4,
{
    match slice_tcp_frame(data) {
        None => None,
        Some((si, di, sp, dp, pl)) => {
            if pl.len() == 0 {
                None
            } else {
                Some(
                    FrameData {
                        src_ip: si,
                        src_port: sp,
                        dst_ip: di,
                        dst_port: dp,
                        payload: pl,
                    },
                )
            }
        },
    }
}

} // verus!
