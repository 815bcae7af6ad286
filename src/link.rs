//! The device side of the serial link: turns received frames into queued
//! commands and queued responses into frames to send.
use vstd::prelude::*;
use crate::codec::{host_bound, parse, wire, Command, PingResponse};
use crate::framing::{cobs_decoding, encode_frame, frame_of, FrameError, FramingBuffer};
use crate::queue::CommandQueue;

verus! {

/// What became of one received packet.
#[derive(Clone, Copy, Debug, PartialEq, Eq, Structural)]
pub enum RxStatus {
    /// No complete packet was waiting.
    NoPacket,
    /// The packet's command was queued for the dispatcher.
    Queued(Command),
    /// The inbound queue was full; the command was dropped.
    Dropped(Command),
    /// A ping; a ping response was queued for the host.
    PingAnswered,
    /// The packet was not a valid COBS encoding; it was dropped.
    FramingError,
    /// The packet held no command of the catalog; it was dropped.
    DecodeError,
}

/// Reads the waiting packet, if any: a ping is answered by queueing a ping
/// response on `outbound`; any other command is queued on `inbound`; a
/// packet that does not decode is dropped and reported.
pub fn receive_packet<const F: usize, const N: usize, const M: usize>(
    framer: &mut FramingBuffer<F>,
    inbound: &mut CommandQueue<N>,
    outbound: &mut CommandQueue<M>,
) -> (r: RxStatus)
    requires
        old(framer).wf(),
        old(inbound).wf(),
        old(outbound).wf(),
    ensures
        final(framer).wf(),
        final(inbound).wf(),
        final(outbound).wf(),
        final(framer)@.partial == old(framer)@.partial,
        final(framer)@.packet is None,
        match old(framer)@.packet {
            None => r == RxStatus::NoPacket && final(inbound)@ == old(inbound)@ && final(outbound)@
                == old(outbound)@,
            Some(body) => match cobs_decoding(body) {
                None => r == RxStatus::FramingError && final(inbound)@ == old(inbound)@
                    && final(outbound)@ == old(outbound)@,
                Some(p) => match parse(p) {
                    None => r == RxStatus::DecodeError && final(inbound)@ == old(inbound)@
                        && final(outbound)@ == old(outbound)@,
                    Some(Command::Ping(_)) => {
                        &&& r == RxStatus::PingAnswered
                        &&& final(inbound)@ == old(inbound)@
                        &&& if old(outbound)@.len() < CommandQueue::<M>::capacity() {
                            final(outbound)@ == old(outbound)@.push(
                                Command::PingResponse(PingResponse {}),
                            )
                        } else {
                            final(outbound)@ == old(outbound)@
                        }
                    },
                    Some(c) => {
                        &&& final(outbound)@ == old(outbound)@
                        &&& if old(inbound)@.len() < CommandQueue::<N>::capacity() {
                            r == RxStatus::Queued(c) && final(inbound)@ == old(inbound)@.push(c)
                        } else {
                            r == RxStatus::Dropped(c) && final(inbound)@ == old(inbound)@
                        }
                    },
                },
            },
        },
{
    let packet = match framer.read_packet() {
        Ok(p) => p,
        Err(FrameError::NoPacket) => return RxStatus::NoPacket,
        Err(FrameError::Malformed) => return RxStatus::FramingError,
    };
    match Command::from_bytes(packet.as_slice()) {
        None => RxStatus::DecodeError,
        Some(Command::Ping(_)) => {
            let _ = outbound.push(Command::PingResponse(PingResponse {}));
            RxStatus::PingAnswered
        },
        Some(c) => match inbound.push(c) {
            Ok(()) => RxStatus::Queued(c),
            Err(_) => RxStatus::Dropped(c),
        },
    }
}

/// Takes the oldest response off `outbound` and returns its frame. A
/// command that is not host-bound is dropped; `None` then, and when the
/// queue is empty.
pub fn next_outbound_frame<const M: usize>(outbound: &mut CommandQueue<M>) -> (r: Option<Vec<u8>>)
    requires
        old(outbound).wf(),
    ensures
        final(outbound).wf(),
        old(outbound)@.len() == 0 ==> r is None && final(outbound)@ == old(outbound)@,
        old(outbound)@.len() > 0 ==> {
            &&& final(outbound)@ == old(outbound)@.drop_first()
            &&& if host_bound(old(outbound)@[0]) {
                r is Some && r->Some_0@ == frame_of(wire(old(outbound)@[0]))
            } else {
                r is None
            }
        },
{
    let cmd = match outbound.pop() {
        Some(c) => c,
        None => return None,
    };
    let mut buf: Vec<u8> = vec![0u8; 8];
    match cmd.to_bytes(buf.as_mut_slice()) {
        Ok(n) => {
            let payload = &buf.as_slice()[0..n];
            assert(payload@ =~= wire(cmd));
            Some(encode_frame(payload))
        },
        Err(_) => None,
    }
}

} // verus!
