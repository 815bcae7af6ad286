//! The host side of the serial link. Bytes read from the transport are
//! handed to a `LinkReceiver`, which frames and decodes them; what it has
//! not turned into a command yet stays with it from one call to the next,
//! so a receive that gives up early loses nothing.
use vstd::prelude::*;
use crate::codec::{parse, Command};
use crate::framing::{cobs_decoding, receive_bytes, FrameState, FramingBuffer, idle_state};

verus! {

/// The first command that can be formed from a framing state and the bytes
/// not handed to it yet, with the framing state and bytes that remain.
/// Packets that do not decode are dropped on the way; `None` when the bytes
/// run out first.
pub open spec fn next_from(st: FrameState, backlog: Seq<u8>, cap: nat) -> (Option<Command>, FrameState, Seq<u8>)
    decreases backlog.len(), (if st.packet is Some { 1int } else { 0int }),
{
    match st.packet {
        Some(body) => {
            let st1 = FrameState { packet: None, ..st };
            match cobs_decoding(body) {
                Some(p) => match parse(p) {
                    Some(c) => (Some(c), st1, backlog),
                    None => next_from(st1, backlog, cap),
                },
                None => next_from(st1, backlog, cap),
            }
        },
        None => {
            let (st2, n) = receive_bytes(st, backlog, cap);
            if n == 0 || n > backlog.len() {
                (None, st, backlog)
            } else {
                next_from(st2, backlog.subrange(n as int, backlog.len() as int), cap)
            }
        },
    }
}

/// The first packet that can be decoded from a framing state and the bytes
/// not handed to it yet, with the framing state and bytes that remain.
/// Malformed packets are dropped on the way; `None` when the bytes run out
/// first.
pub open spec fn next_packet_from(st: FrameState, backlog: Seq<u8>, cap: nat) -> (Option<Seq<u8>>, FrameState, Seq<u8>)
    decreases backlog.len(), (if st.packet is Some { 1int } else { 0int }),
{
    match st.packet {
        Some(body) => {
            let st1 = FrameState { packet: None, ..st };
            match cobs_decoding(body) {
                Some(p) => (Some(p), st1, backlog),
                None => next_packet_from(st1, backlog, cap),
            }
        },
        None => {
            let (st2, n) = receive_bytes(st, backlog, cap);
            if n == 0 || n > backlog.len() {
                (None, st, backlog)
            } else {
                next_packet_from(st2, backlog.subrange(n as int, backlog.len() as int), cap)
            }
        },
    }
}

/// Receiving takes at least one byte when there is one and no packet waits,
/// and never more than there are.
proof fn lemma_receive_progress(st: FrameState, data: Seq<u8>, cap: nat)
    ensures
        receive_bytes(st, data, cap).1 <= data.len(),
        data.len() > 0 && st.packet is None ==> receive_bytes(st, data, cap).1 >= 1,
    decreases data.len(),
{
    if data.len() > 0 && st.packet is None {
        lemma_receive_progress(crate::framing::receive_byte(st, data[0], cap), data.drop_first(), cap);
    }
}

/// Frames and decodes the bytes that the host reads from the device.
pub struct LinkReceiver<const N: usize> {
    framer: FramingBuffer<N>,
    backlog: Vec<u8>,
}

impl<const N: usize> LinkReceiver<N> {
    /// The framing state.
    pub closed spec fn frame_state(&self) -> FrameState {
        self.framer@
    }

    /// Bytes received but not handed to the framing buffer yet.
    pub closed spec fn pending(&self) -> Seq<u8> {
        self.backlog@
    }

    pub closed spec fn wf(&self) -> bool {
        self.framer.wf()
    }

    /// A receiver that holds nothing.
    pub fn new() -> (r: Self)
        ensures
            r.wf(),
            r.frame_state() == idle_state(),
            r.pending() == Seq::<u8>::empty(),
    {
        LinkReceiver { framer: FramingBuffer::new(), backlog: Vec::new() }
    }

    /// Takes bytes read from the transport.
    pub fn accept(&mut self, bytes: &[u8])
        requires
            old(self).wf(),
        ensures
            final(self).wf(),
            final(self).frame_state() == old(self).frame_state(),
            final(self).pending() == old(self).pending() + bytes@,
    {
        let mut i: usize = 0;
        while i < bytes.len()
            invariant
                self.wf(),
                i <= bytes@.len(),
                self.frame_state() == old(self).frame_state(),
                self.pending() == old(self).pending() + bytes@.subrange(0, i as int),
            decreases bytes@.len() - i,
        {
            self.backlog.push(bytes[i]);
            i = i + 1;
            assert(self.pending() =~= old(self).pending() + bytes@.subrange(0, i as int));
        }
        assert(bytes@.subrange(0, i as int) =~= bytes@);
    }

    /// The next command that the received bytes hold, if they hold a whole
    /// one; packets that do not decode are dropped. Bytes after that
    /// command, and a partial packet, stay for the next call.
    pub fn next_command(&mut self) -> (r: Option<Command>)
        requires
            old(self).wf(),
        ensures
            final(self).wf(),
            (r, final(self).frame_state(), final(self).pending()) == next_from(
                old(self).frame_state(),
                old(self).pending(),
                N as nat,
            ),
    {
        loop
            invariant
                self.wf(),
                next_from(self.frame_state(), self.pending(), N as nat) == next_from(
                    old(self).frame_state(),
                    old(self).pending(),
                    N as nat,
                ),
            decreases self.pending().len(), (if self.frame_state().packet is Some { 1int } else { 0int }),
        {
            if self.framer.has_packet() {
                match self.framer.read_packet() {
                    Ok(p) => match Command::from_bytes(p.as_slice()) {
                        Some(c) => return Some(c),
                        None => {},
                    },
                    Err(_) => {},
                }
            } else if self.backlog.len() == 0 {
                proof {
                    assert(receive_bytes(self.frame_state(), self.pending(), N as nat).1 == 0);
                }
                return None;
            } else {
                proof {
                    lemma_receive_progress(self.frame_state(), self.pending(), N as nat);
                }
                let n = self.framer.write_bytes(self.backlog.as_slice());
                let len = self.backlog.len();
                self.backlog = vstd::slice::slice_to_vec(&self.backlog.as_slice()[n..len]);
            }
        }
    }
    /// The next packet that the received bytes hold, decoded but not read
    /// as a command; malformed packets are dropped. Bytes after it, and a
    /// partial packet, stay for the next call.
    pub fn next_packet(&mut self) -> (r: Option<Vec<u8>>)
        requires
            old(self).wf(),
        ensures
            final(self).wf(),
            (match r {
                Some(p) => Some(p@),
                None => None,
            }, final(self).frame_state(), final(self).pending()) == next_packet_from(
                old(self).frame_state(),
                old(self).pending(),
                N as nat,
            ),
    {
        loop
            invariant
                self.wf(),
                next_packet_from(self.frame_state(), self.pending(), N as nat) == next_packet_from(
                    old(self).frame_state(),
                    old(self).pending(),
                    N as nat,
                ),
            decreases self.pending().len(), (if self.frame_state().packet is Some { 1int } else { 0int }),
        {
            if self.framer.has_packet() {
                match self.framer.read_packet() {
                    Ok(p) => return Some(p),
                    Err(_) => {},
                }
            } else if self.backlog.len() == 0 {
                proof {
                    assert(receive_bytes(self.frame_state(), self.pending(), N as nat).1 == 0);
                }
                return None;
            } else {
                proof {
                    lemma_receive_progress(self.frame_state(), self.pending(), N as nat);
                }
                let n = self.framer.write_bytes(self.backlog.as_slice());
                let len = self.backlog.len();
                self.backlog = vstd::slice::slice_to_vec(&self.backlog.as_slice()[n..len]);
            }
        }
    }
}

} // verus!
