//! Packet framing over a byte stream.
//!
//! Each packet is byte-stuffed with COBS (Consistent Overhead Byte
//! Stuffing) so that it holds no zero byte, then ended by one zero byte,
//! the delimiter. A `FramingBuffer` gathers received bytes and holds at most
//! one complete packet that has not been read yet.
use vstd::prelude::*;

verus! {

/// The byte that ends every frame.
pub const DELIMITER: u8 = 0x00;

/// The COBS encoding of a message, as the `cobs` crate computes it.
pub uninterp spec fn cobs_encoding(data: Seq<u8>) -> Seq<u8>;

/// The message that a COBS-encoded body decodes to, as the `cobs` crate
/// computes it; `None` when the body is malformed.
pub uninterp spec fn cobs_decoding(data: Seq<u8>) -> Option<Seq<u8>>;

/// Relies on `cobs::encode_vec`: the encoding holds no zero byte, is not
/// empty for a message that is not, and decodes back to the message.
#[verifier::external_body]
fn cobs_encode(data: &[u8]) -> (r: Vec<u8>)
    ensures
        r@ == cobs_encoding(data@),
        forall|i: int| 0 <= i < r@.len() ==> r@[i] != 0,
        data@.len() > 0 ==> r@.len() > 0,
        data@.len() > 0 ==> cobs_decoding(r@) == Some(data@),
{
    cobs::encode_vec(data)
}

/// Relies on `cobs::decode_vec`: the decoded message, or `None` when the
/// body is not a well-formed COBS encoding.
#[verifier::external_body]
fn cobs_decode(data: &[u8]) -> (r: Option<Vec<u8>>)
    ensures
        match r {
            Some(v) => cobs_decoding(data@) == Some(v@),
            None => cobs_decoding(data@) is None,
        },
{
    cobs::decode_vec(data).ok()
}

/// Why no packet could be read.
#[derive(Clone, Copy, Debug, PartialEq, Eq, Structural)]
pub enum FrameError {
    /// No delimiter has ended a packet since the last read.
    NoPacket,
    /// The bytes before the delimiter are not a valid COBS encoding; the
    /// packet is dropped.
    Malformed,
}

/// What a framing buffer holds.
pub struct FrameState {
    /// Bytes received since the last delimiter.
    pub partial: Seq<u8>,
    /// The current packet overran the buffer: its bytes are dropped up to
    /// the next delimiter.
    pub discarding: bool,
    /// The body of a complete packet, not read yet.
    pub packet: Option<Seq<u8>>,
}

/// A buffer that holds nothing.
pub open spec fn idle_state() -> FrameState {
    FrameState { partial: Seq::empty(), discarding: false, packet: None }
}

/// The state after one received byte, for a partial packet of at most
/// `cap` bytes.
pub open spec fn receive_byte(st: FrameState, b: u8, cap: nat) -> FrameState {
    if b == DELIMITER {
        if st.discarding {
            idle_state()
        } else if st.partial.len() == 0 {
            st
        } else {
            FrameState { partial: Seq::empty(), discarding: false, packet: Some(st.partial) }
        }
    } else if st.discarding {
        st
    } else if st.partial.len() < cap {
        FrameState { partial: st.partial.push(b), ..st }
    } else {
        FrameState { partial: Seq::empty(), discarding: true, ..st }
    }
}

/// Receiving `data`: bytes are taken one by one until a delimiter completes
/// a packet; the state then, and how many bytes were taken. Nothing is
/// taken while a complete packet waits to be read.
pub open spec fn receive_bytes(st: FrameState, data: Seq<u8>, cap: nat) -> (FrameState, nat)
    decreases data.len(),
{
    if data.len() == 0 || st.packet is Some {
        (st, 0)
    } else {
        let (st2, n) = receive_bytes(receive_byte(st, data[0], cap), data.drop_first(), cap);
        (st2, n + 1)
    }
}

/// The frame of a packet: its COBS encoding, then the delimiter.
pub open spec fn frame_of(payload: Seq<u8>) -> Seq<u8> {
    cobs_encoding(payload).push(DELIMITER)
}

/// The frame that carries `payload`: the payload with every zero byte
/// stuffed away, then the delimiter.
///
/// Framing round trip: for a non-empty payload whose encoding fits a buffer
/// of capacity `cap`, an idle buffer takes the whole frame, holds its body
/// as a complete packet, and that body decodes back to the payload.
pub fn encode_frame(payload: &[u8]) -> (r: Vec<u8>)
    ensures
        r@ == frame_of(payload@),
        forall|i: int| 0 <= i < r@.len() - 1 ==> r@[i] != DELIMITER,
        payload@.len() > 0 ==> cobs_decoding(cobs_encoding(payload@)) == Some(payload@),
        forall|cap: nat|
            payload@.len() > 0 && cobs_encoding(payload@).len() <= cap ==> #[trigger] receive_bytes(
                idle_state(),
                r@,
                cap,
            ) == (
            FrameState {
                partial: Seq::empty(),
                discarding: false,
                packet: Some(cobs_encoding(payload@)),
            },
            r@.len(),
        ),
{
    let mut r = cobs_encode(payload);
    let ghost body = r@;
    r.push(DELIMITER);
    proof {
        assert forall|cap: nat|
            payload@.len() > 0 && cobs_encoding(payload@).len() <= cap implies #[trigger] receive_bytes(
                idle_state(),
                r@,
                cap,
            ) == (
            FrameState {
                partial: Seq::empty(),
                discarding: false,
                packet: Some(cobs_encoding(payload@)),
            },
            r@.len(),
        ) by {
            lemma_receive_body(body, cap, body.len());
            assert(body.subrange(0, 0) =~= Seq::<u8>::empty());
            assert(body.subrange(0, body.len() as int) =~= body);
            assert(FrameState { partial: body.subrange(0, 0), discarding: false, packet: None } == idle_state());
            let st = receive_bytes(idle_state(), body.push(DELIMITER), cap);
            assert(st == (
            FrameState { partial: Seq::empty(), discarding: false, packet: Some(body) },
            body.len() + 1,
            ));
        }
    }
    r
}

/// Receiving the first `k` bytes of a zero-free body that fits, then the
/// rest of the body and the delimiter, ends with the body as the packet.
proof fn lemma_receive_body(body: Seq<u8>, cap: nat, k: nat)
    requires
        body.len() > 0,
        body.len() <= cap,
        k <= body.len(),
        forall|i: int| 0 <= i < body.len() ==> body[i] != 0,
    ensures
        receive_bytes(
            FrameState { partial: body.subrange(0, body.len() - k), discarding: false, packet: None },
            body.subrange(body.len() - k, body.len() as int).push(DELIMITER),
            cap,
        ) == (FrameState { partial: Seq::empty(), discarding: false, packet: Some(body) }, k + 1),
    decreases k,
{
    let j = body.len() - k;
    let st = FrameState { partial: body.subrange(0, j), discarding: false, packet: None };
    let data = body.subrange(j, body.len() as int).push(DELIMITER);
    if k == 0 {
        assert(body.subrange(0, j) =~= body);
        assert(data =~= seq![DELIMITER]);
        assert(data.drop_first() =~= Seq::<u8>::empty());
        let st1 = receive_byte(st, data[0], cap);
        assert(st1 == FrameState { partial: Seq::<u8>::empty(), discarding: false, packet: Some(body) });
        assert(receive_bytes(st1, data.drop_first(), cap) == (st1, 0nat));
    } else {
        assert(data[0] == body[j]);
        let st1 = receive_byte(st, data[0], cap);
        assert(st1.partial =~= body.subrange(0, j + 1));
        assert(data.drop_first() =~= body.subrange(j + 1, body.len() as int).push(DELIMITER));
        lemma_receive_body(body, cap, (k - 1) as nat);
        assert(st1 == FrameState { partial: body.subrange(0, body.len() - (k - 1) as nat), discarding: false, packet: None });
        assert(body.subrange(body.len() - (k - 1) as nat, body.len() as int).push(DELIMITER) =~= data.drop_first());
    }
}

/// Gathers received bytes into packets. A partial packet holds at most `N`
/// bytes; a longer one is dropped up to its delimiter.
pub struct FramingBuffer<const N: usize> {
    partial: Vec<u8>,
    discarding: bool,
    packet: Option<Vec<u8>>,
}

impl<const N: usize> View for FramingBuffer<N> {
    type V = FrameState;

    closed spec fn view(&self) -> FrameState {
        FrameState {
            partial: self.partial@,
            discarding: self.discarding,
            packet: match self.packet {
                Some(p) => Some(p@),
                None => None,
            },
        }
    }
}

impl<const N: usize> FramingBuffer<N> {
    /// The partial packet fits its bound.
    pub closed spec fn wf(&self) -> bool {
        self.partial@.len() <= N
    }

    /// An empty buffer.
    pub fn new() -> (r: Self)
        ensures
            r.wf(),
            r@ == idle_state(),
    {
        Self { partial: Vec::new(), discarding: false, packet: None }
    }

    /// True when a complete packet waits to be read.
    pub fn has_packet(&self) -> (r: bool)
        ensures
            r == self@.packet is Some,
    {
        self.packet.is_some()
    }

    /// Takes received bytes from the front of `data`, up to and including a
    /// delimiter that completes a packet, and returns how many it took.
    /// While a complete packet waits to be read it takes none: what is not
    /// taken is handed in again after `read_packet`.
    pub fn write_bytes(&mut self, data: &[u8]) -> (r: usize)
        requires
            old(self).wf(),
        ensures
            final(self).wf(),
            (final(self)@, r as nat) == receive_bytes(old(self)@, data@, N as nat),
    {
        let mut i: usize = 0;
        assert(data@.subrange(0, data@.len() as int) =~= data@);
        while i < data.len() && self.packet.is_none()
            invariant
                self.wf(),
                i <= data@.len(),
                receive_bytes(old(self)@, data@, N as nat) == (
                    receive_bytes(self@, data@.subrange(i as int, data@.len() as int), N as nat).0,
                    (i + receive_bytes(self@, data@.subrange(i as int, data@.len() as int), N as nat).1) as nat,
                ),
            decreases data@.len() - i,
        {
            let ghost rest = data@.subrange(i as int, data@.len() as int);
            let ghost before = self@;
            let b = data[i];
            if b == DELIMITER {
                if self.discarding {
                    self.discarding = false;
                    self.partial = Vec::new();
                } else if self.partial.len() > 0 {
                    let body = self.partial.clone();
                    self.packet = Some(body);
                    self.partial = Vec::new();
                }
            } else if !self.discarding {
                if self.partial.len() < N {
                    self.partial.push(b);
                } else {
                    self.partial = Vec::new();
                    self.discarding = true;
                }
            }
            i = i + 1;
            proof {
                assert(self@ == receive_byte(before, b, N as nat));
                assert(rest.drop_first() =~= data@.subrange(i as int, data@.len() as int));
            }
        }
        proof {
            let rest = data@.subrange(i as int, data@.len() as int);
            assert(receive_bytes(self@, rest, N as nat) == (self@, 0nat));
        }
        i
    }

    /// Reads the complete packet, if any, and decodes it. The packet is
    /// consumed whether or not it decodes; the partial packet stays.
    pub fn read_packet(&mut self) -> (r: Result<Vec<u8>, FrameError>)
        requires
            old(self).wf(),
        ensures
            final(self).wf(),
            final(self)@ == (FrameState { packet: None, ..old(self)@ }),
            match old(self)@.packet {
                None => r == Err::<Vec<u8>, FrameError>(FrameError::NoPacket),
                Some(body) => match cobs_decoding(body) {
                    Some(p) => r is Ok && r->Ok_0@ == p,
                    None => r == Err::<Vec<u8>, FrameError>(FrameError::Malformed),
                },
            },
    {
        match self.packet.take() {
            None => Err(FrameError::NoPacket),
            Some(body) => match cobs_decode(body.as_slice()) {
                Some(p) => Ok(p),
                None => Err(FrameError::Malformed),
            },
        }
    }
}

} // verus!
