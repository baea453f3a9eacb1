//! A small request/response protocol carried over a pair of byte streams.
//!
//! Messages travel in length-prefixed frames: eight big-endian bytes that
//! give the payload's length, then the payload. The payload of each message
//! is its postcard encoding. On top of the frames, the `exchange` module
//! holds the rules that say which message may follow which.

mod frame;
pub mod wire;
pub mod proto_json;
pub mod proto_postcard;
pub mod symbols;
pub mod substitute;
pub mod exchange;

use vstd::prelude::*;

pub use frame::{
    frame_of, frame_payload, split_frame, read_u64_be, write_u64_be, be_bytes, be_value,
    lemma_be_round_trip, lemma_frame_round_trip, lemma_truncated_frame_rejected,
};

verus! {

/// What reading a frame from `stream` owes: `Truncated` where the stream
/// holds no whole frame; else the message in the frame's payload and the
/// frame's length, or `InvalidData`. A frame that carries a message is
/// read back as that message.
pub open spec fn receive_ensures<M: Message>(
    stream: Seq<u8>,
    r: Result<(M, usize), ProtoError>,
) -> bool {
    &&& frame_payload(stream) is None ==> r == Err::<(M, usize), ProtoError>(ProtoError::Truncated)
    &&& frame_payload(stream) matches Some(p) ==> {
        &&& r is Ok || r == Err::<(M, usize), ProtoError>(ProtoError::InvalidData)
        &&& r is Ok ==> r.unwrap().1 == 8 + p.len()
        &&& forall|m: M, rest: Seq<u8>|
            p == #[trigger] (m.wire() + rest) ==> r is Ok && r.unwrap().0@ == m@
    }
    &&& forall|m: M, rest: Seq<u8>|
        stream == #[trigger] (frame_of(m.wire()) + rest) ==> r is Ok && r.unwrap().0@ == m@
            && r.unwrap().1 == frame_of(m.wire()).len()
}

/// A message that can travel in a frame: it has one payload encoding, and
/// reading a payload back gives the message it encodes.
pub trait Message: Sized + View {
    /// The payload that encodes this message.
    spec fn wire(&self) -> Seq<u8>;

    /// Writes the payload of this message.
    fn encode(&self) -> (r: Vec<u8>)
        ensures
            r@ == self.wire(),
    ;

    /// Reads the message whose payload `b` starts with.
    fn decode(b: &[u8]) -> (r: Option<Self>)
        ensures
            forall|m: Self, rest: Seq<u8>| b@ == #[trigger] (m.wire() + rest) ==> r is Some
                && r.unwrap()@ == m@,
    ;

    /// Appends to `out` the frame that carries this message.
    fn send(&self, out: &mut Vec<u8>)
        ensures
            final(out)@ == old(out)@ + frame_of(self.wire()),
    {
        let payload = self.encode();
        write_u64_be(out, payload.len() as u64);
        let mut p = payload;
        out.append(&mut p);
        assert(final(out)@ =~= old(out)@ + frame_of(self.wire()));
    }

    /// Reads the message in the frame at the start of `stream`, and the
    /// number of bytes that the frame takes.
    fn receive(stream: &[u8]) -> (r: Result<(Self, usize), ProtoError>)
        ensures
            frame_payload(stream@) is None ==> r == Err::<(Self, usize), ProtoError>(
                ProtoError::Truncated,
            ),
            frame_payload(stream@) matches Some(p) ==> {
                &&& r is Ok || r == Err::<(Self, usize), ProtoError>(ProtoError::InvalidData)
                &&& r is Ok ==> r.unwrap().1 == 8 + p.len()
                &&& forall|m: Self, rest: Seq<u8>|
                    p == #[trigger] (m.wire() + rest) ==> r is Ok && r.unwrap().0@ == m@
            },
            forall|m: Self, rest: Seq<u8>|
                stream@ == #[trigger] (frame_of(m.wire()) + rest) ==> r is Ok && r.unwrap().0@
                    == m@ && r.unwrap().1 == frame_of(m.wire()).len(),
    {
        let total = stream.len();
        proof {
            assert forall|m: Self, rest: Seq<u8>| stream@ == #[trigger] (frame_of(m.wire()) + rest)
                implies frame_payload(stream@) == Some(m.wire()) && m.wire() == m.wire() + Seq::<
                u8,
            >::empty() by {
                assert(m.wire().len() <= total);
                lemma_frame_round_trip(m.wire(), rest);
                assert(m.wire() =~= m.wire() + Seq::<u8>::empty());
            }
        }
        match split_frame(stream) {
            None => Err(ProtoError::Truncated),
            Some((payload, used)) => match Self::decode(payload.as_slice()) {
                Some(m) => Ok((m, used)),
                None => Err(ProtoError::InvalidData),
            },
        }
    }
}

/// Why a frame could not be read.
#[derive(Debug, Clone, Copy, PartialEq, Eq, Structural)]
pub enum ProtoError {
    /// The stream ends before the frame does.
    Truncated,
    /// The frame is whole, but its payload is no message of the expected kind.
    InvalidData,
}

/// Appends to `out` the frame that carries `msg`.
pub fn send_msg<M: Message>(msg: &M, out: &mut Vec<u8>)
    ensures
        final(out)@ == old(out)@ + frame_of(msg.wire()),
{
    msg.send(out)
}

/// Reads the message in the frame at the start of `stream`, and the number
/// of bytes that the frame takes.
pub fn receive_msg<M: Message>(stream: &[u8]) -> (r: Result<(M, usize), ProtoError>)
    ensures
        receive_ensures(stream@, r),
{
    M::receive(stream)
}

} // verus!
