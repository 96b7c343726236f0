//! Turning messages into bytes and back.

use crate::message::Message;
use vstd::prelude::*;

verus! {

/// Encodes outgoing messages and decodes incoming ones.
pub trait SansCoder<In, Out>: SansEncoder<Out> + SansDecoder<In> {

}

impl<Coder, In, Out> SansCoder<In, Out> for Coder where
    Coder: SansEncoder<Out> + SansDecoder<In>,
 {

}

/// Turns a message into its bytes and the length that is announced for them.
pub trait SansEncoder<T> {
    type Error;

    fn encode(&self, item: &Message<T>) -> (result: Result<(Vec<u8>, u64), Self::Error>);
}

/// Turns the bytes of one message back into the message.
pub trait SansDecoder<T> {
    type Error;

    fn decode(&self, bytes: &[u8]) -> (result: Result<Message<T>, Self::Error>);
}

/// `encoder` may answer `item` with `result`. Nothing asks that it always answers the
/// same item in the same way.
pub open spec fn may_encode<T, Encoder: SansEncoder<T>>(
    encoder: Encoder,
    item: Message<T>,
    result: Result<(Vec<u8>, u64), Encoder::Error>,
) -> bool {
    call_ensures(Encoder::encode, (&encoder, &item), result)
}

/// `decoder` may answer `bytes` with `result`. Nothing asks that it always answers the
/// same bytes in the same way.
pub open spec fn may_decode<T, Decoder: SansDecoder<T>>(
    decoder: Decoder,
    bytes: Seq<u8>,
    result: Result<Message<T>, Decoder::Error>,
) -> bool {
    exists|slice: &[u8]|
        slice@ == bytes && #[trigger] call_ensures(Decoder::decode, (&decoder, slice), result)
}

/// A coder that comes apart into a decoder and an encoder.
pub trait IntoSplitCoder<In, Out>: SansCoder<In, Out> + Sized {
    type Encoder: SansEncoder<Out>;

    type Decoder: SansDecoder<In>;

    fn into_split(self) -> (halves: (Self::Decoder, Self::Encoder));
}

/// `coder` may come apart into `decoder` and `encoder`.
pub open spec fn may_split<In, Out, Coder: IntoSplitCoder<In, Out>>(
    coder: Coder,
    decoder: Coder::Decoder,
    encoder: Coder::Encoder,
) -> bool {
    call_ensures(Coder::into_split, (coder,), (decoder, encoder))
}

impl<Coder, In, Out> IntoSplitCoder<In, Out> for Coder where Coder: Clone + SansCoder<In, Out> {
    type Encoder = Self;

    type Decoder = Self;

    /// The decoder is a clone, the encoder the coder itself.
    fn into_split(self) -> (halves: (Self::Decoder, Self::Encoder))
        ensures
            call_ensures(Coder::clone, (&self,), halves.0),
            halves.1 == self,
    {
        (self.clone(), self)
    }
}

/// The encoded bytes together with their length, as `SansEncoder::encode` answers.
pub fn with_length(bytes: Vec<u8>) -> (encoded: (Vec<u8>, u64))
    ensures
        encoded.0@ == bytes@,
        encoded.1 == bytes@.len(),
{
    let len: u64 = bytes.len() as u64;
    (bytes, len)
}

} // verus!
