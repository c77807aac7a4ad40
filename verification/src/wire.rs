//! A Megolm message as it travels: bytes that carry, among other things, the
//! index at which the sender's ratchet stood.

use vodozemac::megolm::MegolmMessage;
use vstd::prelude::*;

verus! {

#[verifier::external_type_specification]
#[verifier::external_body]
pub struct ExMegolmMessage(vodozemac::megolm::MegolmMessage);

#[verifier::external_type_specification]
#[verifier::external_body]
pub struct ExDecodeError(vodozemac::DecodeError);

/// The message index that the Megolm message `bytes` carries, or `None` where
/// `bytes` is no Megolm message.
pub uninterp spec fn megolm_message_index(bytes: Seq<u8>) -> Option<u32>;

/// A received Megolm message, decoded: the bytes it came in, the message
/// itself, kept for the ratchet, and the index read from it.
///
/// The three fields are written when the bytes are decoded, and nowhere else.
pub struct WireMessage {
    index: u32,
    bytes: Vec<u8>,
    message: MegolmMessage,
}

impl WireMessage {
    /// The index at which the sender's ratchet stood.
    pub closed spec fn index_spec(&self) -> u32 {
        self.index
    }

    /// The index at which the sender's ratchet stood.
    pub fn index(&self) -> (index: u32)
        ensures
            index == self.index_spec(),
    {
        self.index
    }

    /// The bytes that the message was decoded from.
    pub closed spec fn bytes_spec(&self) -> Seq<u8> {
        self.bytes@
    }

    /// The bytes that the message was decoded from.
    pub fn bytes(&self) -> (bytes: &Vec<u8>)
        ensures
            bytes@ == self.bytes_spec(),
    {
        &self.bytes
    }

    /// The message as the ratchet takes it.
    pub(crate) fn message(&self) -> (message: &MegolmMessage)
        ensures
            *message == self.decoded(),
    {
        &self.message
    }

    /// Decodes `bytes`, or returns `None` where they are no Megolm message.
    pub fn decode(bytes: &[u8]) -> (decoded: Option<WireMessage>)
        ensures
            wire_index(decoded) == megolm_message_index(bytes@),
            decoded matches Some(message) ==> message.bytes_spec() == bytes@,
    {
        match decode_megolm(bytes) {
            Ok(message) => Some(message),
            Err(_) => None,
        }
    }

    /// The message that decoding gave.
    pub closed spec fn decoded(&self) -> MegolmMessage {
        self.message
    }
}

/// The bytes and the index of a decoded message, `None` where decoding
/// failed.
pub open spec fn wire_decoded(decoded: Option<WireMessage>) -> Option<(Seq<u8>, u32)> {
    match decoded {
        Some(message) => Some((message.bytes_spec(), message.index_spec())),
        None => None,
    }
}

/// The index of a decoded message, `None` where decoding failed.
pub open spec fn wire_index(decoded: Option<WireMessage>) -> Option<u32> {
    match decoded {
        Some(message) => Some(message.index_spec()),
        None => None,
    }
}

/// `MegolmMessage::from_bytes`, with `MegolmMessage::message_index` read off the
/// decoded message and the bytes kept beside it. Trusted: whether decoding
/// succeeds, and the index found, depend on the bytes alone;
/// `megolm_message_index` is the name of that result.
#[verifier::external_body]
fn decode_megolm(bytes: &[u8]) -> (decoded: Result<WireMessage, vodozemac::DecodeError>)
    ensures
        match decoded {
            Ok(message) => {
                &&& megolm_message_index(bytes@) == Some(message.index_spec())
                &&& message.bytes_spec() == bytes@
            },
            Err(_) => megolm_message_index(bytes@) is None,
        },
{
    match MegolmMessage::from_bytes(bytes) {
        Ok(message) => Ok(
            WireMessage { index: message.message_index(), bytes: bytes.to_vec(), message },
        ),
        Err(error) => Err(error),
    }
}

} // verus!
