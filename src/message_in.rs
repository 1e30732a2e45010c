use vstd::bytes::{spec_u32_from_le_bytes, u32_from_le_bytes};
use vstd::prelude::*;
use vstd::slice::{slice_subrange, slice_to_vec};
use vstd::utf8::{decode_utf8, valid_utf8};

verus! {

/// Why an inbound datagram could not be turned into a message.
#[derive(Debug, Clone, Copy, PartialEq, Eq, Structural)]
pub enum DecodeError {
    /// The payload is shorter than its message type requires.
    BufferTooShort,
    /// The first byte names no known message type.
    InvalidTag,
    /// A text payload is not valid UTF-8.
    InvalidUtf8,
}

/// The type tag carried in the first byte of an inbound datagram.
#[derive(Debug, Clone, Copy, PartialEq, Eq, Structural)]
pub enum MessageInType {
    /// Tag 0.
    Spawn,
    /// Tag 2.
    Move,
    /// Tag 3.
    Rotation,
    /// Tag 4.
    Jump,
    /// Any other tag.
    Invalid,
}

pub const TAG_SPAWN: u8 = 0;
pub const TAG_MOVE: u8 = 2;
pub const TAG_ROTATION: u8 = 3;
pub const TAG_JUMP: u8 = 4;

/// The message type that a tag byte stands for.
pub open spec fn spec_message_in_type(tag: u8) -> MessageInType {
    if tag == TAG_SPAWN {
        MessageInType::Spawn
    } else if tag == TAG_MOVE {
        MessageInType::Move
    } else if tag == TAG_ROTATION {
        MessageInType::Rotation
    } else if tag == TAG_JUMP {
        MessageInType::Jump
    } else {
        MessageInType::Invalid
    }
}

impl MessageInType {
    pub fn from_tag(value: u8) -> (r: MessageInType)
        ensures
            r == spec_message_in_type(value),
    {
        match value {
            0 => MessageInType::Spawn,
            2 => MessageInType::Move,
            3 => MessageInType::Rotation,
            4 => MessageInType::Jump,
            _ => MessageInType::Invalid,
        }
    }
}

/// An inbound datagram split into its type tag and the bytes after it.
#[derive(Debug)]
pub struct MessageIn {
    pub event_type: MessageInType,
    pub data: Vec<u8>,
}

impl MessageIn {
    /// Splits a datagram into its tag and payload; only an empty datagram fails.
    pub fn new(bytes: Vec<u8>) -> (r: Result<MessageIn, DecodeError>)
        ensures
            bytes@.len() == 0 <==> r is Err,
            r is Err ==> r->Err_0 == DecodeError::BufferTooShort,
            r is Ok ==> r->Ok_0.event_type == spec_message_in_type(bytes@[0])
                && r->Ok_0.data@ == bytes@.subrange(1, bytes@.len() as int),
    {
        if bytes.len() < 1 {
            return Err(DecodeError::BufferTooShort);
        }
        let event_type = MessageInType::from_tag(bytes[0]);
        let data = slice_to_vec(slice_subrange(bytes.as_slice(), 1, bytes.len()));
        Ok(MessageIn { event_type, data })
    }
}

/// A movement intent: the bit patterns of two `f32` values, world `x` and world `z`.
#[derive(Debug, Clone, Copy, PartialEq, Eq, Structural)]
pub struct MoveMessageIn {
    pub x: u32,
    pub y: u32,
}

/// A look direction: the bit patterns of the four `f32` quaternion components.
#[derive(Debug, Clone, Copy, PartialEq, Eq, Structural)]
pub struct RotationMessageIn {
    pub x: u32,
    pub y: u32,
    pub z: u32,
    pub w: u32,
}

/// A jump request; it carries no payload.
#[derive(Debug, Clone, Copy, PartialEq, Eq, Structural)]
pub struct Jump {}

#[derive(Debug)]
pub struct ConnectMessageIn {
    pub message: String,
}

#[derive(Debug)]
pub struct DisconnectMessageIn {
    pub message: String,
}

/// The little-endian `u32` stored at `data[off..off + 4]`.
pub open spec fn le_u32_at(data: Seq<u8>, off: int) -> u32 {
    spec_u32_from_le_bytes(data.subrange(off, off + 4))
}

fn read_u32_at(data: &Vec<u8>, off: usize) -> (r: u32)
    requires
        off + 4 <= data@.len(),
    ensures
        r == le_u32_at(data@, off as int),
{
    let _len = data.len();
    let s = slice_subrange(data.as_slice(), off, off + 4);
    u32_from_le_bytes(s)
}

/// Decodes the payload of a Move message: two little-endian `f32` fields.
pub fn digest_move_message(data: Vec<u8>) -> (r: Result<MoveMessageIn, DecodeError>)
    ensures
        data@.len() < 8 <==> r is Err,
        r is Err ==> r->Err_0 == DecodeError::BufferTooShort,
        r is Ok ==> r->Ok_0 == (MoveMessageIn { x: le_u32_at(data@, 0), y: le_u32_at(data@, 4) }),
{
    if data.len() < 8 {
        return Err(DecodeError::BufferTooShort);
    }
    let x = read_u32_at(&data, 0);
    let y = read_u32_at(&data, 4);
    Ok(MoveMessageIn { x, y })
}

/// Decodes the payload of a Rotation message: four little-endian `f32` fields,
/// taken verbatim.
pub fn digest_rotation_message(data: Vec<u8>) -> (r: Result<RotationMessageIn, DecodeError>)
    ensures
        data@.len() < 16 <==> r is Err,
        r is Err ==> r->Err_0 == DecodeError::BufferTooShort,
        r is Ok ==> r->Ok_0 == (RotationMessageIn {
            x: le_u32_at(data@, 0),
            y: le_u32_at(data@, 4),
            z: le_u32_at(data@, 8),
            w: le_u32_at(data@, 12),
        }),
{
    if data.len() < 16 {
        return Err(DecodeError::BufferTooShort);
    }
    let x = read_u32_at(&data, 0);
    let y = read_u32_at(&data, 4);
    let z = read_u32_at(&data, 8);
    let w = read_u32_at(&data, 12);
    Ok(RotationMessageIn { x, y, z, w })
}

/// Relies on `String::from_utf8`: it succeeds exactly on valid UTF-8 and then
/// holds the characters those bytes encode.
#[verifier::external_body]
fn string_from_utf8(data: Vec<u8>) -> (r: Option<String>)
    ensures
        r is Some <==> valid_utf8(data@),
        r is Some ==> r->Some_0@ == decode_utf8(data@),
{
    String::from_utf8(data).ok()
}

/// Decodes a non-empty UTF-8 text payload.
pub fn digest_connect_message(data: Vec<u8>) -> (r: Result<ConnectMessageIn, DecodeError>)
    ensures
        data@.len() < 1 ==> r == Err::<ConnectMessageIn, DecodeError>(DecodeError::BufferTooShort),
        data@.len() >= 1 && !valid_utf8(data@) ==> r == Err::<ConnectMessageIn, DecodeError>(DecodeError::InvalidUtf8),
        r is Ok <==> data@.len() >= 1 && valid_utf8(data@),
        r is Ok ==> r->Ok_0.message@ == decode_utf8(data@),
{
    if data.len() < 1 {
        return Err(DecodeError::BufferTooShort);
    }
    match string_from_utf8(data) {
        Some(message) => Ok(ConnectMessageIn { message }),
        None => Err(DecodeError::InvalidUtf8),
    }
}

/// A fully decoded inbound message.
#[derive(Debug, Clone, Copy, PartialEq, Eq, Structural)]
pub enum InboundMessage {
    Spawn,
    Move(MoveMessageIn),
    Rotation(RotationMessageIn),
    Jump(Jump),
}

/// What a whole datagram decodes to.
pub open spec fn spec_decode_inbound(bytes: Seq<u8>) -> Result<InboundMessage, DecodeError> {
    if bytes.len() == 0 {
        Err(DecodeError::BufferTooShort)
    } else {
        let tag = bytes[0];
        let data = bytes.subrange(1, bytes.len() as int);
        if tag == TAG_SPAWN {
            Ok(InboundMessage::Spawn)
        } else if tag == TAG_JUMP {
            Ok(InboundMessage::Jump(Jump {}))
        } else if tag == TAG_MOVE {
            if data.len() < 8 {
                Err(DecodeError::BufferTooShort)
            } else {
                Ok(InboundMessage::Move(MoveMessageIn { x: le_u32_at(data, 0), y: le_u32_at(data, 4) }))
            }
        } else if tag == TAG_ROTATION {
            if data.len() < 16 {
                Err(DecodeError::BufferTooShort)
            } else {
                Ok(InboundMessage::Rotation(RotationMessageIn {
                    x: le_u32_at(data, 0),
                    y: le_u32_at(data, 4),
                    z: le_u32_at(data, 8),
                    w: le_u32_at(data, 12),
                }))
            }
        } else {
            Err(DecodeError::InvalidTag)
        }
    }
}

/// Decodes one inbound datagram by its type tag.
pub fn decode_inbound(bytes: Vec<u8>) -> (r: Result<InboundMessage, DecodeError>)
    ensures
        r == spec_decode_inbound(bytes@),
{
    let ghost all = bytes@;
    let m = MessageIn::new(bytes)?;
    match m.event_type {
        MessageInType::Spawn => Ok(InboundMessage::Spawn),
        MessageInType::Jump => Ok(InboundMessage::Jump(Jump {})),
        MessageInType::Move => {
            let mv = digest_move_message(m.data)?;
            Ok(InboundMessage::Move(mv))
        },
        MessageInType::Rotation => {
            let rot = digest_rotation_message(m.data)?;
            Ok(InboundMessage::Rotation(rot))
        },
        MessageInType::Invalid => Err(DecodeError::InvalidTag),
    }
}

} // verus!
