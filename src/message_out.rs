use vstd::bytes::{
    spec_u16_to_le_bytes, spec_u32_to_le_bytes, spec_u64_to_le_bytes, u16_to_le_bytes,
    u32_to_le_bytes, u64_to_le_bytes,
};
use vstd::prelude::*;
use vstd::utf8::encode_utf8;

verus! {

/// Width in bytes of a player identity on the wire.
pub const PLAYER_ID_LEN: usize = 16;

pub const PREFIX_SPAWN: u8 = 0;
pub const PREFIX_POSITION: u8 = 1;
pub const PREFIX_ROTATION: u8 = 2;
pub const PREFIX_DISCONNECT: u8 = 10;
pub const PREFIX_TICK_SYNC: u8 = 11;

/// A 3-vector of `f32` values, each held as its bit pattern.
#[derive(Debug, Clone, Copy, PartialEq, Eq, Structural)]
pub struct Vec3 {
    pub x: u32,
    pub y: u32,
    pub z: u32,
}

/// A quaternion `(x, y, z, w)` of `f32` values, each held as its bit pattern.
#[derive(Debug, Clone, Copy, PartialEq, Eq, Structural)]
pub struct Quat {
    pub x: u32,
    pub y: u32,
    pub z: u32,
    pub w: u32,
}

/// The kind of an outbound message.
#[derive(Debug, Clone, Copy, PartialEq, Eq, Structural)]
pub enum MessageOutType {
    Spawn,
    Position,
    Rotation,
    Disconnect,
    TickSync,
}

/// An encoded outbound message: `data` starts with the one-byte type prefix.
#[derive(Debug)]
pub struct MessageOut {
    pub event_type: MessageOutType,
    pub data: Vec<u8>,
}

pub open spec fn le16(x: u16) -> Seq<u8> {
    spec_u16_to_le_bytes(x)
}

pub open spec fn le32(x: u32) -> Seq<u8> {
    spec_u32_to_le_bytes(x)
}

pub open spec fn le64(x: u64) -> Seq<u8> {
    spec_u64_to_le_bytes(x)
}

pub open spec fn vec3_bytes(v: Vec3) -> Seq<u8> {
    le32(v.x) + le32(v.y) + le32(v.z)
}

pub open spec fn quat_bytes(q: Quat) -> Seq<u8> {
    le32(q.x) + le32(q.y) + le32(q.z) + le32(q.w)
}

/// The UTF-8 bytes of an identity.
pub open spec fn id_bytes(id: Seq<char>) -> Seq<u8> {
    encode_utf8(id)
}

/// An identity's bytes cut or zero-padded to exactly sixteen.
pub open spec fn spec_normalize(b: Seq<u8>) -> Seq<u8> {
    Seq::new(PLAYER_ID_LEN as nat, |i: int| if i < b.len() { b[i] } else { 0u8 })
}

/// The concatenated encodings of a sequence of records.
pub open spec fn concat_records<T>(s: Seq<T>, f: spec_fn(T) -> Seq<u8>) -> Seq<u8>
    decreases s.len(),
{
    if s.len() == 0 {
        Seq::empty()
    } else {
        concat_records(s.drop_last(), f) + f(s.last())
    }
}

/// A sequence encoded as its element count, a little-endian `u64`, then its records.
pub open spec fn seq_bytes<T>(s: Seq<T>, f: spec_fn(T) -> Seq<u8>) -> Seq<u8> {
    le64(s.len() as u64) + concat_records(s, f)
}

pub open spec fn position_record(e: (Seq<u8>, Vec3)) -> Seq<u8> {
    e.0 + vec3_bytes(e.1)
}

pub open spec fn rotation_record(e: (Seq<u8>, Quat)) -> Seq<u8> {
    e.0 + quat_bytes(e.1)
}

pub open spec fn spawn_record(e: (Seq<u8>, Vec3, Quat)) -> Seq<u8> {
    e.0 + vec3_bytes(e.1) + quat_bytes(e.2)
}

pub open spec fn disconnect_record(e: Seq<u8>) -> Seq<u8> {
    e
}

pub open spec fn position_record_fn() -> spec_fn((Seq<u8>, Vec3)) -> Seq<u8> {
    |e: (Seq<u8>, Vec3)| position_record(e)
}

pub open spec fn rotation_record_fn() -> spec_fn((Seq<u8>, Quat)) -> Seq<u8> {
    |e: (Seq<u8>, Quat)| rotation_record(e)
}

pub open spec fn spawn_record_fn() -> spec_fn((Seq<u8>, Vec3, Quat)) -> Seq<u8> {
    |e: (Seq<u8>, Vec3, Quat)| spawn_record(e)
}

pub open spec fn disconnect_record_fn() -> spec_fn(Seq<u8>) -> Seq<u8> {
    |e: Seq<u8>| disconnect_record(e)
}

/// The bytes of a Position message carrying `(identity, position)` entries.
pub open spec fn position_bytes(tick: u16, s: Seq<(Seq<u8>, Vec3)>) -> Seq<u8> {
    seq![PREFIX_POSITION] + le16(tick) + seq_bytes(s, position_record_fn())
}

/// The bytes of a Rotation message carrying `(identity, rotation)` entries.
pub open spec fn rotation_bytes(s: Seq<(Seq<u8>, Quat)>) -> Seq<u8> {
    seq![PREFIX_ROTATION] + seq_bytes(s, rotation_record_fn())
}

/// The bytes of a Spawn message carrying `(identity, position, rotation)` entries.
pub open spec fn spawn_bytes(s: Seq<(Seq<u8>, Vec3, Quat)>) -> Seq<u8> {
    seq![PREFIX_SPAWN] + seq_bytes(s, spawn_record_fn())
}

/// The bytes of a Disconnect message carrying identities.
pub open spec fn disconnect_bytes(s: Seq<Seq<u8>>) -> Seq<u8> {
    seq![PREFIX_DISCONNECT] + seq_bytes(s, disconnect_record_fn())
}

/// The bytes of a TickSync message.
pub open spec fn tick_sync_bytes(tick: u16) -> Seq<u8> {
    seq![PREFIX_TICK_SYNC] + le16(tick)
}

/// The wire form of a player identity.
pub open spec fn wire_id(id: Seq<char>) -> Seq<u8> {
    spec_normalize(id_bytes(id))
}

pub open spec fn position_entries(p: Seq<(Vec3, String)>) -> Seq<(Seq<u8>, Vec3)> {
    p.map_values(|e: (Vec3, String)| (wire_id(e.1@), e.0))
}

pub open spec fn rotation_entries(p: Seq<(Quat, String)>) -> Seq<(Seq<u8>, Quat)> {
    p.map_values(|e: (Quat, String)| (wire_id(e.1@), e.0))
}

pub open spec fn disconnect_entries(p: Seq<String>) -> Seq<Seq<u8>> {
    p.map_values(|e: String| wire_id(e@))
}

/// Cuts or zero-pads an identity's UTF-8 bytes to sixteen.
pub fn normalize_player_id(player_id: &str) -> (r: [u8; 16])
    ensures
        r@ == spec_normalize(id_bytes(player_id@)),
{
    let mut bytes = [0u8; 16];
    let src = player_id.as_bytes();
    let len = if src.len() < PLAYER_ID_LEN { src.len() } else { PLAYER_ID_LEN };
    let mut i: usize = 0;
    while i < len
        invariant
            len <= 16,
            len <= src@.len(),
            i <= len,
            src@ == id_bytes(player_id@),
            len == if src@.len() < 16 { src@.len() } else { 16 },
            forall|j: int| 0 <= j < i ==> bytes@[j] == src@[j],
            forall|j: int| i <= j < 16 ==> bytes@[j] == 0u8,
        decreases len - i,
    {
        bytes[i] = src[i];
        i = i + 1;
    }
    assert(bytes@ =~= spec_normalize(id_bytes(player_id@)));
    bytes
}


proof fn lemma_concat_records_step<T>(s: Seq<T>, i: int, f: spec_fn(T) -> Seq<u8>)
    requires
        0 <= i < s.len(),
    ensures
        concat_records(s.subrange(0, i + 1), f) == concat_records(s.subrange(0, i), f) + f(s[i]),
{
    assert(s.subrange(0, i + 1).drop_last() =~= s.subrange(0, i));
}

fn push_u16(out: &mut Vec<u8>, x: u16)
    ensures
        final(out)@ == old(out)@ + le16(x),
{
    let mut b = u16_to_le_bytes(x);
    out.append(&mut b);
}

fn push_u32(out: &mut Vec<u8>, x: u32)
    ensures
        final(out)@ == old(out)@ + le32(x),
{
    let mut b = u32_to_le_bytes(x);
    out.append(&mut b);
}

fn push_u64(out: &mut Vec<u8>, x: u64)
    ensures
        final(out)@ == old(out)@ + le64(x),
{
    let mut b = u64_to_le_bytes(x);
    out.append(&mut b);
}

fn push_vec3(out: &mut Vec<u8>, v: Vec3)
    ensures
        final(out)@ == old(out)@ + vec3_bytes(v),
{
    let ghost start = out@;
    push_u32(out, v.x);
    push_u32(out, v.y);
    push_u32(out, v.z);
    assert(out@ =~= start + vec3_bytes(v));
}

fn push_quat(out: &mut Vec<u8>, q: Quat)
    ensures
        final(out)@ == old(out)@ + quat_bytes(q),
{
    let ghost start = out@;
    push_u32(out, q.x);
    push_u32(out, q.y);
    push_u32(out, q.z);
    push_u32(out, q.w);
    assert(out@ =~= start + quat_bytes(q));
}

fn push_id(out: &mut Vec<u8>, id: &[u8; 16])
    ensures
        final(out)@ == old(out)@ + id@,
{
    let ghost start = out@;
    let mut i: usize = 0;
    while i < PLAYER_ID_LEN
        invariant
            i <= 16,
            out@ =~= start + id@.subrange(0, i as int),
        decreases 16 - i,
    {
        out.push(id[i]);
        i = i + 1;
    }
    assert(id@.subrange(0, 16) =~= id@);
}

impl MessageOut {
    /// Wraps the message as an event: a `1`, the identifier, a `0`, then the message.
    pub fn get_with_event_header(&self, identifier: Vec<u8>) -> (r: Vec<u8>)
        ensures
            r@ == seq![1u8] + identifier@ + seq![0u8] + self.data@,
    {
        let mut with_header: Vec<u8> = Vec::new();
        with_header.push(1);
        let mut id = identifier;
        with_header.append(&mut id);
        with_header.push(0);
        let mut data = self.data.clone();
        with_header.append(&mut data);
        assert(with_header@ =~= seq![1u8] + identifier@ + seq![0u8] + self.data@);
        with_header
    }

    /// One Position snapshot of every given entity at `tick`; none for an empty list.
    pub fn position_message(positions: Vec<(Vec3, String)>, tick: u16) -> (r: Option<MessageOut>)
        ensures
            positions@.len() == 0 <==> r is None,
            r is Some ==> r->Some_0.event_type == MessageOutType::Position
                && r->Some_0.data@ == position_bytes(tick, position_entries(positions@)),
    {
        if positions.len() == 0 {
            return None;
        }
        let ghost entries = position_entries(positions@);
        let mut data: Vec<u8> = Vec::new();
        data.push(PREFIX_POSITION);
        push_u16(&mut data, tick);
        push_u64(&mut data, positions.len() as u64);
        let ghost head = data@;
        let mut i: usize = 0;
        while i < positions.len()
            invariant
                i <= positions@.len(),
                entries == position_entries(positions@),
                data@ == head + concat_records(entries.subrange(0, i as int), position_record_fn()),
            decreases positions@.len() - i,
        {
            let id = normalize_player_id(positions[i].1.as_str());
            push_id(&mut data, &id);
            push_vec3(&mut data, positions[i].0);
            proof {
                lemma_concat_records_step(entries, i as int, position_record_fn());
                assert(data@ =~= head + concat_records(entries.subrange(0, i + 1), position_record_fn()));
            }
            i = i + 1;
        }
        assert(entries.subrange(0, entries.len() as int) =~= entries);
        assert(data@ =~= position_bytes(tick, entries));
        Some(MessageOut { event_type: MessageOutType::Position, data })
    }

    /// One Rotation snapshot of every given entity; none for an empty list.
    pub fn rotation_message(rotations: Vec<(Quat, String)>) -> (r: Option<MessageOut>)
        ensures
            rotations@.len() == 0 <==> r is None,
            r is Some ==> r->Some_0.event_type == MessageOutType::Rotation
                && r->Some_0.data@ == rotation_bytes(rotation_entries(rotations@)),
    {
        if rotations.len() == 0 {
            return None;
        }
        let ghost entries = rotation_entries(rotations@);
        let mut data: Vec<u8> = Vec::new();
        data.push(PREFIX_ROTATION);
        push_u64(&mut data, rotations.len() as u64);
        let ghost head = data@;
        let mut i: usize = 0;
        while i < rotations.len()
            invariant
                i <= rotations@.len(),
                entries == rotation_entries(rotations@),
                data@ == head + concat_records(entries.subrange(0, i as int), rotation_record_fn()),
            decreases rotations@.len() - i,
        {
            let id = normalize_player_id(rotations[i].1.as_str());
            push_id(&mut data, &id);
            push_quat(&mut data, rotations[i].0);
            proof {
                lemma_concat_records_step(entries, i as int, rotation_record_fn());
                assert(data@ =~= head + concat_records(entries.subrange(0, i + 1), rotation_record_fn()));
            }
            i = i + 1;
        }
        assert(entries.subrange(0, entries.len() as int) =~= entries);
        assert(data@ =~= rotation_bytes(entries));
        Some(MessageOut { event_type: MessageOutType::Rotation, data })
    }

    /// One Disconnect message naming every given identity in order; none for an empty list.
    pub fn disconnect_message(player_ids: Vec<String>) -> (r: Option<MessageOut>)
        ensures
            player_ids@.len() == 0 <==> r is None,
            r is Some ==> r->Some_0.event_type == MessageOutType::Disconnect
                && r->Some_0.data@ == disconnect_bytes(disconnect_entries(player_ids@)),
    {
        if player_ids.len() == 0 {
            return None;
        }
        let ghost entries = disconnect_entries(player_ids@);
        let mut data: Vec<u8> = Vec::new();
        data.push(PREFIX_DISCONNECT);
        push_u64(&mut data, player_ids.len() as u64);
        let ghost head = data@;
        let mut i: usize = 0;
        while i < player_ids.len()
            invariant
                i <= player_ids@.len(),
                entries == disconnect_entries(player_ids@),
                data@ == head + concat_records(entries.subrange(0, i as int), disconnect_record_fn()),
            decreases player_ids@.len() - i,
        {
            let id = normalize_player_id(player_ids[i].as_str());
            push_id(&mut data, &id);
            proof {
                lemma_concat_records_step(entries, i as int, disconnect_record_fn());
                assert(data@ =~= head + concat_records(entries.subrange(0, i + 1), disconnect_record_fn()));
            }
            i = i + 1;
        }
        assert(entries.subrange(0, entries.len() as int) =~= entries);
        assert(data@ =~= disconnect_bytes(entries));
        Some(MessageOut { event_type: MessageOutType::Disconnect, data })
    }

    /// The Spawn message announcing one player at its position and rotation.
    pub fn spawn_message(player_id: String, position: Vec3, rotation: Quat) -> (r: Option<MessageOut>)
        ensures
            r is Some,
            r->Some_0.event_type == MessageOutType::Spawn,
            r->Some_0.data@ == spawn_bytes(seq![(wire_id(player_id@), position, rotation)]),
    {
        let ghost entries = seq![(wire_id(player_id@), position, rotation)];
        let mut data: Vec<u8> = Vec::new();
        data.push(PREFIX_SPAWN);
        push_u64(&mut data, 1);
        let ghost head = data@;
        let id = normalize_player_id(player_id.as_str());
        push_id(&mut data, &id);
        push_vec3(&mut data, position);
        push_quat(&mut data, rotation);
        proof {
            lemma_concat_records_step(entries, 0, spawn_record_fn());
            assert(entries.subrange(0, 1) =~= entries);
            assert(concat_records(entries.subrange(0, 0), spawn_record_fn()) =~= Seq::<u8>::empty());
        }
        assert(data@ =~= spawn_bytes(entries));
        Some(MessageOut { event_type: MessageOutType::Spawn, data })
    }

    /// The heartbeat that tells clients the current tick.
    pub fn tick_sync_message(tick: u16) -> (r: MessageOut)
        ensures
            r.event_type == MessageOutType::TickSync,
            r.data@ == tick_sync_bytes(tick),
    {
        let mut data: Vec<u8> = Vec::new();
        data.push(PREFIX_TICK_SYNC);
        push_u16(&mut data, tick);
        assert(data@ =~= tick_sync_bytes(tick));
        MessageOut { event_type: MessageOutType::TickSync, data }
    }
}

} // verus!
