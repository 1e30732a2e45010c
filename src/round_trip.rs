use vstd::bytes::{
    lemma_auto_spec_u16_to_from_le_bytes, lemma_auto_spec_u32_to_from_le_bytes,
    lemma_auto_spec_u64_to_from_le_bytes, spec_u16_from_le_bytes, spec_u32_from_le_bytes,
    spec_u64_from_le_bytes,
};
use vstd::prelude::*;

use crate::message_out::{
    concat_records, disconnect_bytes, disconnect_record_fn, le16, le32, le64, position_bytes,
    position_record_fn, rotation_bytes, rotation_record_fn, spawn_bytes, spawn_record_fn,
    tick_sync_bytes, Quat, Vec3, PREFIX_DISCONNECT, PREFIX_POSITION, PREFIX_ROTATION, PREFIX_SPAWN,
    PREFIX_TICK_SYNC,
};

verus! {

pub open spec fn u16_at(b: Seq<u8>, off: int) -> u16 {
    spec_u16_from_le_bytes(b.subrange(off, off + 2))
}

pub open spec fn u32_at(b: Seq<u8>, off: int) -> u32 {
    spec_u32_from_le_bytes(b.subrange(off, off + 4))
}

pub open spec fn u64_at(b: Seq<u8>, off: int) -> u64 {
    spec_u64_from_le_bytes(b.subrange(off, off + 8))
}

pub open spec fn vec3_at(b: Seq<u8>, off: int) -> Vec3 {
    Vec3 { x: u32_at(b, off), y: u32_at(b, off + 4), z: u32_at(b, off + 8) }
}

pub open spec fn quat_at(b: Seq<u8>, off: int) -> Quat {
    Quat { x: u32_at(b, off), y: u32_at(b, off + 4), z: u32_at(b, off + 8), w: u32_at(b, off + 12) }
}

/// `n` records of `size` bytes each, starting at `off`, each read with `dec`.
pub open spec fn parse_records<T>(b: Seq<u8>, off: int, n: nat, size: nat, dec: spec_fn(Seq<u8>) -> T) -> Seq<T> {
    Seq::new(n, |k: int| dec(b.subrange(off + k * size, off + k * size + size)))
}

pub open spec fn decode_position_record() -> spec_fn(Seq<u8>) -> (Seq<u8>, Vec3) {
    |r: Seq<u8>| (r.subrange(0, 16), vec3_at(r, 16))
}

pub open spec fn decode_rotation_record() -> spec_fn(Seq<u8>) -> (Seq<u8>, Quat) {
    |r: Seq<u8>| (r.subrange(0, 16), quat_at(r, 16))
}

pub open spec fn decode_spawn_record() -> spec_fn(Seq<u8>) -> (Seq<u8>, Vec3, Quat) {
    |r: Seq<u8>| (r.subrange(0, 16), vec3_at(r, 16), quat_at(r, 28))
}

pub open spec fn decode_disconnect_record() -> spec_fn(Seq<u8>) -> Seq<u8> {
    |r: Seq<u8>| r
}

/// Reads a Position message back into its tick and `(identity, position)` entries.
pub open spec fn parse_position_message(b: Seq<u8>) -> Option<(u16, Seq<(Seq<u8>, Vec3)>)> {
    if b.len() >= 11 && b[0] == PREFIX_POSITION && b.len() == 11 + 28 * u64_at(b, 3) {
        Some((u16_at(b, 1), parse_records(b, 11, u64_at(b, 3) as nat, 28, decode_position_record())))
    } else {
        None
    }
}

/// Reads a Rotation message back into its `(identity, rotation)` entries.
pub open spec fn parse_rotation_message(b: Seq<u8>) -> Option<Seq<(Seq<u8>, Quat)>> {
    if b.len() >= 9 && b[0] == PREFIX_ROTATION && b.len() == 9 + 32 * u64_at(b, 1) {
        Some(parse_records(b, 9, u64_at(b, 1) as nat, 32, decode_rotation_record()))
    } else {
        None
    }
}

/// Reads a Spawn message back into its `(identity, position, rotation)` entries.
pub open spec fn parse_spawn_message(b: Seq<u8>) -> Option<Seq<(Seq<u8>, Vec3, Quat)>> {
    if b.len() >= 9 && b[0] == PREFIX_SPAWN && b.len() == 9 + 44 * u64_at(b, 1) {
        Some(parse_records(b, 9, u64_at(b, 1) as nat, 44, decode_spawn_record()))
    } else {
        None
    }
}

/// Reads a Disconnect message back into its identities.
pub open spec fn parse_disconnect_message(b: Seq<u8>) -> Option<Seq<Seq<u8>>> {
    if b.len() >= 9 && b[0] == PREFIX_DISCONNECT && b.len() == 9 + 16 * u64_at(b, 1) {
        Some(parse_records(b, 9, u64_at(b, 1) as nat, 16, decode_disconnect_record()))
    } else {
        None
    }
}

/// Reads a TickSync message back into its tick.
pub open spec fn parse_tick_sync_message(b: Seq<u8>) -> Option<u16> {
    if b.len() == 3 && b[0] == PREFIX_TICK_SYNC {
        Some(u16_at(b, 1))
    } else {
        None
    }
}

/// Records of one fixed size sit side by side in their concatenation.
proof fn lemma_concat_fixed<T>(s: Seq<T>, f: spec_fn(T) -> Seq<u8>, size: nat)
    requires
        forall|k: int| 0 <= k < s.len() ==> (#[trigger] f(s[k])).len() == size,
    ensures
        concat_records(s, f).len() == s.len() * size,
        forall|k: int| 0 <= k < s.len() ==>
            (#[trigger] concat_records(s, f).subrange(k * size, k * size + size)) == f(s[k]),
    decreases s.len(),
{
    if s.len() > 0 {
        let t = s.drop_last();
        assert forall|k: int| 0 <= k < t.len() implies (#[trigger] f(t[k])).len() == size by {
            assert(t[k] == s[k]);
        }
        lemma_concat_fixed(t, f, size);
        let a = concat_records(t, f);
        let b = f(s.last());
        let n = t.len();
        assert(a.len() == n * size);
        assert(n * size + size == (n + 1) * size) by (nonlinear_arith);
        assert forall|k: int| 0 <= k < s.len() implies
            (#[trigger] concat_records(s, f).subrange(k * size, k * size + size)) == f(s[k]) by {
            if k < n {
                assert(k * size + size <= n * size) by (nonlinear_arith)
                    requires
                        k < n,
                        0 <= k,
                ;
                assert(0 <= k * size) by (nonlinear_arith)
                    requires
                        0 <= k,
                ;
                assert((a + b).subrange(k * size, k * size + size) =~= a.subrange(k * size, k * size + size));
                assert(t[k] == s[k]);
            } else {
                assert((a + b).subrange(k * size, k * size + size) =~= b);
            }
        }
    }
}

/// Parsing the records of `prefix + concat(s)` with a decoder that inverts
/// each record's encoding gives `s` back.
proof fn lemma_parse_concat<T>(prefix: Seq<u8>, s: Seq<T>, f: spec_fn(T) -> Seq<u8>, dec: spec_fn(Seq<u8>) -> T, size: nat)
    requires
        forall|k: int| 0 <= k < s.len() ==> (#[trigger] f(s[k])).len() == size,
        forall|k: int| 0 <= k < s.len() ==> dec(#[trigger] f(s[k])) == s[k],
    ensures
        (prefix + concat_records(s, f)).len() == prefix.len() + s.len() * size,
        parse_records(prefix + concat_records(s, f), prefix.len() as int, s.len(), size, dec) == s,
{
    lemma_concat_fixed(s, f, size);
    let c = concat_records(s, f);
    let b = prefix + c;
    let p = prefix.len() as int;
    assert forall|k: int| 0 <= k < s.len() implies
        dec(b.subrange(p + k * size, p + k * size + size)) == s[k] by {
        assert(0 <= k * size) by (nonlinear_arith)
            requires
                0 <= k,
        ;
        assert(k * size + size <= s.len() * size) by (nonlinear_arith)
            requires
                k < s.len(),
        ;
        assert(b.subrange(p + k * size, p + k * size + size) =~= c.subrange(k * size, k * size + size));
        assert(c.subrange(k * size, k * size + size) == f(s[k]));
    }
    assert(parse_records(b, p, s.len(), size, dec) =~= s);
}

/// Encoding a Position snapshot and reading it back yields its tick and entries.
pub proof fn lemma_position_round_trip(tick: u16, s: Seq<(Seq<u8>, Vec3)>)
    requires
        s.len() <= u64::MAX,
        forall|k: int| 0 <= k < s.len() ==> (#[trigger] s[k]).0.len() == 16,
    ensures
        parse_position_message(position_bytes(tick, s)) == Some((tick, s)),
{
    lemma_auto_spec_u16_to_from_le_bytes();
    lemma_auto_spec_u32_to_from_le_bytes();
    lemma_auto_spec_u64_to_from_le_bytes();
    let f = position_record_fn();
    let dec = decode_position_record();
    assert forall|k: int| 0 <= k < s.len() implies (#[trigger] f(s[k])).len() == 28 && dec(f(s[k])) == s[k] by {
        let r = f(s[k]);
        let v = s[k].1;
        assert(r.subrange(0, 16) =~= s[k].0);
        assert(r.subrange(16, 20) =~= le32(v.x));
        assert(r.subrange(20, 24) =~= le32(v.y));
        assert(r.subrange(24, 28) =~= le32(v.z));
    }
    let head = seq![PREFIX_POSITION] + le16(tick) + le64(s.len() as u64);
    lemma_parse_concat(head, s, f, dec, 28);
    let b = position_bytes(tick, s);
    assert(b =~= head + concat_records(s, f));
    assert(b.subrange(1, 3) =~= le16(tick));
    assert(b.subrange(3, 11) =~= le64(s.len() as u64));
}

/// Encoding a Rotation snapshot and reading it back yields its entries.
pub proof fn lemma_rotation_round_trip(s: Seq<(Seq<u8>, Quat)>)
    requires
        s.len() <= u64::MAX,
        forall|k: int| 0 <= k < s.len() ==> (#[trigger] s[k]).0.len() == 16,
    ensures
        parse_rotation_message(rotation_bytes(s)) == Some(s),
{
    lemma_auto_spec_u32_to_from_le_bytes();
    lemma_auto_spec_u64_to_from_le_bytes();
    let f = rotation_record_fn();
    let dec = decode_rotation_record();
    assert forall|k: int| 0 <= k < s.len() implies (#[trigger] f(s[k])).len() == 32 && dec(f(s[k])) == s[k] by {
        let r = f(s[k]);
        let q = s[k].1;
        assert(r.subrange(0, 16) =~= s[k].0);
        assert(r.subrange(16, 20) =~= le32(q.x));
        assert(r.subrange(20, 24) =~= le32(q.y));
        assert(r.subrange(24, 28) =~= le32(q.z));
        assert(r.subrange(28, 32) =~= le32(q.w));
    }
    let head = seq![PREFIX_ROTATION] + le64(s.len() as u64);
    lemma_parse_concat(head, s, f, dec, 32);
    let b = rotation_bytes(s);
    assert(b =~= head + concat_records(s, f));
    assert(b.subrange(1, 9) =~= le64(s.len() as u64));
}

/// Encoding a Spawn message and reading it back yields its entries.
pub proof fn lemma_spawn_round_trip(s: Seq<(Seq<u8>, Vec3, Quat)>)
    requires
        s.len() <= u64::MAX,
        forall|k: int| 0 <= k < s.len() ==> (#[trigger] s[k]).0.len() == 16,
    ensures
        parse_spawn_message(spawn_bytes(s)) == Some(s),
{
    lemma_auto_spec_u32_to_from_le_bytes();
    lemma_auto_spec_u64_to_from_le_bytes();
    let f = spawn_record_fn();
    let dec = decode_spawn_record();
    assert forall|k: int| 0 <= k < s.len() implies (#[trigger] f(s[k])).len() == 44 && dec(f(s[k])) == s[k] by {
        let r = f(s[k]);
        let v = s[k].1;
        let q = s[k].2;
        assert(r.subrange(0, 16) =~= s[k].0);
        assert(r.subrange(16, 20) =~= le32(v.x));
        assert(r.subrange(20, 24) =~= le32(v.y));
        assert(r.subrange(24, 28) =~= le32(v.z));
        assert(r.subrange(28, 32) =~= le32(q.x));
        assert(r.subrange(32, 36) =~= le32(q.y));
        assert(r.subrange(36, 40) =~= le32(q.z));
        assert(r.subrange(40, 44) =~= le32(q.w));
    }
    let head = seq![PREFIX_SPAWN] + le64(s.len() as u64);
    lemma_parse_concat(head, s, f, dec, 44);
    let b = spawn_bytes(s);
    assert(b =~= head + concat_records(s, f));
    assert(b.subrange(1, 9) =~= le64(s.len() as u64));
}

/// Encoding a Disconnect message and reading it back yields its identities.
pub proof fn lemma_disconnect_round_trip(s: Seq<Seq<u8>>)
    requires
        s.len() <= u64::MAX,
        forall|k: int| 0 <= k < s.len() ==> (#[trigger] s[k]).len() == 16,
    ensures
        parse_disconnect_message(disconnect_bytes(s)) == Some(s),
{
    lemma_auto_spec_u64_to_from_le_bytes();
    let f = disconnect_record_fn();
    let dec = decode_disconnect_record();
    let head = seq![PREFIX_DISCONNECT] + le64(s.len() as u64);
    lemma_parse_concat(head, s, f, dec, 16);
    let b = disconnect_bytes(s);
    assert(b =~= head + concat_records(s, f));
    assert(b.subrange(1, 9) =~= le64(s.len() as u64));
}

/// Encoding a TickSync message and reading it back yields its tick.
pub proof fn lemma_tick_sync_round_trip(tick: u16)
    ensures
        parse_tick_sync_message(tick_sync_bytes(tick)) == Some(tick),
{
    lemma_auto_spec_u16_to_from_le_bytes();
    assert(tick_sync_bytes(tick).subrange(1, 3) =~= le16(tick));
}

} // verus!
