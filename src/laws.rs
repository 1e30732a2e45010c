use vstd::bytes::lemma_auto_spec_u32_to_from_le_bytes;
use vstd::prelude::*;

use crate::input::look_events_of;
use crate::message_in::{spec_decode_inbound, TAG_ROTATION};
use crate::message_out::quat_bytes;
use crate::movement::{
    apply_looks, entity_index, has_entity, integrate_player, settle_player, MovementTerms,
    PhysicsOutput,
};
use crate::on_change::{added_players, spec_mark_seen};
use crate::tick::spec_next_tick;
use crate::world::{
    entities_of, has_id, ids_of, index_of, new_player, players_wf, spec_connect, spec_disconnect,
    spec_disconnect_all,
    Entity, World, WorldView, F32_ZERO,
};

verus! {

/// The registry holds exactly one entry per live player entity: the same
/// number of each, and entry `i` names the identity and handle of player `i`.
pub proof fn lemma_registry_matches_world(w: &World)
    requires
        w.wf(),
    ensures
        w.lookup.entries().len() == w.view().players.len(),
        forall|i: int| 0 <= i < w.view().players.len() ==>
            (#[trigger] w.lookup.entries()[i]) == (ids_of(w.view().players)[i], entities_of(w.view().players)[i]),
{
    assert forall|i: int| 0 <= i < w.view().players.len() implies
        (#[trigger] w.lookup.entries()[i]) == (ids_of(w.view().players)[i], entities_of(w.view().players)[i]) by {
        assert(w.lookup.entries()[i] == (w.players@[i].player.id@, w.players@[i].entity));
    }
}

/// No two live entities share an identity or a handle.
pub proof fn lemma_live_entities_distinct(w: &World)
    requires
        w.wf(),
    ensures
        forall|i: int, j: int| 0 <= i < w.view().players.len() && 0 <= j < w.view().players.len() && i != j
            ==> ids_of(w.view().players)[i] != ids_of(w.view().players)[j]
            && entities_of(w.view().players)[i] != entities_of(w.view().players)[j],
{
    let ps = w.view().players;
    assert forall|i: int, j: int| 0 <= i < ps.len() && 0 <= j < ps.len() && i != j
        implies ids_of(ps)[i] != ids_of(ps)[j] && entities_of(ps)[i] != entities_of(ps)[j] by {
        if i < j {
            assert(ps[i].id != ps[j].id && ps[i].entity != ps[j].entity);
        } else {
            assert(ps[j].id != ps[i].id && ps[j].entity != ps[i].entity);
        }
    }
}

/// The tick counter only moves forward, wraps from `u16::MAX` to 2, and once
/// past startup never returns to 0 or 1.
pub proof fn lemma_tick_wrap(t: u16)
    ensures
        t < u16::MAX ==> spec_next_tick(t) == t + 1,
        t == u16::MAX ==> spec_next_tick(t) == 2,
        spec_next_tick(t) != 0,
        t >= 1 ==> spec_next_tick(t) >= 2,
{
}

/// Connecting the same identity twice in a row is the same as connecting it once.
pub proof fn lemma_connect_idempotent(w: WorldView, id: Seq<char>)
    ensures
        spec_connect(spec_connect(w, id), id) == spec_connect(w, id),
{
    let w1 = spec_connect(w, id);
    if !(has_id(w.players, id) || w.next_entity == u64::MAX) {
        let last = w1.players.len() - 1;
        assert(ids_of(w1.players)[last] == id);
    }
}

/// Every player in `added_players(s)` is one of `s`.
proof fn lemma_added_players_from(s: Seq<crate::world::PlayerView>, id: Seq<char>)
    requires
        !has_id(s, id),
    ensures
        forall|k: int| 0 <= k < added_players(s).len() ==> (#[trigger] added_players(s)[k]).id != id,
    decreases s.len(),
{
    if s.len() > 0 {
        let t = s.drop_last();
        assert forall|j: int| 0 <= j < ids_of(t).len() implies ids_of(t)[j] != id by {
            assert(ids_of(t)[j] == ids_of(s)[j]);
        }
        lemma_added_players_from(t, id);
        assert(ids_of(s)[s.len() - 1] == s.last().id);
    }
}

/// A connect then a disconnect of an identity that was absent: the connect
/// adds exactly one newly created player of that identity (so exactly one
/// Spawn), the disconnect names it exactly once, and afterwards the identity
/// is absent and the other players are as before.
pub proof fn lemma_connect_then_disconnect(w: WorldView, id: Seq<char>)
    requires
        players_wf(w),
        !has_id(w.players, id),
        w.next_entity < u64::MAX,
    ensures
        ({
            let w1 = spec_connect(w, id);
            let (w2, removed) = spec_disconnect_all(w1, seq![id]);
            &&& added_players(w1.players) == added_players(w.players).push(new_player(id, Entity { index: w.next_entity }))
            &&& forall|k: int| 0 <= k < added_players(w.players).len() ==> (#[trigger] added_players(w.players)[k]).id != id
            &&& removed == seq![id]
            &&& !has_id(w2.players, id)
            &&& w2.players == w.players
        }),
{
    let w1 = spec_connect(w, id);
    let last = w1.players.len() - 1;
    assert(w1.players.drop_last() =~= w.players);
    lemma_added_players_from(w.players, id);
    let ids = seq![id];
    assert(ids.drop_last() =~= Seq::<Seq<char>>::empty());
    assert(spec_disconnect_all(w1, ids.drop_last()) == (w1, Seq::<Seq<char>>::empty()));
    assert(added_players(w1.players) == added_players(w1.players.drop_last()).push(w1.players.last()));
    assert(ids_of(w1.players)[last] == id);
    let k = index_of(w1.players, id);
    assert(0 <= k < ids_of(w1.players).len() && ids_of(w1.players)[k] == id);
    if k != last {
        assert(ids_of(w.players)[k] == ids_of(w1.players)[k]);
    }
    assert(w1.players.remove(last) =~= w.players);
}

/// A player that disconnects and connects again gets a handle that no
/// player live before the disconnect had.
pub proof fn lemma_reconnect_fresh_handle(w: WorldView, id: Seq<char>)
    requires
        players_wf(w),
        has_id(w.players, id),
        w.next_entity < u64::MAX,
    ensures
        ({
            let w2 = spec_connect(spec_disconnect(w, id), id);
            &&& has_id(w2.players, id)
            &&& w2.players.last().id == id
            &&& w2.players.last().entity == (Entity { index: w.next_entity })
            &&& forall|i: int| 0 <= i < w.players.len() ==> w.players[i].entity != w2.players.last().entity
        }),
{
    let k = index_of(w.players, id);
    assert(0 <= k < ids_of(w.players).len() && ids_of(w.players)[k] == id);
    let w1 = spec_disconnect(w, id);
    assert forall|j: int| 0 <= j < ids_of(w1.players).len() implies ids_of(w1.players)[j] != id by {
        let j0 = if j < k { j } else { j + 1 };
        assert(ids_of(w1.players)[j] == w.players[j0].id);
        if j0 < k {
            assert(w.players[j0].id != w.players[k].id);
        } else {
            assert(w.players[k].id != w.players[j0].id);
        }
    }
    let w2 = spec_connect(w1, id);
    assert(ids_of(w2.players)[w2.players.len() - 1] == id);
}

/// A Rotation datagram from a live player turns that player to exactly the
/// quaternion it carried: the rotation's bytes equal the datagram's sixteen
/// payload bytes, with no re-normalization.
pub proof fn lemma_rotation_verbatim(w: WorldView, bytes: Seq<u8>, id: Seq<char>)
    requires
        players_wf(w),
        has_id(w.players, id),
        bytes.len() >= 17,
        bytes[0] == TAG_ROTATION,
    ensures
        ({
            let msgs = seq![(bytes, id)];
            let w2 = apply_looks(w, look_events_of(w.players, msgs));
            &&& w2.players.len() == w.players.len()
            &&& quat_bytes(w2.players[index_of(w.players, id)].transform.rotation) == bytes.subrange(1, 17)
        }),
{
    lemma_auto_spec_u32_to_from_le_bytes();
    let msgs = seq![(bytes, id)];
    assert(msgs.drop_last() =~= Seq::<(Seq<u8>, Seq<char>)>::empty());
    let data = bytes.subrange(1, bytes.len() as int);
    let k = index_of(w.players, id);
    assert(0 <= k < ids_of(w.players).len() && ids_of(w.players)[k] == id);
    let e = w.players[k].entity;
    let evs = look_events_of(w.players, msgs);
    assert(look_events_of(w.players, msgs.drop_last()) == Seq::<crate::input::LookEvent>::empty());
    assert(msgs.last() == (bytes, id));
    assert(spec_decode_inbound(bytes) is Ok);
    assert(spec_decode_inbound(bytes)->Ok_0 is Rotation);
    assert(evs.len() == 1);
    assert(evs.drop_last() =~= Seq::<crate::input::LookEvent>::empty());
    assert(entities_of(w.players)[k] == e);
    let j = entity_index(w.players, e);
    assert(0 <= j < entities_of(w.players).len() && entities_of(w.players)[j] == e);
    if j != k {
        if j < k {
            assert(w.players[j].entity != w.players[k].entity);
        } else {
            assert(w.players[k].entity != w.players[j].entity);
        }
    }
    assert(data.subrange(0, 4) =~= bytes.subrange(1, 5));
    assert(data.subrange(4, 8) =~= bytes.subrange(5, 9));
    assert(data.subrange(8, 12) =~= bytes.subrange(9, 13));
    assert(data.subrange(12, 16) =~= bytes.subrange(13, 17));
    assert(apply_looks(w, evs.drop_last()) == w);
    let ev = evs.last();
    assert(ev.entity == e);
    assert(has_entity(w.players, e));
    let w2 = apply_looks(w, evs);
    assert(w2 == crate::movement::apply_look(w, ev));
    assert(w2.players[k].transform.rotation == ev.direction);
    let r = ev.direction;
    assert(crate::message_out::le32(r.x) == data.subrange(0, 4));
    assert(crate::message_out::le32(r.y) == data.subrange(4, 8));
    assert(crate::message_out::le32(r.z) == data.subrange(8, 12));
    assert(crate::message_out::le32(r.w) == data.subrange(12, 16));
    assert(bytes.subrange(1, 17) =~= bytes.subrange(1, 5) + bytes.subrange(5, 9) + bytes.subrange(9, 13)
        + bytes.subrange(13, 17));
}


/// Pending input that the integrator cleared stays clear through the physics
/// write-back and the tick boundary, so the next tick starts from zero input.
pub proof fn lemma_input_clear_at_next_tick(
    w: WorldView,
    terms: Seq<MovementTerms>,
    outputs: Seq<Option<PhysicsOutput>>,
)
    requires
        terms.len() == w.players.len(),
        outputs.len() == w.players.len(),
    ensures
        ({
            let settled = WorldView {
                players: Seq::new(
                    w.players.len(),
                    |i: int| settle_player(integrate_player(w.players[i], terms[i]), outputs[i]),
                ),
                next_entity: w.next_entity,
            };
            let next = spec_mark_seen(settled);
            forall|i: int| 0 <= i < next.players.len() ==>
                (#[trigger] next.players[i]).move_input.x == F32_ZERO
                && next.players[i].move_input.y == F32_ZERO
                && next.players[i].move_input.z == F32_ZERO
        }),
{
}

} // verus!
