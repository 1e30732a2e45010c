use vstd::prelude::*;
use vstd::slice::slice_to_vec;

use crate::message_in::{decode_inbound, spec_decode_inbound, DecodeError, InboundMessage};
use crate::message_out::Quat;
use crate::world::{
    entities_of, has_id, ids_of, index_of, spawn_event_ids, Entity, MoveInput, PlayerView,
    SpawnEvent, World, WorldView, F32_ONE,
};

verus! {

/// A request to turn an entity to face a direction.
#[derive(Debug, Clone, Copy, PartialEq, Eq, Structural)]
pub struct LookEvent {
    pub entity: Entity,
    pub direction: Quat,
}

/// A movement intent attributed to an entity (`f32` bits of world `x` and `z`).
#[derive(Debug, Clone, Copy, PartialEq, Eq, Structural)]
pub struct MoveEvent {
    pub entity: Entity,
    pub x: u32,
    pub y: u32,
}

/// A jump request attributed to an entity.
#[derive(Debug, Clone, Copy, PartialEq, Eq, Structural)]
pub struct JumpEvent {
    pub entity: Entity,
}

/// What one tick's inbound datagrams produced besides changes to pending input.
#[derive(Debug)]
pub struct InboundOutcome {
    pub spawn_events: Vec<SpawnEvent>,
    pub look_events: Vec<LookEvent>,
    pub errors: Vec<DecodeError>,
}

pub open spec fn messages_view(m: Seq<(Vec<u8>, String)>) -> Seq<(Seq<u8>, Seq<char>)> {
    m.map_values(|e: (Vec<u8>, String)| (e.0@, e.1@))
}

pub open spec fn set_input(w: WorldView, k: int, m: MoveInput) -> WorldView {
    WorldView {
        players: w.players.update(k, PlayerView { move_input: m, ..w.players[k] }),
        next_entity: w.next_entity,
    }
}

/// The pending-input effect of one datagram from `id`: a Move overwrites `x`
/// and `z` (the wire's `y` is world `z`), a Jump raises the jump flag. Anything
/// else, and anything from an unknown identity, leaves the world alone.
pub open spec fn apply_message(w: WorldView, bytes: Seq<u8>, id: Seq<char>) -> WorldView {
    if !has_id(w.players, id) {
        w
    } else {
        let k = index_of(w.players, id);
        let mi = w.players[k].move_input;
        match spec_decode_inbound(bytes) {
            Ok(InboundMessage::Move(m)) => set_input(w, k, MoveInput { x: m.x, z: m.y, ..mi }),
            Ok(InboundMessage::Jump(_)) => set_input(w, k, MoveInput { y: F32_ONE, ..mi }),
            _ => w,
        }
    }
}

pub open spec fn apply_messages(w: WorldView, msgs: Seq<(Seq<u8>, Seq<char>)>) -> WorldView
    decreases msgs.len(),
{
    if msgs.len() == 0 {
        w
    } else {
        apply_message(apply_messages(w, msgs.drop_last()), msgs.last().0, msgs.last().1)
    }
}

/// The look events of the Rotation messages from known identities, in order.
pub open spec fn look_events_of(players: Seq<PlayerView>, msgs: Seq<(Seq<u8>, Seq<char>)>) -> Seq<LookEvent>
    decreases msgs.len(),
{
    if msgs.len() == 0 {
        Seq::empty()
    } else {
        let before = look_events_of(players, msgs.drop_last());
        let (bytes, id) = msgs.last();
        match spec_decode_inbound(bytes) {
            Ok(InboundMessage::Rotation(r)) => if has_id(players, id) {
                before.push(LookEvent {
                    entity: players[index_of(players, id)].entity,
                    direction: Quat { x: r.x, y: r.y, z: r.z, w: r.w },
                })
            } else {
                before
            },
            _ => before,
        }
    }
}

/// The identities that sent a Spawn message, in order.
pub open spec fn spawn_ids_of(msgs: Seq<(Seq<u8>, Seq<char>)>) -> Seq<Seq<char>>
    decreases msgs.len(),
{
    if msgs.len() == 0 {
        Seq::empty()
    } else {
        let before = spawn_ids_of(msgs.drop_last());
        match spec_decode_inbound(msgs.last().0) {
            Ok(InboundMessage::Spawn) => before.push(msgs.last().1),
            _ => before,
        }
    }
}

/// The decode errors of the datagrams that could not be decoded, in order.
pub open spec fn errors_of(msgs: Seq<(Seq<u8>, Seq<char>)>) -> Seq<DecodeError>
    decreases msgs.len(),
{
    if msgs.len() == 0 {
        Seq::empty()
    } else {
        let before = errors_of(msgs.drop_last());
        match spec_decode_inbound(msgs.last().0) {
            Err(e) => before.push(e),
            _ => before,
        }
    }
}

/// Applying input changes no identity, handle or player count.
pub proof fn lemma_apply_messages_keeps_players(w: WorldView, msgs: Seq<(Seq<u8>, Seq<char>)>)
    ensures
        ids_of(apply_messages(w, msgs).players) == ids_of(w.players),
        entities_of(apply_messages(w, msgs).players) == entities_of(w.players),
        apply_messages(w, msgs).next_entity == w.next_entity,
    decreases msgs.len(),
{
    if msgs.len() > 0 {
        lemma_apply_messages_keeps_players(w, msgs.drop_last());
        let w1 = apply_messages(w, msgs.drop_last());
        let w2 = apply_message(w1, msgs.last().0, msgs.last().1);
        assert(ids_of(w2.players) =~= ids_of(w1.players));
        assert(entities_of(w2.players) =~= entities_of(w1.players));
    }
}

/// Applies one tick's inbound datagrams, in delivery order, each with the
/// identity of its sender: pending input is updated in place, and spawn
/// requests, look events and decode errors are handed back in order.
pub fn handle_server_messages(world: &mut World, messages: &Vec<(Vec<u8>, String)>) -> (r: InboundOutcome)
    requires
        old(world).wf(),
    ensures
        final(world).wf(),
        final(world).view() == apply_messages(old(world).view(), messages_view(messages@)),
        r.look_events@ == look_events_of(old(world).view().players, messages_view(messages@)),
        spawn_event_ids(r.spawn_events@) == spawn_ids_of(messages_view(messages@)),
        r.errors@ == errors_of(messages_view(messages@)),
{
    let ghost start = world.view();
    let ghost mv = messages_view(messages@);
    let mut spawn_events: Vec<SpawnEvent> = Vec::new();
    let mut look_events: Vec<LookEvent> = Vec::new();
    let mut errors: Vec<DecodeError> = Vec::new();
    let mut i: usize = 0;
    while i < messages.len()
        invariant
            world.wf(),
            i <= messages@.len(),
            mv == messages_view(messages@),
            world.view() == apply_messages(start, mv.subrange(0, i as int)),
            ids_of(world.view().players) == ids_of(start.players),
            entities_of(world.view().players) == entities_of(start.players),
            look_events@ == look_events_of(start.players, mv.subrange(0, i as int)),
            spawn_event_ids(spawn_events@) == spawn_ids_of(mv.subrange(0, i as int)),
            errors@ == errors_of(mv.subrange(0, i as int)),
        decreases messages@.len() - i,
    {
        let ghost pre = world.view();
        let ghost pre_spawns = spawn_events@;
        let bytes = slice_to_vec(messages[i].0.as_slice());
        let id = &messages[i].1;
        proof {
            assert(mv.subrange(0, i + 1).drop_last() =~= mv.subrange(0, i as int));
            assert(mv.subrange(0, i + 1).last() == (bytes@, id@));
            lemma_apply_messages_keeps_players(start, mv.subrange(0, i + 1));
        }
        match decode_inbound(bytes) {
            Err(e) => {
                errors.push(e);
            },
            Ok(InboundMessage::Spawn) => {
                spawn_events.push(SpawnEvent { player_id: id.clone() });
                proof {
                    assert(spawn_event_ids(spawn_events@) =~= spawn_event_ids(pre_spawns).push(id@));
                }
            },
            Ok(InboundMessage::Move(m)) => {
                if let Some(k) = world.lookup(id) {
                    world.players[k].move_input.x = m.x;
                    world.players[k].move_input.z = m.y;
                    proof {
                        assert(world.view().players =~= apply_message(pre, bytes@, id@).players);
                    }
                }
            },
            Ok(InboundMessage::Jump(_)) => {
                if let Some(k) = world.lookup(id) {
                    world.players[k].move_input.y = F32_ONE;
                    proof {
                        assert(world.view().players =~= apply_message(pre, bytes@, id@).players);
                    }
                }
            },
            Ok(InboundMessage::Rotation(rot)) => {
                if let Some(k) = world.lookup(id) {
                    proof {
                        assert(entities_of(pre.players)[k as int] == pre.players[k as int].entity);
                        assert(entities_of(start.players)[k as int] == start.players[k as int].entity);
                    }
                    look_events.push(LookEvent {
                        entity: world.players[k].entity,
                        direction: Quat { x: rot.x, y: rot.y, z: rot.z, w: rot.w },
                    });
                }
            },
        }
        i = i + 1;
    }
    assert(mv.subrange(0, messages@.len() as int) =~= mv);
    InboundOutcome { spawn_events, look_events, errors }
}

} // verus!
