use vstd::prelude::*;

use crate::input::LookEvent;
use crate::message_out::Vec3;
use crate::world::{
    cleared_input, entities_of, ids_of, Entity, PlayerView, Transform, World, WorldView, F32_ONE,
    F32_ZERO,
};

verus! {

/// Bit pattern of `5.5f32`, the upward speed of a jump.
pub const F32_JUMP_SPEED: u32 = 0x40B0_0000;

/// Whether an `f32` bit pattern is `+0.0` or `-0.0`.
pub open spec fn is_zero_f32(b: u32) -> bool {
    b & 0x7FFF_FFFFu32 == 0
}

pub open spec fn is_zero_vec3(v: Vec3) -> bool {
    is_zero_f32(v.x) && is_zero_f32(v.y) && is_zero_f32(v.z)
}

fn f32_bits_is_zero(b: u32) -> (r: bool)
    ensures
        r == is_zero_f32(b),
{
    b & 0x7FFF_FFFFu32 == 0
}

/// Whether some live player has the handle.
pub open spec fn has_entity(players: Seq<PlayerView>, e: Entity) -> bool {
    exists|i: int| 0 <= i < entities_of(players).len() && entities_of(players)[i] == e
}

/// The position of the player with the handle.
pub open spec fn entity_index(players: Seq<PlayerView>, e: Entity) -> int
    recommends
        has_entity(players, e),
{
    choose|i: int| 0 <= i < entities_of(players).len() && entities_of(players)[i] == e
}

/// Turning the entity of a look event to face its direction, taken verbatim.
pub open spec fn apply_look(w: WorldView, ev: LookEvent) -> WorldView {
    if has_entity(w.players, ev.entity) {
        let k = entity_index(w.players, ev.entity);
        let p = w.players[k];
        WorldView {
            players: w.players.update(
                k,
                PlayerView { transform: Transform { rotation: ev.direction, ..p.transform }, ..p },
            ),
            next_entity: w.next_entity,
        }
    } else {
        w
    }
}

pub open spec fn apply_looks(w: WorldView, evs: Seq<LookEvent>) -> WorldView
    decreases evs.len(),
{
    if evs.len() == 0 {
        w
    } else {
        apply_look(apply_looks(w, evs.drop_last()), evs.last())
    }
}

impl World {
    /// Where the player with this handle stands, if it is live.
    pub fn find_entity(&self, e: Entity) -> (r: Option<usize>)
        requires
            self.wf(),
        ensures
            r is Some <==> has_entity(self.view().players, e),
            r is Some ==> r->Some_0 == entity_index(self.view().players, e),
    {
        let ghost v = self.view();
        let mut i: usize = 0;
        while i < self.players.len()
            invariant
                self.wf(),
                v == self.view(),
                i <= self.players@.len(),
                forall|j: int| 0 <= j < i ==> entities_of(v.players)[j] != e,
            decreases self.players@.len() - i,
        {
            if self.players[i].entity == e {
                proof {
                    assert(entities_of(v.players)[i as int] == e);
                    let k = entity_index(v.players, e);
                    assert(entities_of(v.players)[k] == v.players[k].entity);
                    assert(v.players[i as int].entity == e);
                }
                return Some(i);
            }
            i = i + 1;
        }
        None
    }
}

/// Applies look events in order, before the physics step.
pub fn handle_look_events(world: &mut World, events: Vec<LookEvent>)
    requires
        old(world).wf(),
    ensures
        final(world).wf(),
        final(world).view() == apply_looks(old(world).view(), events@),
{
    let ghost start = world.view();
    let mut i: usize = 0;
    while i < events.len()
        invariant
            world.wf(),
            i <= events@.len(),
            world.view() == apply_looks(start, events@.subrange(0, i as int)),
        decreases events@.len() - i,
    {
        let ghost pre = world.view();
        let ev = events[i];
        if let Some(k) = world.find_entity(ev.entity) {
            world.players[k].transform.rotation = ev.direction;
            proof {
                assert(world.view().players =~= apply_look(pre, ev).players);
                assert(ids_of(world.view().players) =~= ids_of(pre.players));
                assert(entities_of(world.view().players) =~= entities_of(pre.players));
                assert forall|a: int, b: int| 0 <= a < b < world.view().players.len() implies
                    world.view().players[a].id != world.view().players[b].id by {
                    assert(ids_of(pre.players)[a] == ids_of(world.view().players)[a]);
                    assert(ids_of(pre.players)[b] == ids_of(world.view().players)[b]);
                }
                assert forall|a: int, b: int| 0 <= a < b < world.view().players.len() implies
                    world.view().players[a].entity != world.view().players[b].entity by {
                    assert(entities_of(pre.players)[a] == entities_of(world.view().players)[a]);
                    assert(entities_of(pre.players)[b] == entities_of(world.view().players)[b]);
                }
            }
        }
        proof {
            assert(events@.subrange(0, i + 1).drop_last() =~= events@.subrange(0, i as int));
        }
        i = i + 1;
    }
    assert(events@.subrange(0, events@.len() as int) =~= events@);
}

/// The `f32` arithmetic that the integrator needs for one player, as bits:
/// `move_x` and `move_z` are the pending `x` and `z` times the velocity
/// multiplier, `fallen_velocity` is the vertical velocity less one tick of gravity.
#[derive(Debug, Clone, Copy, PartialEq, Eq, Structural)]
pub struct MovementTerms {
    pub move_x: u32,
    pub move_z: u32,
    pub fallen_velocity: u32,
}

/// The vertical velocity after integration: a grounded player takes off at
/// jump speed if the jump flag is up and stands still otherwise, an airborne
/// player falls, and a player with no controller output yet keeps its speed.
pub open spec fn next_velocity(p: PlayerView, t: MovementTerms) -> u32 {
    match p.grounded {
        Some(true) => if p.move_input.y == F32_ONE { F32_JUMP_SPEED } else { F32_ZERO },
        Some(false) => t.fallen_velocity,
        None => p.v_velocity,
    }
}

/// One player after integration: input cleared, vertical velocity updated,
/// and a translation requested only when the movement is not zero.
pub open spec fn integrate_player(p: PlayerView, t: MovementTerms) -> PlayerView {
    let v = next_velocity(p, t);
    let movement = Vec3 { x: t.move_x, y: v, z: t.move_z };
    PlayerView {
        move_input: cleared_input(p.move_input),
        v_velocity: v,
        translation_request: if is_zero_vec3(movement) { None } else { Some(movement) },
        ..p
    }
}

/// Integrates every live player, `terms[i]` belonging to the `i`-th.
pub fn handle_character_movement(world: &mut World, terms: &Vec<MovementTerms>)
    requires
        old(world).wf(),
        terms@.len() == old(world).players@.len(),
    ensures
        final(world).wf(),
        final(world).view().next_entity == old(world).view().next_entity,
        final(world).view().players.len() == old(world).view().players.len(),
        forall|i: int| 0 <= i < old(world).view().players.len() ==>
            final(world).view().players[i] == integrate_player(old(world).view().players[i], terms@[i]),
        forall|i: int| 0 <= i < final(world).view().players.len() ==>
            (#[trigger] final(world).view().players[i]).move_input.x == F32_ZERO
            && final(world).view().players[i].move_input.y == F32_ZERO
            && final(world).view().players[i].move_input.z == F32_ZERO,
{
    let ghost start = world.view();
    let mut i: usize = 0;
    while i < world.players.len()
        invariant
            world.wf(),
            terms@.len() == world.players@.len(),
            i <= world.players@.len(),
            world.view().next_entity == start.next_entity,
            world.view().players.len() == start.players.len(),
            forall|j: int| 0 <= j < i ==> world.view().players[j] == integrate_player(start.players[j], terms@[j]),
            forall|j: int| i <= j < world.view().players.len() ==> world.view().players[j] == start.players[j],
        decreases world.players@.len() - i,
    {
        let ghost pre = world.view();
        let t = terms[i];
        let v = match world.players[i].grounded {
            Some(true) => if world.players[i].move_input.y == F32_ONE { F32_JUMP_SPEED } else { F32_ZERO },
            Some(false) => t.fallen_velocity,
            None => world.players[i].v_velocity.0,
        };
        world.players[i].v_velocity.0 = v;
        world.players[i].move_input.x = F32_ZERO;
        world.players[i].move_input.y = F32_ZERO;
        world.players[i].move_input.z = F32_ZERO;
        let movement = Vec3 { x: t.move_x, y: v, z: t.move_z };
        if f32_bits_is_zero(movement.x) && f32_bits_is_zero(movement.y) && f32_bits_is_zero(movement.z) {
            world.players[i].translation_request = None;
        } else {
            world.players[i].translation_request = Some(movement);
        }
        proof {
            assert(world.view().players[i as int] == integrate_player(start.players[i as int], t));
            assert(world.view().players =~= pre.players.update(i as int, integrate_player(start.players[i as int], t)));
            assert forall|a: int, b: int| 0 <= a < b < world.view().players.len() implies
                world.view().players[a].id != world.view().players[b].id by {
                assert(pre.players[a].id == world.view().players[a].id);
                assert(pre.players[b].id == world.view().players[b].id);
            }
            assert forall|a: int, b: int| 0 <= a < b < world.view().players.len() implies
                world.view().players[a].entity != world.view().players[b].entity by {
                assert(pre.players[a].entity == world.view().players[a].entity);
                assert(pre.players[b].entity == world.view().players[b].entity);
            }
        }
        i = i + 1;
    }
}

/// What the physics step reports for one controller.
#[derive(Debug, Clone, Copy, PartialEq, Eq, Structural)]
pub struct PhysicsOutput {
    pub grounded: bool,
    pub translation: Vec3,
}

/// One player after the physics step: the request is consumed, and a reported
/// output sets the grounded flag and the resolved translation.
pub open spec fn settle_player(p: PlayerView, o: Option<PhysicsOutput>) -> PlayerView {
    match o {
        Some(out) => PlayerView {
            grounded: Some(out.grounded),
            transform: Transform { translation: out.translation, ..p.transform },
            translation_request: None,
            ..p
        },
        None => PlayerView { translation_request: None, ..p },
    }
}

/// Writes the physics step's outputs back, `outputs[i]` belonging to the `i`-th player.
pub fn apply_physics_output(world: &mut World, outputs: &Vec<Option<PhysicsOutput>>)
    requires
        old(world).wf(),
        outputs@.len() == old(world).players@.len(),
    ensures
        final(world).wf(),
        final(world).view().next_entity == old(world).view().next_entity,
        final(world).view().players.len() == old(world).view().players.len(),
        forall|i: int| 0 <= i < old(world).view().players.len() ==>
            final(world).view().players[i] == settle_player(old(world).view().players[i], outputs@[i]),
{
    let ghost start = world.view();
    let mut i: usize = 0;
    while i < world.players.len()
        invariant
            world.wf(),
            outputs@.len() == world.players@.len(),
            i <= world.players@.len(),
            world.view().next_entity == start.next_entity,
            world.view().players.len() == start.players.len(),
            forall|j: int| 0 <= j < i ==> world.view().players[j] == settle_player(start.players[j], outputs@[j]),
            forall|j: int| i <= j < world.view().players.len() ==> world.view().players[j] == start.players[j],
        decreases world.players@.len() - i,
    {
        let ghost pre = world.view();
        match outputs[i] {
            Some(out) => {
                world.players[i].grounded = Some(out.grounded);
                world.players[i].transform.translation = out.translation;
            },
            None => {},
        }
        world.players[i].translation_request = None;
        proof {
            assert(world.view().players[i as int] == settle_player(start.players[i as int], outputs@[i as int]));
            assert(world.view().players =~= pre.players.update(i as int, settle_player(start.players[i as int], outputs@[i as int])));
            assert forall|a: int, b: int| 0 <= a < b < world.view().players.len() implies
                world.view().players[a].id != world.view().players[b].id by {
                assert(pre.players[a].id == world.view().players[a].id);
                assert(pre.players[b].id == world.view().players[b].id);
            }
            assert forall|a: int, b: int| 0 <= a < b < world.view().players.len() implies
                world.view().players[a].entity != world.view().players[b].entity by {
                assert(pre.players[a].entity == world.view().players[a].entity);
                assert(pre.players[b].entity == world.view().players[b].entity);
            }
        }
        i = i + 1;
    }
}

} // verus!
