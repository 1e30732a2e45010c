use vstd::prelude::*;

use crate::message_out::{MessageOut, Quat, Vec3, disconnect_entries, disconnect_bytes, MessageOutType};

verus! {

/// Bit pattern of `0.0f32`.
pub const F32_ZERO: u32 = 0x0000_0000;
/// Bit pattern of `1.0f32`.
pub const F32_ONE: u32 = 0x3F80_0000;
/// Bit pattern of `25.0f32`.
pub const F32_25: u32 = 0x41C8_0000;
/// Bit pattern of `20.0f32`.
pub const F32_20: u32 = 0x41A0_0000;
/// Bit pattern of `-10.0f32`.
pub const F32_MINUS_10: u32 = 0xC120_0000;

/// Where a newly connected player appears: `(25, 20, -10)`.
pub open spec fn spawn_translation() -> Vec3 {
    Vec3 { x: F32_25, y: F32_20, z: F32_MINUS_10 }
}

/// The identity rotation `(0, 0, 0, 1)`.
pub open spec fn identity_rotation() -> Quat {
    Quat { x: F32_ZERO, y: F32_ZERO, z: F32_ZERO, w: F32_ONE }
}

pub open spec fn zero_vec3() -> Vec3 {
    Vec3 { x: F32_ZERO, y: F32_ZERO, z: F32_ZERO }
}

/// An opaque handle to a simulated body; handles are never reused in a session.
#[derive(Debug, Clone, Copy, PartialEq, Eq, Structural)]
pub struct Entity {
    pub index: u64,
}

#[derive(Debug, Clone, Copy, PartialEq, Eq, Structural)]
pub struct Transform {
    pub translation: Vec3,
    pub rotation: Quat,
}

/// The identity component of a player entity.
#[derive(Debug)]
pub struct Player {
    pub id: String,
}

/// Vertical speed of a player, as `f32` bits; it persists across ticks.
#[derive(Debug, Clone, Copy, PartialEq, Eq, Structural)]
pub struct VerticalVelocity(pub u32);

/// Pending input for the current tick, as `f32` bits: `x` and `z` are the desired
/// horizontal motion, `y` is the jump flag (`0.0` or `1.0`).
#[derive(Debug, Clone, Copy, PartialEq, Eq, Structural)]
pub struct MoveInput {
    pub x: u32,
    pub y: u32,
    pub z: u32,
    pub prev_move: Vec3,
}

pub open spec fn cleared_input(m: MoveInput) -> MoveInput {
    MoveInput { x: F32_ZERO, y: F32_ZERO, z: F32_ZERO, prev_move: m.prev_move }
}

/// The components a player entity is created with.
#[derive(Debug)]
pub struct PlayerBundle {
    pub player: Player,
    pub move_input: MoveInput,
    pub v_velocity: VerticalVelocity,
}

impl PlayerBundle {
    /// A bundle with an empty identity, no pending input and no vertical speed.
    pub fn default() -> (r: PlayerBundle)
        ensures
            r.player.id@.len() == 0,
            r.move_input == (MoveInput { x: F32_ZERO, y: F32_ZERO, z: F32_ZERO, prev_move: zero_vec3() }),
            r.v_velocity == VerticalVelocity(F32_ZERO),
    {
        PlayerBundle {
            player: Player { id: String::new() },
            move_input: MoveInput {
                x: F32_ZERO,
                y: F32_ZERO,
                z: F32_ZERO,
                prev_move: Vec3 { x: F32_ZERO, y: F32_ZERO, z: F32_ZERO },
            },
            v_velocity: VerticalVelocity(F32_ZERO),
        }
    }
}

/// One live player body with all of its attributes.
#[derive(Debug)]
pub struct PlayerEntity {
    pub entity: Entity,
    pub player: Player,
    pub transform: Transform,
    pub move_input: MoveInput,
    pub v_velocity: VerticalVelocity,
    /// The controller's grounded output of the latest physics step, if any.
    pub grounded: Option<bool>,
    /// The translation requested of the character controller for this step.
    pub translation_request: Option<Vec3>,
    /// Set on creation, cleared when change detection has run.
    pub added: bool,
    /// The transform at the previous tick boundary.
    pub prev_transform: Transform,
}

/// The mathematical state of one player entity.
pub struct PlayerView {
    pub id: Seq<char>,
    pub entity: Entity,
    pub transform: Transform,
    pub move_input: MoveInput,
    pub v_velocity: u32,
    pub grounded: Option<bool>,
    pub translation_request: Option<Vec3>,
    pub added: bool,
    pub prev_transform: Transform,
}

impl View for PlayerEntity {
    type V = PlayerView;

    open spec fn view(&self) -> PlayerView {
        PlayerView {
            id: self.player.id@,
            entity: self.entity,
            transform: self.transform,
            move_input: self.move_input,
            v_velocity: self.v_velocity.0,
            grounded: self.grounded,
            translation_request: self.translation_request,
            added: self.added,
            prev_transform: self.prev_transform,
        }
    }
}

/// The registry: player identity to entity handle.
#[derive(Debug)]
pub struct PlayerLookup {
    pub map: Vec<(String, Entity)>,
}

impl PlayerLookup {
    pub fn new() -> (r: PlayerLookup)
        ensures
            r.map@.len() == 0,
    {
        PlayerLookup { map: Vec::new() }
    }

    /// The registry as a sequence of `(identity, handle)` pairs.
    pub open spec fn entries(&self) -> Seq<(Seq<char>, Entity)> {
        self.map@.map_values(|e: (String, Entity)| (e.0@, e.1))
    }
}

/// The simulation world: every live player and the registry that names them.
#[derive(Debug)]
pub struct World {
    pub players: Vec<PlayerEntity>,
    pub lookup: PlayerLookup,
    /// The handle that the next spawned player receives.
    pub next_entity: u64,
}

pub struct WorldView {
    pub players: Seq<PlayerView>,
    pub next_entity: u64,
}

/// The entity that a newly connected player becomes.
pub open spec fn new_player(id: Seq<char>, entity: Entity) -> PlayerView {
    PlayerView {
        id,
        entity,
        transform: Transform { translation: spawn_translation(), rotation: identity_rotation() },
        move_input: MoveInput { x: F32_ZERO, y: F32_ZERO, z: F32_ZERO, prev_move: zero_vec3() },
        v_velocity: F32_ZERO,
        grounded: None,
        translation_request: None,
        added: true,
        prev_transform: Transform { translation: spawn_translation(), rotation: identity_rotation() },
    }
}

/// The identities of the live players, in order.
pub open spec fn ids_of(players: Seq<PlayerView>) -> Seq<Seq<char>> {
    players.map_values(|p: PlayerView| p.id)
}

/// The handles of the live players, in order.
pub open spec fn entities_of(players: Seq<PlayerView>) -> Seq<Entity> {
    players.map_values(|p: PlayerView| p.entity)
}

/// Whether some live player carries the identity.
pub open spec fn has_id(players: Seq<PlayerView>, id: Seq<char>) -> bool {
    exists|i: int| 0 <= i < ids_of(players).len() && ids_of(players)[i] == id
}

/// The position of the player carrying the identity.
pub open spec fn index_of(players: Seq<PlayerView>, id: Seq<char>) -> int
    recommends
        has_id(players, id),
{
    choose|i: int| 0 <= i < ids_of(players).len() && ids_of(players)[i] == id
}

/// Identities are unique, handles are unique and all below the next handle.
pub open spec fn players_wf(w: WorldView) -> bool {
    &&& forall|i: int, j: int|
        0 <= i < j < w.players.len() ==> w.players[i].id != w.players[j].id
    &&& forall|i: int, j: int|
        0 <= i < j < w.players.len() ==> w.players[i].entity != w.players[j].entity
    &&& forall|i: int| 0 <= i < w.players.len() ==> w.players[i].entity.index < w.next_entity
    &&& forall|i: int| 0 <= i < w.players.len() ==> w.players[i].move_input.y == F32_ZERO
        || w.players[i].move_input.y == F32_ONE
}

/// Connecting an identity: a no-op when it is present (or handles are exhausted),
/// else a new player at the spawn point with a fresh handle.
pub open spec fn spec_connect(w: WorldView, id: Seq<char>) -> WorldView {
    if has_id(w.players, id) || w.next_entity == u64::MAX {
        w
    } else {
        WorldView {
            players: w.players.push(new_player(id, Entity { index: w.next_entity })),
            next_entity: (w.next_entity + 1) as u64,
        }
    }
}

/// Disconnecting an identity: its player is removed, the others keep their order.
pub open spec fn spec_disconnect(w: WorldView, id: Seq<char>) -> WorldView {
    if has_id(w.players, id) {
        WorldView { players: w.players.remove(index_of(w.players, id)), next_entity: w.next_entity }
    } else {
        w
    }
}

/// Disconnects a batch of identities in order; returns the world and the
/// identities actually removed.
pub open spec fn spec_disconnect_all(w: WorldView, ids: Seq<Seq<char>>) -> (WorldView, Seq<Seq<char>>)
    decreases ids.len(),
{
    if ids.len() == 0 {
        (w, Seq::empty())
    } else {
        let (w1, removed) = spec_disconnect_all(w, ids.drop_last());
        let id = ids.last();
        if has_id(w1.players, id) {
            (spec_disconnect(w1, id), removed.push(id))
        } else {
            (w1, removed)
        }
    }
}

/// Connects a batch of identities in order.
pub open spec fn spec_connect_all(w: WorldView, ids: Seq<Seq<char>>) -> WorldView
    decreases ids.len(),
{
    if ids.len() == 0 {
        w
    } else {
        spec_connect(spec_connect_all(w, ids.drop_last()), ids.last())
    }
}

/// A request to create the player entity of an identity.
#[derive(Debug)]
pub struct SpawnEvent {
    pub player_id: String,
}

/// A request to remove the player entity of an identity.
#[derive(Debug)]
pub struct DisconnectEvent {
    pub player_id: String,
}

pub open spec fn spawn_event_ids(s: Seq<SpawnEvent>) -> Seq<Seq<char>> {
    s.map_values(|e: SpawnEvent| e.player_id@)
}

pub open spec fn disconnect_event_ids(s: Seq<DisconnectEvent>) -> Seq<Seq<char>> {
    s.map_values(|e: DisconnectEvent| e.player_id@)
}

impl World {
    pub open spec fn view(&self) -> WorldView {
        WorldView { players: self.players@.map_values(|p: PlayerEntity| p@), next_entity: self.next_entity }
    }

    /// The registry names exactly the live players, entry for entry.
    pub open spec fn wf(&self) -> bool {
        &&& players_wf(self.view())
        &&& self.lookup.map@.len() == self.players@.len()
        &&& forall|i: int| 0 <= i < self.players@.len() ==>
            (#[trigger] self.lookup.entries()[i]) == (self.players@[i].player.id@, self.players@[i].entity)
    }

    /// An empty world.
    pub fn new() -> (r: World)
        ensures
            r.wf(),
            r.view().players.len() == 0,
            r.view().next_entity == 0,
    {
        World { players: Vec::new(), lookup: PlayerLookup::new(), next_entity: 0 }
    }

    /// Where the player with this identity stands, if it is live.
    pub fn lookup(&self, id: &String) -> (r: Option<usize>)
        requires
            self.wf(),
        ensures
            r is Some <==> has_id(self.view().players, id@),
            r is Some ==> r->Some_0 == index_of(self.view().players, id@),
    {
        let ghost v = self.view();
        let mut i: usize = 0;
        while i < self.lookup.map.len()
            invariant
                self.wf(),
                v == self.view(),
                i <= self.lookup.map@.len(),
                forall|j: int| 0 <= j < i ==> v.players[j].id != id@,
            decreases self.lookup.map@.len() - i,
        {
            if self.lookup.map[i].0 == *id {
                proof {
                    assert(self.lookup.entries()[i as int] == (self.players@[i as int].player.id@, self.players@[i as int].entity));
                    assert(v.players[i as int].id == id@);
                    assert(ids_of(v.players)[i as int] == id@);
                    let k = index_of(v.players, id@);
                    assert(0 <= k < v.players.len() && ids_of(v.players)[k] == id@);
                    assert(v.players[k].id == id@);
                    if k != i as int {
                        if k < i as int {
                            assert(v.players[k].id != v.players[i as int].id);
                        } else {
                            assert(v.players[i as int].id != v.players[k].id);
                        }
                    }
                }
                return Some(i);
            }
            proof {
                assert(self.lookup.entries()[i as int] == (self.players@[i as int].player.id@, self.players@[i as int].entity));
            }
            i = i + 1;
        }
        proof {
            assert forall|j: int| 0 <= j < ids_of(v.players).len() implies ids_of(v.players)[j] != id@ by {
                assert(ids_of(v.players)[j] == v.players[j].id);
            }
        }
        None
    }

    /// The handle of the player with this identity, if it is live.
    pub fn lookup_entity(&self, id: &String) -> (r: Option<Entity>)
        requires
            self.wf(),
        ensures
            r is Some <==> has_id(self.view().players, id@),
            r is Some ==> r->Some_0 == self.view().players[index_of(self.view().players, id@)].entity,
    {
        match self.lookup(id) {
            Some(i) => {
                proof {
                    assert(self.lookup.entries()[i as int] == (self.players@[i as int].player.id@, self.players@[i as int].entity));
                }
                Some(self.lookup.map[i].1)
            },
            None => None,
        }
    }

    /// Connects an identity; idempotent.
    pub fn on_connect(&mut self, id: &String)
        requires
            old(self).wf(),
        ensures
            final(self).wf(),
            final(self).view() == spec_connect(old(self).view(), id@),
    {
        if self.lookup(id).is_some() || self.next_entity == u64::MAX {
            return;
        }
        let ghost v = self.view();
        let entity = Entity { index: self.next_entity };
        let bundle = PlayerBundle::default();
        let transform = Transform {
            translation: Vec3 { x: F32_25, y: F32_20, z: F32_MINUS_10 },
            rotation: Quat { x: F32_ZERO, y: F32_ZERO, z: F32_ZERO, w: F32_ONE },
        };
        let p = PlayerEntity {
            entity,
            player: Player { id: id.clone() },
            transform,
            move_input: bundle.move_input,
            v_velocity: bundle.v_velocity,
            grounded: None,
            translation_request: None,
            added: true,
            prev_transform: transform,
        };
        self.players.push(p);
        self.lookup.map.push((id.clone(), entity));
        self.next_entity = self.next_entity + 1;
        proof {
            assert forall|j: int| 0 <= j < v.players.len() implies v.players[j].id != id@ by {
                assert(ids_of(v.players)[j] == v.players[j].id);
            }
            assert(self.view().players =~= v.players.push(new_player(id@, entity)));
            assert forall|i: int| 0 <= i < self.players@.len() implies
                (#[trigger] self.lookup.entries()[i]) == (self.players@[i].player.id@, self.players@[i].entity) by {
                if i < v.players.len() {
                    assert(old(self).lookup.entries()[i] == (old(self).players@[i].player.id@, old(self).players@[i].entity));
                }
            }
        }
    }

    /// Disconnects an identity; returns whether it was live.
    pub fn on_disconnect(&mut self, id: &String) -> (r: bool)
        requires
            old(self).wf(),
        ensures
            final(self).wf(),
            r == has_id(old(self).view().players, id@),
            final(self).view() == spec_disconnect(old(self).view(), id@),
    {
        let ghost v = self.view();
        match self.lookup(id) {
            None => false,
            Some(i) => {
                let _p = self.players.remove(i);
                let _e = self.lookup.map.remove(i);
                proof {
                    assert(self.view().players =~= v.players.remove(i as int));
                    assert forall|k: int| 0 <= k < self.players@.len() implies
                        (#[trigger] self.lookup.entries()[k]) == (self.players@[k].player.id@, self.players@[k].entity) by {
                        if k < i {
                            assert(old(self).lookup.entries()[k] == (old(self).players@[k].player.id@, old(self).players@[k].entity));
                        } else {
                            assert(old(self).lookup.entries()[k + 1] == (old(self).players@[k + 1].player.id@, old(self).players@[k + 1].entity));
                        }
                    }
                    let w = self.view();
                    assert forall|a: int, b: int| 0 <= a < b < w.players.len() implies w.players[a].id != w.players[b].id by {
                        let a0 = if a < i { a } else { a + 1 };
                        let b0 = if b < i { b } else { b + 1 };
                        assert(v.players[a0].id != v.players[b0].id);
                    }
                    assert forall|a: int, b: int| 0 <= a < b < w.players.len() implies w.players[a].entity != w.players[b].entity by {
                        let a0 = if a < i { a } else { a + 1 };
                        let b0 = if b < i { b } else { b + 1 };
                        assert(v.players[a0].entity != v.players[b0].entity);
                    }
                }
                true
            },
        }
    }
}


/// Applies every connect request in order; an identity already present is left alone.
pub fn handle_spawn_events(world: &mut World, events: Vec<SpawnEvent>)
    requires
        old(world).wf(),
    ensures
        final(world).wf(),
        final(world).view() == spec_connect_all(old(world).view(), spawn_event_ids(events@)),
{
    let ghost ids = spawn_event_ids(events@);
    let ghost start = world.view();
    let mut i: usize = 0;
    while i < events.len()
        invariant
            world.wf(),
            i <= events@.len(),
            ids == spawn_event_ids(events@),
            world.view() == spec_connect_all(start, ids.subrange(0, i as int)),
        decreases events@.len() - i,
    {
        world.on_connect(&events[i].player_id);
        proof {
            assert(ids.subrange(0, i + 1).drop_last() =~= ids.subrange(0, i as int));
        }
        i = i + 1;
    }
    assert(ids.subrange(0, events@.len() as int) =~= ids);
}

/// Removes the players of every disconnect request in order and, when any was
/// live, returns the one Disconnect message that names them all in that order.
pub fn handle_disconnect_events(world: &mut World, events: Vec<DisconnectEvent>) -> (r: Option<MessageOut>)
    requires
        old(world).wf(),
    ensures
        final(world).wf(),
        final(world).view() == spec_disconnect_all(old(world).view(), disconnect_event_ids(events@)).0,
        ({
            let removed = spec_disconnect_all(old(world).view(), disconnect_event_ids(events@)).1;
            &&& (removed.len() == 0 <==> r is None)
            &&& (r is Some ==> r->Some_0.event_type == MessageOutType::Disconnect
                && r->Some_0.data@ == disconnect_bytes(
                    removed.map_values(|id: Seq<char>| crate::message_out::wire_id(id))))
        }),
{
    let ghost ids = disconnect_event_ids(events@);
    let ghost start = world.view();
    let mut removed: Vec<String> = Vec::new();
    let mut i: usize = 0;
    while i < events.len()
        invariant
            world.wf(),
            i <= events@.len(),
            ids == disconnect_event_ids(events@),
            world.view() == spec_disconnect_all(start, ids.subrange(0, i as int)).0,
            removed@.map_values(|s: String| s@) == spec_disconnect_all(start, ids.subrange(0, i as int)).1,
        decreases events@.len() - i,
    {
        let ghost before = removed@;
        let was_live = world.on_disconnect(&events[i].player_id);
        if was_live {
            removed.push(events[i].player_id.clone());
        }
        proof {
            assert(ids.subrange(0, i + 1).drop_last() =~= ids.subrange(0, i as int));
            if was_live {
                assert(removed@.map_values(|s: String| s@) =~= before.map_values(|s: String| s@).push(ids[i as int]));
            }
        }
        i = i + 1;
    }
    assert(ids.subrange(0, events@.len() as int) =~= ids);
    proof {
        let rm = spec_disconnect_all(start, ids).1;
        assert(disconnect_entries(removed@) =~= rm.map_values(|id: Seq<char>| crate::message_out::wire_id(id)));
    }
    MessageOut::disconnect_message(removed)
}

} // verus!
