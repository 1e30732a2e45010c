use vstd::prelude::*;

use crate::message_out::{
    position_entries, position_bytes, rotation_entries, rotation_bytes, spawn_bytes, wire_id,
    MessageOut, MessageOutType, Quat, Vec3,
};
use crate::world::{PlayerView, World, WorldView};

verus! {

/// Whether a player's transform counts as changed this tick: it was just
/// created, or it differs from its value at the previous tick boundary.
pub open spec fn transform_changed(p: PlayerView) -> bool {
    p.added || p.transform != p.prev_transform
}

/// The players whose transform changed, in world order.
pub open spec fn changed_players(s: Seq<PlayerView>) -> Seq<PlayerView>
    decreases s.len(),
{
    if s.len() == 0 {
        Seq::empty()
    } else if transform_changed(s.last()) {
        changed_players(s.drop_last()).push(s.last())
    } else {
        changed_players(s.drop_last())
    }
}

/// The players created since change detection last ran, in world order.
pub open spec fn added_players(s: Seq<PlayerView>) -> Seq<PlayerView>
    decreases s.len(),
{
    if s.len() == 0 {
        Seq::empty()
    } else if s.last().added {
        added_players(s.drop_last()).push(s.last())
    } else {
        added_players(s.drop_last())
    }
}

/// The Spawn message of one player.
pub open spec fn spawn_message_bytes(p: PlayerView) -> Seq<u8> {
    spawn_bytes(seq![(wire_id(p.id), p.transform.translation, p.transform.rotation)])
}

pub open spec fn position_pairs(s: Seq<PlayerView>) -> Seq<(Seq<u8>, Vec3)> {
    s.map_values(|p: PlayerView| (wire_id(p.id), p.transform.translation))
}

pub open spec fn rotation_pairs(s: Seq<PlayerView>) -> Seq<(Seq<u8>, Quat)> {
    s.map_values(|p: PlayerView| (wire_id(p.id), p.transform.rotation))
}

/// A world whose change markers are reset at a tick boundary.
pub open spec fn spec_mark_seen(w: WorldView) -> WorldView {
    WorldView {
        players: w.players.map_values(|p: PlayerView| PlayerView { added: false, prev_transform: p.transform, ..p }),
        next_entity: w.next_entity,
    }
}

/// One Spawn message for each newly created player, in world order.
pub fn on_spawn_change(world: &World) -> (r: Vec<MessageOut>)
    requires
        world.wf(),
    ensures
        r@.len() == added_players(world.view().players).len(),
        forall|k: int| 0 <= k < r@.len() ==> (#[trigger] r@[k]).event_type == MessageOutType::Spawn
            && r@[k].data@ == spawn_message_bytes(added_players(world.view().players)[k]),
{
    let ghost ps = world.view().players;
    let mut out: Vec<MessageOut> = Vec::new();
    let mut i: usize = 0;
    while i < world.players.len()
        invariant
            world.wf(),
            ps == world.view().players,
            i <= ps.len(),
            out@.len() == added_players(ps.subrange(0, i as int)).len(),
            forall|k: int| 0 <= k < out@.len() ==> (#[trigger] out@[k]).event_type == MessageOutType::Spawn
                && out@[k].data@ == spawn_message_bytes(added_players(ps.subrange(0, i as int))[k]),
        decreases ps.len() - i,
    {
        proof {
            assert(ps.subrange(0, i + 1).drop_last() =~= ps.subrange(0, i as int));
        }
        if world.players[i].added {
            let p = &world.players[i];
            let m = MessageOut::spawn_message(p.player.id.clone(), p.transform.translation, p.transform.rotation);
            match m {
                Some(m) => {
                    out.push(m);
                },
                None => {},
            }
        }
        i = i + 1;
    }
    assert(ps.subrange(0, ps.len() as int) =~= ps);
    out
}

/// One Position snapshot at `tick` and one Rotation snapshot, each listing
/// every changed player in world order; neither when nothing changed.
pub fn on_transform_change(world: &World, tick: u16) -> (r: (Option<MessageOut>, Option<MessageOut>))
    requires
        world.wf(),
    ensures
        ({
            let changed = changed_players(world.view().players);
            &&& (changed.len() == 0 <==> r.0 is None)
            &&& (changed.len() == 0 <==> r.1 is None)
            &&& (r.0 is Some ==> r.0->Some_0.event_type == MessageOutType::Position
                && r.0->Some_0.data@ == position_bytes(tick, position_pairs(changed)))
            &&& (r.1 is Some ==> r.1->Some_0.event_type == MessageOutType::Rotation
                && r.1->Some_0.data@ == rotation_bytes(rotation_pairs(changed)))
        }),
{
    let ghost ps = world.view().players;
    let mut positions: Vec<(Vec3, String)> = Vec::new();
    let mut rotations: Vec<(Quat, String)> = Vec::new();
    let mut i: usize = 0;
    while i < world.players.len()
        invariant
            world.wf(),
            ps == world.view().players,
            i <= ps.len(),
            position_entries(positions@) == position_pairs(changed_players(ps.subrange(0, i as int))),
            rotation_entries(rotations@) == rotation_pairs(changed_players(ps.subrange(0, i as int))),
            positions@.len() == changed_players(ps.subrange(0, i as int)).len(),
        decreases ps.len() - i,
    {
        let ghost pos_before = positions@;
        let ghost rot_before = rotations@;
        proof {
            assert(ps.subrange(0, i + 1).drop_last() =~= ps.subrange(0, i as int));
        }
        let p = &world.players[i];
        if p.added || p.transform != p.prev_transform {
            positions.push((p.transform.translation, p.player.id.clone()));
            rotations.push((p.transform.rotation, p.player.id.clone()));
            proof {
                let ch = changed_players(ps.subrange(0, i + 1));
                assert(position_entries(positions@) =~= position_entries(pos_before).push((wire_id(ps[i as int].id), ps[i as int].transform.translation)));
                assert(position_pairs(ch) =~= position_pairs(changed_players(ps.subrange(0, i as int))).push((wire_id(ps[i as int].id), ps[i as int].transform.translation)));
                assert(rotation_entries(rotations@) =~= rotation_entries(rot_before).push((wire_id(ps[i as int].id), ps[i as int].transform.rotation)));
                assert(rotation_pairs(ch) =~= rotation_pairs(changed_players(ps.subrange(0, i as int))).push((wire_id(ps[i as int].id), ps[i as int].transform.rotation)));
            }
        }
        i = i + 1;
    }
    assert(ps.subrange(0, ps.len() as int) =~= ps);
    let pos = MessageOut::position_message(positions, tick);
    let rot = MessageOut::rotation_message(rotations);
    (pos, rot)
}

/// Marks every player's transform as seen at this tick boundary.
pub fn mark_transforms_seen(world: &mut World)
    requires
        old(world).wf(),
    ensures
        final(world).wf(),
        final(world).view() == spec_mark_seen(old(world).view()),
{
    let ghost start = world.view();
    let mut i: usize = 0;
    while i < world.players.len()
        invariant
            world.wf(),
            i <= world.players@.len(),
            world.view().next_entity == start.next_entity,
            world.view().players.len() == start.players.len(),
            forall|j: int| 0 <= j < i ==> world.view().players[j] == spec_mark_seen(start).players[j],
            forall|j: int| i <= j < world.view().players.len() ==> world.view().players[j] == start.players[j],
        decreases world.players@.len() - i,
    {
        let ghost pre = world.view();
        world.players[i].added = false;
        world.players[i].prev_transform = world.players[i].transform;
        proof {
            assert(world.view().players =~= pre.players.update(i as int, spec_mark_seen(start).players[i as int]));
            assert forall|a: int, b: int| 0 <= a < b < world.view().players.len() implies
                world.view().players[a].id != world.view().players[b].id by {
                assert(pre.players[a].id == world.view().players[a].id);
                assert(pre.players[b].id == world.view().players[b].id);
            }
            assert forall|a: int, b: int| 0 <= a < b < world.view().players.len() implies
                world.view().players[a].entity != world.view().players[b].entity by {
                assert(pre.players[a].entity == world.view().players[a].entity);
                assert(pre.players[b].entity == world.view().players[b].entity);
            }
        }
        i = i + 1;
    }
    assert(world.view().players =~= spec_mark_seen(start).players);
}

} // verus!
