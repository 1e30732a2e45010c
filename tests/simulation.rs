use denaria_server::input::{handle_server_messages, LookEvent};
use denaria_server::level::{capsule_axis, collider_kind, mesh_indices, Axis, ColliderKind};
use denaria_server::message_in::DecodeError;
use denaria_server::message_out::{normalize_player_id, MessageOutType, Quat, Vec3};
use denaria_server::movement::{
    apply_physics_output, handle_character_movement, handle_look_events, MovementTerms,
    PhysicsOutput, F32_JUMP_SPEED,
};
use denaria_server::on_change::{mark_transforms_seen, on_spawn_change, on_transform_change};
use denaria_server::tick::{handle_server_events, ServerEvent, Tick};
use denaria_server::world::{
    handle_disconnect_events, handle_spawn_events, DisconnectEvent, PlayerLookup, SpawnEvent, World,
};

fn world_with(ids: &[&str]) -> World {
    let mut w = World::new();
    for id in ids {
        w.on_connect(&id.to_string());
    }
    w
}

fn terms_for(w: &World) -> Vec<MovementTerms> {
    w.players
        .iter()
        .map(|p| MovementTerms {
            move_x: (f32::from_bits(p.move_input.x) * 0.3).to_bits(),
            move_z: (f32::from_bits(p.move_input.z) * 0.3).to_bits(),
            fallen_velocity: (f32::from_bits(p.v_velocity.0) - 9.8 * 0.016).to_bits(),
        })
        .collect()
}

#[test]
fn connect_spawns_alice_at_start_point() {
    let w = world_with(&["alice"]);
    let spawns = on_spawn_change(&w);
    assert_eq!(spawns.len(), 1);
    assert_eq!(spawns[0].event_type, MessageOutType::Spawn);
    let logical: Vec<([u8; 16], [f32; 3], [f32; 4])> =
        vec![(*b"alice\0\0\0\0\0\0\0\0\0\0\0", [25.0, 20.0, -10.0], [0.0, 0.0, 0.0, 1.0])];
    let mut expected = bincode::serialize(&logical).unwrap();
    expected.insert(0, 0);
    assert_eq!(spawns[0].data, expected);
}

#[test]
fn connect_twice_equals_connect_once() {
    let mut w = world_with(&["alice"]);
    let entity = w.players[0].entity;
    w.on_connect(&"alice".to_string());
    assert_eq!(w.players.len(), 1);
    assert_eq!(w.lookup.map.len(), 1);
    assert_eq!(w.players[0].entity, entity);
    assert_eq!(w.next_entity, 1);
}

#[test]
fn registry_size_matches_players() {
    let mut w = world_with(&["a", "b", "c"]);
    assert_eq!(w.lookup.map.len(), w.players.len());
    assert!(w.on_disconnect(&"b".to_string()));
    assert_eq!(w.lookup.map.len(), 2);
    assert_eq!(w.players.len(), 2);
    for (entry, p) in w.lookup.map.iter().zip(w.players.iter()) {
        assert_eq!(entry.0, p.player.id);
        assert_eq!(entry.1, p.entity);
    }
}

#[test]
fn handles_never_alias_across_reconnect() {
    let mut w = world_with(&["a"]);
    let first = w.players[0].entity;
    assert!(w.on_disconnect(&"a".to_string()));
    w.on_connect(&"a".to_string());
    assert_ne!(w.players[0].entity, first);
    assert_eq!(w.lookup(&"a".to_string()), Some(0));
    assert_eq!(w.lookup_entity(&"a".to_string()), Some(w.players[0].entity));
    assert_eq!(w.lookup_entity(&"b".to_string()), None);
}

#[test]
fn connect_then_disconnect_brackets_lifetime() {
    let mut w = World::new();
    handle_spawn_events(&mut w, vec![SpawnEvent { player_id: "eve".to_string() }]);
    let spawns = on_spawn_change(&w);
    assert_eq!(spawns.len(), 1);
    mark_transforms_seen(&mut w);
    assert!(on_spawn_change(&w).is_empty());
    let m = handle_disconnect_events(&mut w, vec![DisconnectEvent { player_id: "eve".to_string() }]).unwrap();
    assert_eq!(m.event_type, MessageOutType::Disconnect);
    let ids: Vec<[u8; 16]> = bincode::deserialize(&m.data[1..]).unwrap();
    assert_eq!(ids, vec![normalize_player_id("eve")]);
    assert_eq!(w.lookup(&"eve".to_string()), None);
    assert!(w.players.is_empty());
    assert!(w.lookup.map.is_empty());
}

#[test]
fn disconnects_in_one_tick_share_one_message() {
    let mut w = world_with(&["bob", "carol", "dave"]);
    let events = vec![
        DisconnectEvent { player_id: "carol".to_string() },
        DisconnectEvent { player_id: "nobody".to_string() },
        DisconnectEvent { player_id: "bob".to_string() },
    ];
    let m = handle_disconnect_events(&mut w, events).unwrap();
    let ids: Vec<[u8; 16]> = bincode::deserialize(&m.data[1..]).unwrap();
    assert_eq!(ids, vec![normalize_player_id("carol"), normalize_player_id("bob")]);
    assert_eq!(w.players.len(), 1);
    assert!(handle_disconnect_events(&mut w, vec![DisconnectEvent { player_id: "x".to_string() }]).is_none());
}

#[test]
fn move_then_tick_clears_input_and_reports_position() {
    let mut w = world_with(&["bob"]);
    mark_transforms_seen(&mut w);
    let msgs = vec![(vec![0x02, 0x00, 0x00, 0x80, 0x3F, 0x00, 0x00, 0x00, 0x00], "bob".to_string())];
    let out = handle_server_messages(&mut w, &msgs);
    assert!(out.errors.is_empty());
    assert_eq!(w.players[0].move_input.x, 1.0f32.to_bits());
    assert_eq!(w.players[0].move_input.z, 0);
    let terms = terms_for(&w);
    handle_character_movement(&mut w, &terms);
    assert_eq!((w.players[0].move_input.x, w.players[0].move_input.y, w.players[0].move_input.z), (0, 0, 0));
    let req = w.players[0].translation_request.unwrap();
    assert_eq!(f32::from_bits(req.x), 0.3);
    let moved = Vec3 { x: 25.3f32.to_bits(), y: 20.0f32.to_bits(), z: (-10.0f32).to_bits() };
    apply_physics_output(&mut w, &vec![Some(PhysicsOutput { grounded: true, translation: moved })]);
    let (pos, rot) = on_transform_change(&w, 42);
    let pos = pos.unwrap();
    assert!(rot.is_some());
    let (tick, entries): (u16, Vec<([u8; 16], [f32; 3])>) = bincode::deserialize(&pos.data[1..]).unwrap();
    assert_eq!(tick, 42);
    assert_eq!(entries, vec![(normalize_player_id("bob"), [25.3, 20.0, -10.0])]);
}

#[test]
fn later_move_in_same_tick_wins() {
    let mut w = world_with(&["bob"]);
    let mut second = vec![2u8];
    second.extend_from_slice(&5.0f32.to_le_bytes());
    second.extend_from_slice(&6.0f32.to_le_bytes());
    let msgs = vec![
        (vec![2, 0, 0, 128, 63, 0, 0, 128, 63], "bob".to_string()),
        (second, "bob".to_string()),
    ];
    handle_server_messages(&mut w, &msgs);
    assert_eq!(w.players[0].move_input.x, 5.0f32.to_bits());
    assert_eq!(w.players[0].move_input.z, 6.0f32.to_bits());
}

#[test]
fn malformed_move_changes_nothing() {
    let mut w = world_with(&["bob"]);
    mark_transforms_seen(&mut w);
    let out = handle_server_messages(&mut w, &vec![(vec![2, 0, 0, 0], "bob".to_string())]);
    assert_eq!(out.errors, vec![DecodeError::BufferTooShort]);
    assert_eq!(w.players.len(), 1);
    assert_eq!(w.players[0].move_input.x, 0);
    let (pos, rot) = on_transform_change(&w, 3);
    assert!(pos.is_none() && rot.is_none());
}

#[test]
fn messages_from_unknown_identities_are_dropped() {
    let mut w = world_with(&["bob"]);
    let out = handle_server_messages(
        &mut w,
        &vec![(vec![4], "ghost".to_string()), (vec![3; 17], "ghost".to_string()), (vec![9], "bob".to_string())],
    );
    assert!(out.look_events.is_empty());
    assert_eq!(out.errors, vec![DecodeError::InvalidTag]);
    assert_eq!(w.players[0].move_input.y, 0);
}

#[test]
fn spawn_message_becomes_spawn_event() {
    let mut w = World::new();
    let out = handle_server_messages(&mut w, &vec![(vec![0], "zed".to_string())]);
    assert_eq!(out.spawn_events.len(), 1);
    assert_eq!(out.spawn_events[0].player_id, "zed");
    handle_spawn_events(&mut w, out.spawn_events);
    handle_spawn_events(&mut w, vec![SpawnEvent { player_id: "zed".to_string() }]);
    assert_eq!(w.players.len(), 1);
}

#[test]
fn jump_on_ground_sets_jump_speed_then_gravity_applies() {
    let mut w = world_with(&["bob"]);
    let here = w.players[0].transform.translation;
    apply_physics_output(&mut w, &vec![Some(PhysicsOutput { grounded: true, translation: here })]);
    handle_server_messages(&mut w, &vec![(vec![4], "bob".to_string())]);
    assert_eq!(w.players[0].move_input.y, 1.0f32.to_bits());
    let terms = terms_for(&w);
    handle_character_movement(&mut w, &terms);
    assert_eq!(w.players[0].v_velocity.0, F32_JUMP_SPEED);
    assert_eq!(f32::from_bits(F32_JUMP_SPEED), 5.5);
    assert_eq!(w.players[0].move_input.y, 0);
    let up = w.players[0].translation_request.unwrap();
    assert_eq!(f32::from_bits(up.y), 5.5);
    apply_physics_output(&mut w, &vec![Some(PhysicsOutput { grounded: false, translation: up })]);
    let terms = terms_for(&w);
    handle_character_movement(&mut w, &terms);
    let v = f32::from_bits(w.players[0].v_velocity.0);
    assert!((v - (5.5 - 0.1568)).abs() < 1e-4);
}

#[test]
fn grounded_without_input_requests_nothing() {
    let mut w = world_with(&["bob"]);
    let here = w.players[0].transform.translation;
    apply_physics_output(&mut w, &vec![Some(PhysicsOutput { grounded: true, translation: here })]);
    let terms = terms_for(&w);
    handle_character_movement(&mut w, &terms);
    assert_eq!(w.players[0].v_velocity.0, 0);
    assert!(w.players[0].translation_request.is_none());
}

#[test]
fn look_event_sets_rotation_exactly() {
    let mut w = world_with(&["bob"]);
    let mut bytes = vec![3u8];
    for f in [0.0f32, 0.7071, 0.0, 0.7071] {
        bytes.extend_from_slice(&f.to_le_bytes());
    }
    let out = handle_server_messages(&mut w, &vec![(bytes.clone(), "bob".to_string())]);
    assert_eq!(out.look_events.len(), 1);
    assert_eq!(out.look_events[0].entity, w.players[0].entity);
    handle_look_events(&mut w, out.look_events);
    let r = w.players[0].transform.rotation;
    let mut back = Vec::new();
    for b in [r.x, r.y, r.z, r.w] {
        back.extend_from_slice(&b.to_le_bytes());
    }
    assert_eq!(back, bytes[1..].to_vec());
    let stale = LookEvent { entity: denaria_server::world::Entity { index: 99 }, direction: Quat { x: 1, y: 1, z: 1, w: 1 } };
    handle_look_events(&mut w, vec![stale]);
    assert_eq!(w.players[0].transform.rotation, r);
}

#[test]
fn unchanged_world_emits_no_snapshot() {
    let mut w = world_with(&["bob", "carol"]);
    let (pos, _) = on_transform_change(&w, 1);
    let (_, entries): (u16, Vec<([u8; 16], [f32; 3])>) = bincode::deserialize(&pos.unwrap().data[1..]).unwrap();
    assert_eq!(entries.len(), 2);
    mark_transforms_seen(&mut w);
    let (pos, rot) = on_transform_change(&w, 2);
    assert!(pos.is_none() && rot.is_none());
}

#[test]
fn tick_wraps_to_two() {
    let mut t = Tick(u16::MAX);
    t.advance();
    assert_eq!(t.0, 2);
    let mut t = Tick::new();
    t.advance();
    assert_eq!(t.0, 1);
    t.advance();
    assert_eq!(t.0, 2);
}

#[test]
fn tick_sync_every_sixty_ticks() {
    let mut t = Tick(2);
    let mut synced = vec![];
    for _ in 0..200 {
        let (sync, _) = handle_server_events(&mut t, vec![]);
        if let Some(m) = sync {
            assert_eq!(m.event_type, MessageOutType::TickSync);
            let tick: u16 = bincode::deserialize(&m.data[1..]).unwrap();
            assert_eq!(tick, t.0);
            synced.push(t.0);
        }
    }
    assert_eq!(synced, vec![60, 120, 180]);
}

#[test]
fn transport_disconnects_become_events_in_drain_order() {
    let mut t = Tick::new();
    let events = vec![
        ServerEvent::ClientDisconnected { client_id: 1, player_id: "bob".to_string(), reason: "timeout".to_string() },
        ServerEvent::ClientConnected { client_id: 3 },
        ServerEvent::ClientDisconnected { client_id: 2, player_id: "carol".to_string(), reason: "closed".to_string() },
    ];
    let (sync, disconnects) = handle_server_events(&mut t, events);
    assert!(sync.is_none());
    assert_eq!(t.0, 1);
    let ids: Vec<&str> = disconnects.iter().map(|d| d.player_id.as_str()).collect();
    assert_eq!(ids, vec!["bob", "carol"]);
}

#[test]
fn player_lookup_starts_empty() {
    assert!(PlayerLookup::new().map.is_empty());
}

#[test]
fn level_collider_dispatch() {
    assert_eq!(collider_kind(&"MeshCollider".to_string()), Some(ColliderKind::Mesh));
    assert_eq!(collider_kind(&"CapsuleCollider".to_string()), Some(ColliderKind::Capsule));
    assert_eq!(collider_kind(&"SphereCollider".to_string()), Some(ColliderKind::Sphere));
    assert_eq!(collider_kind(&"BoxCollider".to_string()), Some(ColliderKind::Cuboid));
    assert_eq!(collider_kind(&"Terrain".to_string()), None);
    assert_eq!(capsule_axis(0), Some(Axis::X));
    assert_eq!(capsule_axis(1), Some(Axis::Y));
    assert_eq!(capsule_axis(2), Some(Axis::Z));
    assert_eq!(capsule_axis(3), None);
    assert_eq!(mesh_indices(&vec![0, 1, 2, 2, 3, -1]), Some(vec![[0, 1, 2], [2, 3, u32::MAX]]));
    assert_eq!(mesh_indices(&vec![0, 1]), None);
    assert_eq!(mesh_indices(&vec![]), Some(vec![]));
}
