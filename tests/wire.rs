use denaria_server::message_in::{
    decode_inbound, digest_connect_message, digest_move_message, digest_rotation_message,
    DecodeError, InboundMessage, Jump, MessageIn, MessageInType, MoveMessageIn,
    RotationMessageIn,
};
use denaria_server::message_out::{normalize_player_id, MessageOut, MessageOutType, Quat, Vec3};

fn v3(x: f32, y: f32, z: f32) -> Vec3 {
    Vec3 { x: x.to_bits(), y: y.to_bits(), z: z.to_bits() }
}

fn q4(x: f32, y: f32, z: f32, w: f32) -> Quat {
    Quat { x: x.to_bits(), y: y.to_bits(), z: z.to_bits(), w: w.to_bits() }
}

fn with_prefix(prefix: u8, mut body: Vec<u8>) -> Vec<u8> {
    body.insert(0, prefix);
    body
}

#[test]
fn message_in_splits_tag_and_payload() {
    let m = MessageIn::new(vec![2, 9, 8, 7]).unwrap();
    assert_eq!(m.event_type, MessageInType::Move);
    assert_eq!(m.data, vec![9, 8, 7]);
    let m = MessageIn::new(vec![0]).unwrap();
    assert_eq!(m.event_type, MessageInType::Spawn);
    assert!(m.data.is_empty());
    let m = MessageIn::new(vec![42, 1]).unwrap();
    assert_eq!(m.event_type, MessageInType::Invalid);
}

#[test]
fn message_in_rejects_empty_datagram() {
    assert!(matches!(MessageIn::new(vec![]), Err(DecodeError::BufferTooShort)));
}

#[test]
fn move_with_eight_bytes_is_accepted() {
    let mut data = 1.0f32.to_le_bytes().to_vec();
    data.extend_from_slice(&(-2.5f32).to_le_bytes());
    let m = digest_move_message(data).unwrap();
    assert_eq!(m, MoveMessageIn { x: 1.0f32.to_bits(), y: (-2.5f32).to_bits() });
}

#[test]
fn move_with_seven_bytes_is_rejected() {
    assert_eq!(digest_move_message(vec![0, 0, 128, 63, 0, 0, 0]), Err(DecodeError::BufferTooShort));
}

#[test]
fn rotation_with_sixteen_bytes_is_accepted() {
    let mut data = Vec::new();
    for f in [0.1f32, 0.2, 0.3, 0.9] {
        data.extend_from_slice(&f.to_le_bytes());
    }
    let r = digest_rotation_message(data).unwrap();
    assert_eq!(
        r,
        RotationMessageIn {
            x: 0.1f32.to_bits(),
            y: 0.2f32.to_bits(),
            z: 0.3f32.to_bits(),
            w: 0.9f32.to_bits()
        }
    );
}

#[test]
fn rotation_with_eleven_bytes_is_rejected() {
    assert_eq!(digest_rotation_message(vec![0; 11]), Err(DecodeError::BufferTooShort));
    assert_eq!(digest_rotation_message(vec![0; 15]), Err(DecodeError::BufferTooShort));
}

#[test]
fn decode_inbound_by_tag() {
    assert_eq!(decode_inbound(vec![0]), Ok(InboundMessage::Spawn));
    assert_eq!(decode_inbound(vec![4]), Ok(InboundMessage::Jump(Jump {})));
    assert_eq!(
        decode_inbound(vec![2, 0x00, 0x00, 0x80, 0x3F, 0, 0, 0, 0]),
        Ok(InboundMessage::Move(MoveMessageIn { x: 0x3F80_0000, y: 0 }))
    );
    assert_eq!(decode_inbound(vec![7, 1, 2]), Err(DecodeError::InvalidTag));
    assert_eq!(decode_inbound(vec![]), Err(DecodeError::BufferTooShort));
}

#[test]
fn malformed_move_is_a_decode_error() {
    assert_eq!(decode_inbound(vec![2, 0, 0, 0]), Err(DecodeError::BufferTooShort));
}

#[test]
fn rotation_bytes_kept_verbatim_without_normalizing() {
    let mut bytes = vec![3u8];
    for f in [2.0f32, -3.0, 4.0, 10.0] {
        bytes.extend_from_slice(&f.to_le_bytes());
    }
    match decode_inbound(bytes.clone()).unwrap() {
        InboundMessage::Rotation(r) => {
            let mut back = Vec::new();
            for b in [r.x, r.y, r.z, r.w] {
                back.extend_from_slice(&b.to_le_bytes());
            }
            assert_eq!(back, bytes[1..17].to_vec());
        }
        other => panic!("unexpected {:?}", other),
    }
}

#[test]
fn connect_payload_is_utf8_text() {
    let m = digest_connect_message("héllo".as_bytes().to_vec()).unwrap();
    assert_eq!(m.message, "héllo");
    assert!(matches!(digest_connect_message(vec![]), Err(DecodeError::BufferTooShort)));
    assert!(matches!(digest_connect_message(vec![0xff, 0xfe]), Err(DecodeError::InvalidUtf8)));
}

#[test]
fn identity_of_twenty_bytes_is_truncated() {
    let id = "abcdefghijklmnopqrst";
    assert_eq!(&normalize_player_id(id)[..], &id.as_bytes()[..16]);
}

#[test]
fn identity_of_five_bytes_is_zero_padded() {
    let mut expected = [0u8; 16];
    expected[..5].copy_from_slice(b"alice");
    assert_eq!(normalize_player_id("alice"), expected);
    assert_eq!(normalize_player_id(""), [0u8; 16]);
}

#[test]
fn position_message_matches_bincode_layout() {
    let positions = vec![(v3(1.0, 2.0, 3.0), "bob".to_string()), (v3(-1.5, 0.0, 7.25), "carol".to_string())];
    let m = MessageOut::position_message(positions, 77).unwrap();
    assert_eq!(m.event_type, MessageOutType::Position);
    let logical: (u16, Vec<([u8; 16], [f32; 3])>) = (
        77,
        vec![
            (normalize_player_id("bob"), [1.0, 2.0, 3.0]),
            (normalize_player_id("carol"), [-1.5, 0.0, 7.25]),
        ],
    );
    assert_eq!(m.data, with_prefix(1, bincode::serialize(&logical).unwrap()));
    assert_eq!(m.data.len(), 11 + 2 * 28);
}

#[test]
fn position_message_of_nothing_is_none() {
    assert!(MessageOut::position_message(vec![], 5).is_none());
}

#[test]
fn rotation_message_matches_bincode_layout() {
    let rotations = vec![(q4(0.0, 0.0, 0.0, 1.0), "bob".to_string())];
    let m = MessageOut::rotation_message(rotations).unwrap();
    assert_eq!(m.event_type, MessageOutType::Rotation);
    let logical: Vec<([u8; 16], [f32; 4])> = vec![(normalize_player_id("bob"), [0.0, 0.0, 0.0, 1.0])];
    assert_eq!(m.data, with_prefix(2, bincode::serialize(&logical).unwrap()));
    assert!(MessageOut::rotation_message(vec![]).is_none());
}

#[test]
fn spawn_message_for_alice() {
    let m = MessageOut::spawn_message("alice".to_string(), v3(25.0, 20.0, -10.0), q4(0.0, 0.0, 0.0, 1.0)).unwrap();
    assert_eq!(m.event_type, MessageOutType::Spawn);
    let logical: Vec<([u8; 16], [f32; 3], [f32; 4])> =
        vec![(*b"alice\0\0\0\0\0\0\0\0\0\0\0", [25.0, 20.0, -10.0], [0.0, 0.0, 0.0, 1.0])];
    assert_eq!(m.data, with_prefix(0, bincode::serialize(&logical).unwrap()));
    assert_eq!(m.data.len(), 1 + 8 + 44);
}

#[test]
fn disconnect_message_lists_identities_in_order() {
    let m = MessageOut::disconnect_message(vec!["bob".to_string(), "carol".to_string()]).unwrap();
    assert_eq!(m.event_type, MessageOutType::Disconnect);
    let logical: Vec<[u8; 16]> = vec![normalize_player_id("bob"), normalize_player_id("carol")];
    assert_eq!(m.data, with_prefix(10, bincode::serialize(&logical).unwrap()));
    assert!(MessageOut::disconnect_message(vec![]).is_none());
}

#[test]
fn tick_sync_message_bytes() {
    let m = MessageOut::tick_sync_message(0x1234);
    assert_eq!(m.event_type, MessageOutType::TickSync);
    assert_eq!(m.data, vec![11, 0x34, 0x12]);
}

#[test]
fn outbound_messages_decode_back_to_their_payload() {
    let m = MessageOut::position_message(vec![(v3(0.5, -4.0, 9.0), "dave".to_string())], 300).unwrap();
    let (tick, entries): (u16, Vec<([u8; 16], [f32; 3])>) = bincode::deserialize(&m.data[1..]).unwrap();
    assert_eq!(tick, 300);
    assert_eq!(entries, vec![(normalize_player_id("dave"), [0.5, -4.0, 9.0])]);

    let m = MessageOut::rotation_message(vec![(q4(0.1, 0.2, 0.3, 0.4), "dave".to_string())]).unwrap();
    let entries: Vec<([u8; 16], [f32; 4])> = bincode::deserialize(&m.data[1..]).unwrap();
    assert_eq!(entries, vec![(normalize_player_id("dave"), [0.1, 0.2, 0.3, 0.4])]);

    let m = MessageOut::tick_sync_message(60);
    let tick: u16 = bincode::deserialize(&m.data[1..]).unwrap();
    assert_eq!(tick, 60);
}

#[test]
fn event_header_wraps_message() {
    let m = MessageOut::tick_sync_message(1);
    assert_eq!(m.get_with_event_header(vec![7, 7]), vec![1, 7, 7, 0, 11, 1, 0]);
}
