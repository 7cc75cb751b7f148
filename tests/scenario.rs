use scn::{
    ByteReader, EmpiresDb, MapTile, PlayerResources, PlayerUnit, Scenario, ScenarioHeader,
    ScnError, INSTRUCTIONS_LIMIT,
};
use std::io::Write;

fn put_u32(out: &mut Vec<u8>, v: u32) {
    out.extend_from_slice(&v.to_le_bytes());
}

fn header_bytes(version: &[u8], instructions_len: u32, instructions: &[u8]) -> Vec<u8> {
    let mut out = Vec::new();
    out.extend_from_slice(version);
    put_u32(&mut out, 1234);
    out.extend_from_slice(&(-2i32).to_le_bytes());
    put_u32(&mut out, 99);
    put_u32(&mut out, instructions_len);
    out.extend_from_slice(instructions);
    put_u32(&mut out, 0);
    put_u32(&mut out, 1);
    out
}

fn unit_bytes(out: &mut Vec<u8>, u: &PlayerUnit) {
    put_u32(out, u.position_x_bits);
    put_u32(out, u.position_y_bits);
    put_u32(out, u.position_z_bits);
    put_u32(out, u.spawn_id);
    out.extend_from_slice(&u.unit_id.to_le_bytes());
    out.push(u.state);
    put_u32(out, u.rotation_bits);
}

fn unit(n: u32) -> PlayerUnit {
    PlayerUnit {
        position_x_bits: 1.5f32.to_bits() + n,
        position_y_bits: 2.5f32.to_bits(),
        position_z_bits: 0,
        spawn_id: 10 + n,
        unit_id: 83 + n as u16,
        state: 2,
        rotation_bits: 0.75f32.to_bits(),
    }
}

/// A body with one player slot of civilization 3, an empty map, one resource
/// record and one unit list per entry of `groups`.
fn body_bytes(groups: &[Vec<PlayerUnit>]) -> Vec<u8> {
    let mut out = Vec::new();
    put_u32(&mut out, 0);
    put_u32(&mut out, 1);
    for v in [1u32, 0, 3, 0] {
        put_u32(&mut out, v);
    }
    put_u32(&mut out, 0);
    put_u32(&mut out, 0);
    put_u32(&mut out, groups.len() as u32);
    put_u32(&mut out, 1);
    for v in [200.0f32, 150.0, 100.0, 50.0] {
        put_u32(&mut out, v.to_bits());
    }
    for g in groups {
        put_u32(&mut out, g.len() as u32);
        for u in g {
            unit_bytes(&mut out, u);
        }
    }
    out
}

fn deflate(bytes: &[u8]) -> Vec<u8> {
    let mut enc = flate2::write::DeflateEncoder::new(Vec::new(), flate2::Compression::default());
    enc.write_all(bytes).unwrap();
    enc.finish().unwrap()
}

fn file_bytes(groups: &[Vec<PlayerUnit>]) -> Vec<u8> {
    let mut out = header_bytes(b"1.11", 0, b"");
    out.extend_from_slice(&deflate(&body_bytes(groups)));
    out
}

fn read_header(bytes: &[u8]) -> (Result<ScenarioHeader, ScnError>, usize) {
    let mut r = ByteReader::new(bytes);
    let h = ScenarioHeader::read_from_stream(&mut r);
    (h, r.position())
}

#[test]
fn minimal_file_has_one_empty_unit_list() {
    let s = Scenario::read_from_stream(&file_bytes(&[vec![]])).unwrap();
    assert_eq!(s.player_ids(), vec![0]);
    assert!(s.player_units(0).is_empty());
    assert_eq!(s.player_civilization_id(0), 3);
    assert_eq!(
        *s.player_resources(0),
        PlayerResources {
            food_bits: 200.0f32.to_bits(),
            wood_bits: 150.0f32.to_bits(),
            gold_bits: 100.0f32.to_bits(),
            stone_bits: 50.0f32.to_bits(),
        }
    );
    assert_eq!(s.map.width, 0);
    assert_eq!(s.map.height, 0);
    assert!(s.map.rows.is_empty());
}

#[test]
fn two_units_come_back_in_read_order() {
    let s = Scenario::read_from_stream(&file_bytes(&[vec![unit(1), unit(2)]])).unwrap();
    assert_eq!(s.player_ids(), vec![0]);
    assert_eq!(*s.player_units(0), vec![unit(1), unit(2)]);
}

#[test]
fn unit_list_count_matches_declared_count() {
    let groups = vec![vec![unit(1)], vec![], vec![unit(2), unit(3), unit(4)]];
    let s = Scenario::read_from_stream(&file_bytes(&groups)).unwrap();
    assert_eq!(s.player_ids(), vec![0, 1, 2]);
    for (i, g) in groups.iter().enumerate() {
        assert_eq!(s.player_units(i), g);
    }
}

#[test]
fn decoding_twice_gives_equal_results() {
    let bytes = file_bytes(&[vec![unit(7)], vec![unit(8)]]);
    let a = Scenario::read_from_stream(&bytes).unwrap();
    let b = Scenario::read_from_stream(&bytes).unwrap();
    assert_eq!(format!("{:?}", a), format!("{:?}", b));
}

#[test]
fn wrong_version_is_rejected_after_four_bytes() {
    for version in [b"1.10", b"1.12", b"2.00", b"1.1\0"] {
        let bytes = header_bytes(version, 0, b"");
        let (h, pos) = read_header(&bytes);
        assert_eq!(h.unwrap_err(), ScnError::UnrecognizedVersion);
        assert_eq!(pos, 4);
        let mut file = bytes.clone();
        file.extend_from_slice(&deflate(&body_bytes(&[vec![]])));
        assert_eq!(Scenario::read_from_stream(&file).unwrap_err(), ScnError::UnrecognizedVersion);
    }
}

#[test]
fn instructions_over_limit_are_refused_before_the_text() {
    // Only the fixed fields are present: the text itself is never asked for.
    let mut bytes = header_bytes(b"1.11", INSTRUCTIONS_LIMIT + 1, b"");
    bytes.truncate(20);
    let (h, pos) = read_header(&bytes);
    assert_eq!(h.unwrap_err(), ScnError::InstructionsTooLarge);
    assert_eq!(pos, 20);
    let bytes = header_bytes(b"1.11", u32::MAX, b"");
    assert_eq!(Scenario::read_from_stream(&bytes).unwrap_err(), ScnError::InstructionsTooLarge);
}

#[test]
fn instructions_limit_is_inclusive() {
    assert_eq!(INSTRUCTIONS_LIMIT, 524288);
    let text = vec![b'a'; 524288];
    let bytes = header_bytes(b"1.11", 524288, &text);
    let (h, pos) = read_header(&bytes);
    let h = h.unwrap();
    assert_eq!(h.instructions.len(), 524288);
    assert_eq!(pos, bytes.len());

    let text = vec![b'a'; 524289];
    let bytes = header_bytes(b"1.11", 524289, &text);
    let (h, pos) = read_header(&bytes);
    assert_eq!(h.unwrap_err(), ScnError::InstructionsTooLarge);
    assert_eq!(pos, 20);
}

#[test]
fn header_fields_are_read_in_order() {
    let bytes = header_bytes(b"1.11", 8, b"Go west\0");
    let (h, pos) = read_header(&bytes);
    let h = h.unwrap();
    assert_eq!(h.version, b"1.11".to_vec());
    assert_eq!(h.length, 1234);
    assert_eq!(h.save_type, -2);
    assert_eq!(h.last_save_time, 99);
    assert_eq!(h.instructions, b"Go west".to_vec());
    assert_eq!(h.victory_type, 0);
    assert_eq!(h.player_count, 1);
    assert_eq!(pos, 36);
}

#[test]
fn truncated_header_is_end_of_stream() {
    let bytes = header_bytes(b"1.11", 5, b"hello");
    for cut in 0..bytes.len() {
        let (h, _) = read_header(&bytes[..cut]);
        assert_eq!(h.unwrap_err(), ScnError::UnexpectedEndOfStream, "cut at {}", cut);
        assert_eq!(
            Scenario::read_from_stream(&bytes[..cut]).unwrap_err(),
            ScnError::UnexpectedEndOfStream
        );
    }
}

#[test]
fn corrupt_body_is_decompression_failure() {
    let mut bytes = header_bytes(b"1.11", 0, b"");
    bytes.extend_from_slice(&[0xff, 0xff, 0xff, 0xff]);
    assert_eq!(Scenario::read_from_stream(&bytes).unwrap_err(), ScnError::DecompressionFailure);
    let bytes = header_bytes(b"1.11", 0, b"");
    assert_eq!(Scenario::read_from_stream(&bytes).unwrap_err(), ScnError::DecompressionFailure);
}

#[test]
fn uncompressed_body_is_not_taken_as_is() {
    let mut bytes = header_bytes(b"1.11", 0, b"");
    bytes.extend_from_slice(&body_bytes(&[vec![]]));
    assert!(Scenario::read_from_stream(&bytes).is_err());
}

#[test]
fn truncated_body_is_end_of_stream() {
    let body = body_bytes(&[vec![unit(1), unit(2)]]);
    for cut in 0..body.len() {
        let (h, _) = read_header(&header_bytes(b"1.11", 0, b""));
        let mut file = header_bytes(b"1.11", 0, b"");
        file.extend_from_slice(&deflate(&body[..cut]));
        assert_eq!(
            Scenario::read_body(h.unwrap(), &body[..cut]).unwrap_err(),
            ScnError::UnexpectedEndOfStream
        );
        assert_eq!(Scenario::read_from_stream(&file).unwrap_err(), ScnError::UnexpectedEndOfStream);
    }
}

#[test]
fn body_is_read_with_a_given_header() {
    let (h, _) = read_header(&header_bytes(b"1.11", 0, b""));
    let s = Scenario::read_body(h.unwrap(), &body_bytes(&[vec![unit(5)], vec![]])).unwrap();
    assert_eq!(s.player_ids(), vec![0, 1]);
    assert_eq!(*s.player_units(0), vec![unit(5)]);
    assert!(s.player_units(1).is_empty());
}

#[test]
fn map_rows_hold_width_tiles_each() {
    let mut body = Vec::new();
    put_u32(&mut body, 0);
    put_u32(&mut body, 0);
    put_u32(&mut body, 2);
    put_u32(&mut body, 3);
    for t in 0..6u8 {
        body.extend_from_slice(&[t, 10 + t, 0xee]);
    }
    put_u32(&mut body, 0);
    put_u32(&mut body, 0);
    let (h, _) = read_header(&header_bytes(b"1.11", 0, b""));
    let s = Scenario::read_body(h.unwrap(), &body).unwrap();
    assert_eq!(s.map.width, 2);
    assert_eq!(s.map.height, 3);
    assert_eq!(s.map.rows.len(), 3);
    assert_eq!(s.map.rows[1], vec![MapTile { terrain_id: 2, elevation: 12 }, MapTile { terrain_id: 3, elevation: 13 }]);
    assert!(s.player_ids().is_empty());
    assert!(s.player_data.player_civs.is_empty());
}

#[test]
fn integers_are_little_endian() {
    let bytes = [0x01, 0x02, 0x03, 0x04, 0xfe, 0xff, 0xff, 0xff, 0x34, 0x12, 0x7f];
    let mut r = ByteReader::new(&bytes);
    assert_eq!(r.read_u32(), Ok(0x0403_0201));
    assert_eq!(r.read_i32(), Ok(-2));
    assert_eq!(r.read_u16(), Ok(0x1234));
    assert_eq!(r.read_u8(), Ok(0x7f));
    assert_eq!(r.read_u8(), Err(ScnError::UnexpectedEndOfStream));
    let mut r = ByteReader::new(&[0x00, 0x00, 0x00, 0x80]);
    assert_eq!(r.read_i32(), Ok(i32::MIN));
}

#[test]
fn sized_text_stops_at_first_zero() {
    let mut r = ByteReader::new(b"ab\0cd\0efg");
    assert_eq!(r.read_sized_str(6), Ok(b"ab".to_vec()));
    assert_eq!(r.position(), 6);
    assert_eq!(r.read_sized_str(3), Ok(b"efg".to_vec()));
    assert_eq!(r.read_sized_str(1), Err(ScnError::UnexpectedEndOfStream));
}

fn color_bytes(out: &mut Vec<u8>, name: &[u8], id: u16, palette: u8) {
    let mut field = [0u8; 30];
    field[..name.len()].copy_from_slice(name);
    out.extend_from_slice(&field);
    out.extend_from_slice(&id.to_le_bytes());
    out.extend_from_slice(&[0xaa, 0xbb, palette, 0xcc]);
}

#[test]
fn player_colors_are_appended_in_order() {
    let mut bytes = vec![2, 0];
    color_bytes(&mut bytes, b"Blue", 1, 16);
    color_bytes(&mut bytes, b"Red", 2, 24);
    let mut db = EmpiresDb::new();
    let mut r = ByteReader::new(&bytes);
    assert_eq!(db.read_player_colors(&mut r), Ok(()));
    assert_eq!(r.position(), bytes.len());
    assert_eq!(db.player_colors.len(), 2);
    assert_eq!(db.player_colors[0].name, b"Blue".to_vec());
    assert_eq!(db.player_colors[0].id, 1);
    assert_eq!(db.player_colors[0].palette_index, 16);
    assert_eq!(db.player_colors[1].name, b"Red".to_vec());
    assert_eq!(db.player_colors[1].id, 2);
    assert_eq!(db.player_colors[1].palette_index, 24);
}

#[test]
fn truncated_player_colors_fail() {
    let mut bytes = vec![2, 0];
    color_bytes(&mut bytes, b"Blue", 1, 16);
    let mut db = EmpiresDb::new();
    let mut r = ByteReader::new(&bytes);
    assert_eq!(db.read_player_colors(&mut r), Err(ScnError::UnexpectedEndOfStream));
    assert_eq!(db.player_colors.len(), 1);
}
