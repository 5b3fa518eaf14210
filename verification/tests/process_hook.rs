use qmpp::abi::{self, ProcessEnv};
use qmpp::guest;
use qmpp::handles::entity_handles;
use qmpp::hooks::{dispatch_process, ImportCall};
use qmpp::map::{Alignment, BaseAlignment, Brush, Edict, Entity, HalfSpace, QuakeMap, Surface, TextureAxes, Vec3};
use qmpp::GuestMem;
use qmpp::HostFault;
use qmpp::LowApiCode;

fn pair(key: &str, value: &str) -> (Vec<u8>, Vec<u8>) {
    (key.as_bytes().to_vec(), value.as_bytes().to_vec())
}

fn vec3(x: f64, y: f64, z: f64) -> Vec3 {
    Vec3 { x: x.to_bits(), y: y.to_bits(), z: z.to_bits() }
}

fn sample_half_space() -> HalfSpace {
    HalfSpace {
        p0: vec3(-16.0, -16.0, -24.0),
        p1: vec3(-16.0, -15.0, -24.0),
        p2: vec3(-15.0, -16.0, -24.0),
    }
}

fn sample_base() -> BaseAlignment {
    BaseAlignment {
        offset_x: (8.0f64).to_bits(),
        offset_y: (-4.5f64).to_bits(),
        rotation: (90.0f64).to_bits(),
        scale_x: (1.0f64).to_bits(),
        scale_y: (2.0f64).to_bits(),
    }
}

fn sample_axes() -> TextureAxes {
    TextureAxes { u: vec3(1.0, 0.0, 0.0), v: vec3(0.0, -1.0, 0.0) }
}

fn surface(texture: &str, alignment: Alignment) -> Surface {
    Surface { texture: texture.as_bytes().to_vec(), half_space: sample_half_space(), alignment }
}

fn standard_surface(texture: &str) -> Surface {
    surface(texture, Alignment::Standard(sample_base()))
}

fn brush(surfaces: Vec<Surface>) -> Brush {
    Brush { surfaces }
}

/// Worldspawn with three keys, one brush entity with 2 brushes of 3 and 4
/// surfaces, two point entities, then a `func_button` with one Valve220
/// surface at handle 5 and a Standard twin at handle 6.
fn fixture_map() -> QuakeMap {
    let worldspawn = Entity::Brush(
        Edict {
            entries: vec![
                pair("classname", "worldspawn"),
                pair("message", "Test Map"),
                pair("wad", "base.wad"),
            ],
        },
        vec![
            brush(vec![
                standard_surface("STONE1"),
                standard_surface("STONE2"),
                standard_surface("STONE3"),
            ]),
            brush(vec![
                standard_surface("METAL1"),
                standard_surface("METAL2"),
                standard_surface("METAL3"),
                standard_surface("METAL4"),
            ]),
        ],
    );
    let light_a = Entity::Point(Edict {
        entries: vec![pair("classname", "light"), pair("light", "200")],
    });
    let light_b = Entity::Point(Edict {
        entries: vec![pair("classname", "light"), pair("light", "300")],
    });
    let info = Entity::Point(Edict { entries: vec![pair("classname", "info_player_start")] });
    let trigger = Entity::Point(Edict { entries: vec![pair("classname", "trigger_once")] });
    let button_valve = Entity::Brush(
        Edict { entries: vec![pair("classname", "func_button")] },
        vec![brush(vec![surface(
            "BUTTON1",
            Alignment::Valve220(sample_base(), sample_axes()),
        )])],
    );
    let button_standard = Entity::Brush(
        Edict { entries: vec![pair("classname", "func_button")] },
        vec![brush(vec![standard_surface("BUTTON1")])],
    );
    QuakeMap {
        entities: vec![worldspawn, light_a, light_b, info, trigger, button_valve, button_standard],
    }
}

fn fresh() -> (ProcessEnv, GuestMem) {
    (ProcessEnv::new(fixture_map(), b"hello".to_vec()), GuestMem::new(0))
}

#[test]
fn keyvalue_round_trip_reads_the_stored_value() {
    let (mut env, mut mem) = fresh();
    let value = guest::read_keyvalue(&mut env, &mut mem, 0, &b"message".to_vec()).unwrap();
    assert_eq!(value, b"Test Map".to_vec());
}

#[test]
fn keyvalue_missing_key_is_a_status() {
    let (mut env, mut mem) = fresh();
    let r = guest::read_keyvalue(&mut env, &mut mem, 0, &b"absent".to_vec());
    assert_eq!(r, Err(LowApiCode::KeyLookupError));
}

#[test]
fn keyvalue_bad_entity_is_a_status() {
    let (mut env, mut mem) = fresh();
    let r = guest::read_keyvalue(&mut env, &mut mem, 99, &b"message".to_vec());
    assert_eq!(r, Err(LowApiCode::EntityLookupError));
}

#[test]
fn surface_counts_sum_to_seven() {
    // Three entities: entity 0 bears 2 brushes of 3 and 4 surfaces, the
    // others are points.
    let map = QuakeMap {
        entities: vec![
            Entity::Brush(
                Edict { entries: vec![pair("classname", "worldspawn")] },
                vec![
                    brush(vec![
                        standard_surface("STONE1"),
                        standard_surface("STONE2"),
                        standard_surface("STONE3"),
                    ]),
                    brush(vec![
                        standard_surface("METAL1"),
                        standard_surface("METAL2"),
                        standard_surface("METAL3"),
                        standard_surface("METAL4"),
                    ]),
                ],
            ),
            Entity::Point(Edict { entries: vec![pair("classname", "light")] }),
            Entity::Point(Edict { entries: vec![pair("classname", "light")] }),
        ],
    };
    let env = ProcessEnv::new(map, b"hello".to_vec());
    let mut mem = GuestMem::new(0);
    let entities = guest::ehandle_count(&env);
    assert_eq!(entities, 3);

    let mut total = 0;
    for ehandle in 0..entities {
        let brushes = guest::bhandle_count(&env, &mut mem, ehandle).unwrap();
        if ehandle == 1 || ehandle == 2 {
            assert_eq!(brushes, 0);
        }
        for brush_idx in 0..brushes {
            total += guest::shandle_count(&env, &mut mem, ehandle, brush_idx).unwrap();
        }
    }
    assert_eq!(total, 7);
}

#[test]
fn brush_count_is_zero_exactly_for_point_entities() {
    let (mut env, mut mem) = fresh();
    let point_handles = [1u32, 2, 3, 4];
    let brush_handles = [0u32, 5, 6];
    for ehandle in point_handles {
        assert_eq!(guest::bhandle_count(&env, &mut mem, ehandle).unwrap(), 0);
    }
    for ehandle in brush_handles {
        assert!(guest::bhandle_count(&env, &mut mem, ehandle).unwrap() > 0);
    }
}

#[test]
fn keys_come_back_in_insertion_order() {
    let (mut env, mut mem) = fresh();
    let keys = guest::read_keys(&mut env, &mut mem, 0).unwrap();
    assert_eq!(
        keys,
        vec![b"classname".to_vec(), b"message".to_vec(), b"wad".to_vec()]
    );
}

#[test]
fn keys_then_keyvalue_visits_every_pair() {
    let (mut env, mut mem) = fresh();
    let keys = guest::read_keys(&mut env, &mut mem, 0).unwrap();
    let mut pairs = Vec::new();
    for key in keys {
        let value = guest::read_keyvalue(&mut env, &mut mem, 0, &key).unwrap();
        pairs.push((key, value));
    }
    assert_eq!(
        pairs,
        vec![
            pair("classname", "worldspawn"),
            pair("message", "Test Map"),
            pair("wad", "base.wad"),
        ]
    );
}

#[test]
fn keys_of_an_empty_edict_are_empty() {
    let map = QuakeMap { entities: vec![Entity::Point(Edict { entries: Vec::new() })] };
    let mut env = ProcessEnv::new(map, b"hello".to_vec());
    let mut mem = GuestMem::new(0);
    let keys = guest::read_keys(&mut env, &mut mem, 0).unwrap();
    assert!(keys.is_empty());
}

#[test]
fn keys_size_is_the_sum_of_key_sizes() {
    let (mut env, mut mem) = fresh();
    let size_ptr = mem.reserve_bytes(4);
    let status = abi::keys_init_read(&mut env, &mut mem, 0, size_ptr).unwrap();
    assert_eq!(status, LowApiCode::Success);
    let size_bytes = mem.read_bytes(size_ptr, 4);
    let size = u32::from_le_bytes(size_bytes.try_into().unwrap());
    // "classname" + NUL, "message" + NUL, "wad" + NUL.
    assert_eq!(size, (9 + 1) + (7 + 1) + (3 + 1));
}

#[test]
fn texture_round_trip_reads_the_name() {
    let (mut env, mut mem) = fresh();
    let texture = guest::read_texture(&mut env, &mut mem, 5, 0, 0).unwrap();
    assert_eq!(texture, b"BUTTON1".to_vec());
}

#[test]
fn texture_init_then_read_writes_name_and_terminator() {
    let (mut env, mut mem) = fresh();
    let size_ptr = mem.reserve_bytes(4);
    let status = abi::texture_init_read(&mut env, &mut mem, 5, 0, 0, size_ptr).unwrap();
    assert_eq!(status, LowApiCode::Success);
    let size_bytes = mem.read_bytes(size_ptr, 4);
    let size = u32::from_le_bytes(size_bytes.try_into().unwrap());
    assert_eq!(size, 8);
    let texture_ptr = mem.reserve_bytes(size);
    abi::texture_read(&mut env, &mut mem, texture_ptr).unwrap();
    assert_eq!(mem.read_bytes(texture_ptr, 8), b"BUTTON1\0".to_vec());
}

#[test]
fn second_init_read_without_read_is_fatal() {
    let (mut env, mut mem) = fresh();
    let size_ptr = mem.reserve_bytes(4);
    let first = abi::texture_init_read(&mut env, &mut mem, 5, 0, 0, size_ptr);
    assert_eq!(first, Ok(LowApiCode::Success));
    let second = abi::texture_init_read(&mut env, &mut mem, 5, 0, 0, size_ptr);
    assert_eq!(second, Err(HostFault::TransactionOpen));
}

#[test]
fn read_without_init_read_is_fatal() {
    let (mut env, mut mem) = fresh();
    let ptr = mem.reserve_bytes(16);
    assert_eq!(abi::texture_read(&mut env, &mut mem, ptr), Err(HostFault::TransactionClosed));
    assert_eq!(abi::keyvalue_read(&mut env, &mut mem, ptr), Err(HostFault::TransactionClosed));
    assert_eq!(abi::keys_read(&mut env, &mut mem, ptr), Err(HostFault::TransactionClosed));
}

#[test]
fn half_space_payload_is_bit_identical() {
    let (mut env, mut mem) = fresh();
    let ptr = mem.reserve_bytes(72);
    let status = abi::half_space_read(&env, &mut mem, 0, 0, 0, ptr).unwrap();
    assert_eq!(status, LowApiCode::Success);
    let bytes = mem.read_bytes(ptr, 72);
    let source = [-16.0f64, -16.0, -24.0, -16.0, -15.0, -24.0, -15.0, -16.0, -24.0];
    for (k, expected) in source.iter().enumerate() {
        let chunk: [u8; 8] = bytes[8 * k..8 * k + 8].try_into().unwrap();
        let decoded = f64::from_le_bytes(chunk);
        assert_eq!(decoded.to_bits(), expected.to_bits());
    }
}

#[test]
fn half_space_reads_back_the_source_points() {
    let (env, mut mem) = (ProcessEnv::new(fixture_map(), b"hello".to_vec()), GuestMem::new(0));
    let half_space = guest::read_half_space(&env, &mut mem, 0, 1, 3).unwrap();
    assert_eq!(half_space, sample_half_space());
}

#[test]
fn alignment_valve220_is_bit_identical() {
    let (env, mut mem) = (ProcessEnv::new(fixture_map(), b"hello".to_vec()), GuestMem::new(0));
    let alignment = guest::read_alignment(&env, &mut mem, 5, 0, 0).unwrap();
    assert_eq!(alignment, Alignment::Valve220(sample_base(), sample_axes()));
}

#[test]
fn alignment_standard_has_no_axes() {
    let (env, mut mem) = (ProcessEnv::new(fixture_map(), b"hello".to_vec()), GuestMem::new(0));
    let alignment = guest::read_alignment(&env, &mut mem, 6, 0, 0).unwrap();
    assert_eq!(alignment, Alignment::Standard(sample_base()));
}

#[test]
fn axes_read_status_tracks_the_alignment_kind() {
    let (env, mut mem) = (ProcessEnv::new(fixture_map(), b"hello".to_vec()), GuestMem::new(0));
    let ptr = mem.reserve_bytes(48);

    let on_standard = abi::texture_axes_read(&env, &mut mem, 6, 0, 0, ptr).unwrap();
    assert_eq!(on_standard, LowApiCode::NoAxesError);

    let on_valve = abi::texture_axes_read(&env, &mut mem, 5, 0, 0, ptr).unwrap();
    assert_eq!(on_valve, LowApiCode::Success);
    let bytes = mem.read_bytes(ptr, 48);
    let expected = [1.0f64, 0.0, 0.0, 0.0, -1.0, 0.0];
    for (k, coordinate) in expected.iter().enumerate() {
        let chunk: [u8; 8] = bytes[8 * k..8 * k + 8].try_into().unwrap();
        assert_eq!(f64::from_le_bytes(chunk).to_bits(), coordinate.to_bits());
    }
}

#[test]
fn alignment_is_valve_flag() {
    let (env, _) = fresh();
    assert_eq!(abi::texture_alignment_is_valve(&env, 5, 0, 0), Ok(1));
    assert_eq!(abi::texture_alignment_is_valve(&env, 6, 0, 0), Ok(0));
    assert_eq!(
        abi::texture_alignment_is_valve(&env, 1, 0, 0),
        Err(HostFault::LookupFailure(LowApiCode::EntityTypeError))
    );
}

#[test]
fn lookup_errors_follow_the_tie_break_order() {
    let (mut env, mut mem) = fresh();
    assert_eq!(
        guest::read_texture(&mut env, &mut mem, 99, 0, 0),
        Err(LowApiCode::EntityLookupError)
    );
    assert_eq!(
        guest::read_texture(&mut env, &mut mem, 1, 0, 0),
        Err(LowApiCode::EntityTypeError)
    );
    assert_eq!(
        guest::read_texture(&mut env, &mut mem, 0, 9, 0),
        Err(LowApiCode::BrushLookupError)
    );
    assert_eq!(
        guest::read_texture(&mut env, &mut mem, 0, 0, 9),
        Err(LowApiCode::SurfaceLookupError)
    );
}

#[test]
fn exists_predicates_match_the_fixture() {
    let (env, _) = fresh();
    assert_eq!(abi::entity_exists(&env, 0), Ok(1));
    assert_eq!(abi::entity_exists(&env, 6), Ok(1));
    assert_eq!(abi::entity_exists(&env, 7), Ok(0));
    assert_eq!(abi::brush_exists(&env, 0, 1), Ok(1));
    assert_eq!(abi::brush_exists(&env, 0, 2), Ok(0));
    assert_eq!(abi::brush_exists(&env, 1, 0), Ok(0));
    assert_eq!(abi::surface_exists(&env, 0, 1, 3), Ok(1));
    assert_eq!(abi::surface_exists(&env, 0, 1, 4), Ok(0));
}

#[test]
fn out_of_bounds_out_pointer_is_fatal() {
    let (env, mut mem) = fresh();
    let r = abi::bhandle_count(&env, &mut mem, 0, 1_000_000);
    assert_eq!(r, Err(HostFault::OutOfBounds));
}

#[test]
fn process_hook_refuses_register() {
    let (mut env, mut mem) = fresh();
    let r = dispatch_process(&mut env, &mut mem, ImportCall::Register { name_len: 0, name_ptr: 0 });
    assert_eq!(r, Err(HostFault::NotInContext));
}

#[test]
fn process_hook_log_lines_are_framed() {
    let (mut env, mut mem) = fresh();
    let line = guest::log_info(&env, &mut mem, &b"processing".to_vec()).unwrap();
    assert_eq!(line, b"hello\tINFO\tprocessing\n".to_vec());
    let line = guest::log_error(&env, &mut mem, &b"bad surface".to_vec()).unwrap();
    assert_eq!(line, b"hello\tERROR\tbad surface\n".to_vec());
}

#[test]
fn log_rejects_invalid_utf8() {
    let (env, mut mem) = fresh();
    let r = guest::log_info(&env, &mut mem, &vec![0xC0, 0x80]);
    assert_eq!(r, Err(HostFault::InvalidText));
}

#[test]
fn entity_handles_cover_the_map_in_order() {
    let (env, _) = fresh();
    let handles = entity_handles(&env);
    assert_eq!(handles.len(), 7);
    for (i, handle) in handles.iter().enumerate() {
        assert_eq!(handle.index(), i as u32);
    }
}

#[test]
fn dispatch_drives_the_two_phase_keyvalue_protocol() {
    let (mut env, mut mem) = fresh();
    let key_ptr = mem.reserve_bytes(8);
    mem.write_bytes(key_ptr, &b"message\0".to_vec());
    let size_ptr = mem.reserve_bytes(4);

    let r = dispatch_process(
        &mut env,
        &mut mem,
        ImportCall::KeyvalueInitRead { ehandle: 0, key_ptr, size_ptr },
    );
    assert_eq!(r, Ok(qmpp::hooks::ImportResult::Status(LowApiCode::Success)));

    let size_bytes = mem.read_bytes(size_ptr, 4);
    let size = u32::from_le_bytes(size_bytes.try_into().unwrap());
    assert_eq!(size, 9);

    let val_ptr = mem.reserve_bytes(size);
    let r = dispatch_process(&mut env, &mut mem, ImportCall::KeyvalueRead { val_ptr });
    assert_eq!(r, Ok(qmpp::hooks::ImportResult::Unit));
    assert_eq!(mem.read_bytes(val_ptr, size), b"Test Map\0".to_vec());
}

#[test]
fn unterminated_key_pointer_is_fatal() {
    let (mut env, mut mem) = fresh();
    let key_ptr = mem.reserve_bytes(4);
    mem.write_bytes(key_ptr, &vec![65, 66, 67, 68]);
    let size_ptr = key_ptr;
    let r = abi::keyvalue_init_read(&mut env, &mut mem, 0, key_ptr, size_ptr);
    assert_eq!(r, Err(HostFault::OutOfBounds));
}
