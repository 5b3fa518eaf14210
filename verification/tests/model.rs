use qmpp::map::{Edict, Entity, QuakeMap};
use qmpp::patch::{EdictPatch, EntityPatcher, Patch, QuakeMapPatcher};
use qmpp::{native_to_wasm_size, wasm_to_native_size};
use qmpp::HostFault;
use qmpp::LowApiCode;

fn pair(key: &str, value: &str) -> (Vec<u8>, Vec<u8>) {
    (key.as_bytes().to_vec(), value.as_bytes().to_vec())
}

#[test]
fn status_codes_keep_their_pinned_wire_values() {
    let codes = [
        (LowApiCode::Success, 0),
        (LowApiCode::KeyLookupError, 1),
        (LowApiCode::EntityLookupError, 2),
        (LowApiCode::BrushLookupError, 3),
        (LowApiCode::SurfaceLookupError, 4),
        (LowApiCode::EntityTypeError, 5),
        (LowApiCode::NoAxesError, 6),
    ];
    for (code, wire) in codes {
        assert_eq!(code.to_native(), wire);
        assert_eq!(LowApiCode::from_native(wire), Some(code));
    }
    assert_eq!(LowApiCode::from_native(7), None);
    assert_eq!(LowApiCode::from_native(u32::MAX), None);
}

#[test]
fn wire_size_conversions() {
    assert_eq!(wasm_to_native_size(16), 16);
    assert_eq!(wasm_to_native_size(-1), u32::MAX as usize);
    assert_eq!(native_to_wasm_size(16), Ok(16));
    let wrapped = native_to_wasm_size(u32::MAX as usize).unwrap();
    assert_eq!(wrapped as u32, u32::MAX);
    if usize::BITS > 32 {
        assert_eq!(
            native_to_wasm_size(u32::MAX as usize + 1),
            Err(HostFault::PayloadTooLarge)
        );
    }
}

#[test]
fn edict_get_scans_in_insertion_order() {
    let edict = Edict {
        entries: vec![pair("classname", "worldspawn"), pair("message", "Test Map")],
    };
    assert_eq!(edict.get(&b"message".to_vec()), Some(&b"Test Map".to_vec()));
    assert_eq!(edict.get(&b"absent".to_vec()), None);
}

#[test]
fn edict_patch_get_defaults_to_leave() {
    let patch = EdictPatch { entries: Vec::new() };
    assert!(matches!(patch.get(&b"anything".to_vec()), Patch::Leave));
}

#[test]
fn edict_patch_set_stores_and_overwrites() {
    let mut patch = EdictPatch { entries: Vec::new() };
    patch.set(&b"message".to_vec(), Patch::Modify(b"first".to_vec()));
    patch.set(&b"wad".to_vec(), Patch::Delete);
    patch.set(&b"message".to_vec(), Patch::Modify(b"second".to_vec()));

    match patch.get(&b"message".to_vec()) {
        Patch::Modify(value) => assert_eq!(value, b"second".to_vec()),
        _ => panic!("expected a modify patch"),
    }
    assert!(matches!(patch.get(&b"wad".to_vec()), Patch::Delete));
    assert!(matches!(patch.get(&b"classname".to_vec()), Patch::Leave));
}

#[test]
fn entity_patcher_rewrites_one_edict() {
    let edict = Edict {
        entries: vec![
            pair("classname", "worldspawn"),
            pair("message", "Test Map"),
            pair("wad", "base.wad"),
        ],
    };
    let mut patcher = EntityPatcher::new();
    patcher.edict_patch.set(&b"message".to_vec(), Patch::Modify(b"Renamed".to_vec()));
    patcher.edict_patch.set(&b"wad".to_vec(), Patch::Delete);

    let patched = patcher.apply(&edict);
    assert_eq!(
        patched.entries,
        vec![pair("classname", "worldspawn"), pair("message", "Renamed")]
    );
}

#[test]
fn map_patcher_leaves_everything_by_default() {
    let map = QuakeMap {
        entities: vec![
            Entity::Point(Edict { entries: vec![pair("classname", "light")] }),
            Entity::Point(Edict { entries: vec![pair("classname", "info_player_start")] }),
        ],
    };
    let patcher = QuakeMapPatcher::new(map);
    let patched = patcher.patch();
    assert_eq!(patched.entities.len(), 2);
    match &patched.entities[0] {
        Entity::Point(edict) => {
            assert_eq!(edict.entries, vec![pair("classname", "light")]);
        },
        _ => panic!("expected a point entity"),
    }
}

#[test]
fn map_patcher_applies_per_entity_edits() {
    let map = QuakeMap {
        entities: vec![
            Entity::Point(Edict {
                entries: vec![pair("classname", "light"), pair("light", "200")],
            }),
            Entity::Point(Edict { entries: vec![pair("classname", "light")] }),
        ],
    };
    let mut patcher = QuakeMapPatcher::new(map);
    patcher.entity_patches[0]
        .edict_patch
        .set(&b"light".to_vec(), Patch::Modify(b"450".to_vec()));

    let patched = patcher.patch();
    match &patched.entities[0] {
        Entity::Point(edict) => {
            assert_eq!(
                edict.entries,
                vec![pair("classname", "light"), pair("light", "450")]
            );
        },
        _ => panic!("expected a point entity"),
    }
    match &patched.entities[1] {
        Entity::Point(edict) => {
            assert_eq!(edict.entries, vec![pair("classname", "light")]);
        },
        _ => panic!("expected a point entity"),
    }
}
