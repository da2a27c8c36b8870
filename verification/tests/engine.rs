use state_migrations::codec::{decode, encode, DecodeError};
use state_migrations::key::Key;
use state_migrations::ops::{DBUpdateVisitor, DbChanges, DbUpdateType, MigrationError,
    UpdateStatus};
use state_migrations::pattern::Pattern;
use state_migrations::registry::{decode_render, DecoderKind, TypeDecoderRegistry};
use state_migrations::store::VecStore;
use state_migrations::value::UpdateValue;
use state_migrations::vm_layout::{matchmaker_input_layout, required_pages, tx_input_layout,
    vp_input_layout};

fn hash_a() -> Vec<u8> {
    vec![0xAAu8; 32]
}

fn hash_b() -> Vec<u8> {
    vec![0xBBu8; 32]
}

fn u64_le(x: u64) -> Vec<u8> {
    let mut v = Vec::new();
    let mut n = x;
    for _ in 0..8 {
        v.push((n % 256) as u8);
        n /= 256;
    }
    v
}

fn length_prefixed(body: &[u8]) -> Vec<u8> {
    let mut v = Vec::new();
    let n = body.len() as u32;
    v.push((n % 256) as u8);
    v.push(((n / 256) % 256) as u8);
    v.push(((n / 65536) % 256) as u8);
    v.push(((n / 16777216) % 256) as u8);
    v.extend_from_slice(body);
    v
}

fn registry_with_u64() -> TypeDecoderRegistry {
    let mut reg = TypeDecoderRegistry::new();
    reg.register(hash_a(), DecoderKind::U64);
    reg
}

#[test]
fn wire_round_trip_serialized() {
    let v = UpdateValue::serialized(hash_a(), u64_le(7));
    let text = encode(&v);
    let back = decode(text.as_str()).unwrap();
    assert_eq!(back, v);
}

#[test]
fn wire_round_trip_raw() {
    let v = UpdateValue::raw(hash_b(), vec![1, 2, 3], u64_le(99));
    let text = encode(&v);
    let back = decode(text.as_str()).unwrap();
    assert_eq!(back, v);
    assert!(back.is_raw());
}

#[test]
fn wire_form_is_uppercase_hex() {
    let v = UpdateValue::serialized(hash_a(), vec![]);
    let text = encode(&v);
    assert!(text.chars().all(|c| c.is_ascii_hexdigit() && !c.is_ascii_lowercase()));
    // 32 hash bytes + 1 tag byte + 4 length bytes, two digits each
    assert_eq!(text.len(), 2 * 37);
}

#[test]
fn decode_rejects_invalid_hex() {
    assert_eq!(decode("XYZ").unwrap_err(), DecodeError::InvalidHex);
    assert_eq!(decode("abcd").unwrap_err(), DecodeError::InvalidHex);
    assert_eq!(decode("ABC").unwrap_err(), DecodeError::InvalidHex);
}

#[test]
fn decode_rejects_malformed_structure() {
    // too short for hash and tag
    assert_eq!(decode("AA").unwrap_err(), DecodeError::Malformed);
    // unknown tag byte
    let mut bytes = vec![0u8; 32];
    bytes.push(9);
    let text = data_encoding::HEXUPPER.encode(&bytes);
    assert_eq!(decode(&text).unwrap_err(), DecodeError::Malformed);
    // trailing garbage after a complete serialized payload
    let v = UpdateValue::serialized(hash_a(), vec![1]);
    let mut text = encode(&v);
    text.push_str("00");
    assert_eq!(decode(&text).unwrap_err(), DecodeError::Malformed);
}

#[test]
fn u64_decoder_renders_decimal() {
    assert_eq!(decode_render(DecoderKind::U64, &u64_le(1234567890)).unwrap(), "1234567890");
    assert_eq!(decode_render(DecoderKind::U64, &u64_le(0)).unwrap(), "0");
    assert!(decode_render(DecoderKind::U64, &vec![1, 2, 3]).is_none());
}

#[test]
fn bytes_decoder_renders_hex() {
    let enc = length_prefixed(&[0xDE, 0xAD, 0xBE, 0xEF]);
    assert_eq!(decode_render(DecoderKind::LengthPrefixedBytes, &enc).unwrap(), "DEADBEEF");
    // wrong length prefix
    assert!(decode_render(DecoderKind::LengthPrefixedBytes, &vec![9, 0, 0, 0, 1]).is_none());
}

#[test]
fn registered_encodings_decode() {
    // every canonical encoding of a registered type decodes under its decoder
    for x in [0u64, 1, 255, 256, u64::MAX] {
        assert!(decode_render(DecoderKind::U64, &u64_le(x)).is_some());
    }
    for body in [&b""[..], &b"a"[..], &[7u8; 300][..]] {
        assert!(decode_render(DecoderKind::LengthPrefixedBytes, &length_prefixed(body)).is_some());
    }
}

#[test]
fn registry_lookup_follows_registration() {
    let mut reg = TypeDecoderRegistry::new();
    assert!(reg.lookup(&hash_a()).is_none());
    reg.register(hash_a(), DecoderKind::U64);
    assert_eq!(reg.lookup(&hash_a()).unwrap(), DecoderKind::U64);
    reg.register(hash_a(), DecoderKind::LengthPrefixedBytes);
    assert_eq!(reg.lookup(&hash_a()).unwrap(), DecoderKind::LengthPrefixedBytes);
    assert!(reg.lookup(&hash_b()).is_none());
}

#[test]
fn force_validate_never_fails() {
    let reg = TypeDecoderRegistry::new();
    // unregistered hash and garbage bytes, yet force passes
    let op = DbUpdateType::Add {
        key: Key::from_string(String::from("k")),
        value: UpdateValue::serialized(hash_b(), vec![1, 2, 3]),
        force: true,
    };
    let (_, deserializer) = op.validate(&reg).unwrap();
    assert!(deserializer.is_none());
    let op2 = DbUpdateType::RepeatAdd {
        pattern: String::from("a/.*"),
        value: UpdateValue::raw(hash_b(), vec![], vec![0xFF]),
        force: true,
    };
    assert!(op2.validate(&reg).is_ok());
}

#[test]
fn force_preview_shows_the_raw_bytes() {
    let reg = TypeDecoderRegistry::new();
    let op = DbUpdateType::Add {
        key: Key::from_string(String::from("k")),
        value: UpdateValue::serialized(hash_b(), vec![0xDE, 0xAD]),
        force: true,
    };
    let (rendered, _) = op.validate(&reg).unwrap();
    assert_eq!(rendered, "DEAD");
    assert_eq!(op.formatted_bytes(), "DEAD");
    // deletions have nothing to preview
    let del = DbUpdateType::Delete(Key::from_string(String::from("k")));
    assert_eq!(del.formatted_bytes(), "");
}

#[test]
fn unregistered_type_hash_is_refused() {
    let reg = registry_with_u64();
    let op = DbUpdateType::Add {
        key: Key::from_string(String::from("k")),
        value: UpdateValue::serialized(hash_b(), u64_le(7)),
        force: false,
    };
    assert_eq!(op.validate(&reg).unwrap_err(), MigrationError::UnknownType);
}

#[test]
fn undecodable_value_is_refused() {
    let reg = registry_with_u64();
    let op = DbUpdateType::Add {
        key: Key::from_string(String::from("k")),
        value: UpdateValue::serialized(hash_a(), vec![1, 2, 3]),
        force: false,
    };
    assert_eq!(op.validate(&reg).unwrap_err(), MigrationError::DecodeFailure);
}

#[test]
fn decoder_handle_only_for_raw_values() {
    let reg = registry_with_u64();
    let raw_op = DbUpdateType::Add {
        key: Key::from_string(String::from("k")),
        value: UpdateValue::raw(hash_a(), vec![1], u64_le(7)),
        force: false,
    };
    let (rendered, deserializer) = raw_op.validate(&reg).unwrap();
    assert_eq!(rendered, "7");
    assert_eq!(deserializer.unwrap(), DecoderKind::U64);
    let ser_op = DbUpdateType::Add {
        key: Key::from_string(String::from("k")),
        value: UpdateValue::serialized(hash_a(), u64_le(7)),
        force: false,
    };
    let (_, deserializer) = ser_op.validate(&reg).unwrap();
    assert!(deserializer.is_none());
}

#[test]
fn add_over_decodable_prior_succeeds() {
    let reg = registry_with_u64();
    let key = Key::from_string(String::from("counter"));
    let mut db = VecStore::new();
    db.write(&key, &u64_le(1));
    let op = DbUpdateType::Add {
        key: Key::from_string(String::from("counter")),
        value: UpdateValue::raw(hash_a(), vec![9, 9], u64_le(2)),
        force: false,
    };
    let st = op.update(&mut db, &reg).unwrap();
    assert_eq!(db.read(&key).unwrap(), vec![9, 9]);
    match st {
        UpdateStatus::Add(pairs) => {
            assert_eq!(pairs.len(), 1);
            assert_eq!(pairs[0].0, "counter");
            assert_eq!(pairs[0].1, "2");
        },
        _ => panic!("expected an add report"),
    }
}

#[test]
fn add_over_mismatching_prior_fails_and_leaves_store() {
    let reg = registry_with_u64();
    let key = Key::from_string(String::from("counter"));
    let mut db = VecStore::new();
    db.write(&key, &vec![1, 2, 3]); // not an 8-byte counter
    let op = DbUpdateType::Add {
        key: Key::from_string(String::from("counter")),
        value: UpdateValue::raw(hash_a(), vec![9, 9], u64_le(2)),
        force: false,
    };
    assert_eq!(op.update(&mut db, &reg).unwrap_err(), MigrationError::TypeMismatch);
    assert_eq!(db.read(&key).unwrap(), vec![1, 2, 3]);
}

#[test]
fn force_add_skips_prior_check() {
    let reg = registry_with_u64();
    let key = Key::from_string(String::from("counter"));
    let mut db = VecStore::new();
    db.write(&key, &vec![1, 2, 3]);
    let op = DbUpdateType::Add {
        key: Key::from_string(String::from("counter")),
        value: UpdateValue::raw(hash_a(), vec![9, 9], u64_le(2)),
        force: true,
    };
    assert!(op.update(&mut db, &reg).is_ok());
    assert_eq!(db.read(&key).unwrap(), vec![9, 9]);
}

#[test]
fn delete_removes_key() {
    let reg = TypeDecoderRegistry::new();
    let key = Key::from_string(String::from("gone"));
    let mut db = VecStore::new();
    db.write(&key, &vec![1]);
    let op = DbUpdateType::Delete(Key::from_string(String::from("gone")));
    let st = op.update(&mut db, &reg).unwrap();
    assert!(db.read(&key).is_none());
    match st {
        UpdateStatus::Deleted(keys) => assert_eq!(keys, vec![String::from("gone")]),
        _ => panic!("expected a delete report"),
    }
}

#[test]
fn repeat_add_with_no_match_writes_nothing() {
    let reg = registry_with_u64();
    let key = Key::from_string(String::from("b/1"));
    let mut db = VecStore::new();
    db.write(&key, &u64_le(5));
    let op = DbUpdateType::RepeatAdd {
        pattern: String::from("z/.*"),
        value: UpdateValue::serialized(hash_a(), u64_le(7)),
        force: false,
    };
    let st = op.update(&mut db, &reg).unwrap();
    match st {
        UpdateStatus::Add(pairs) => assert!(pairs.is_empty()),
        _ => panic!("expected an add report"),
    }
    assert_eq!(db.read(&key).unwrap(), u64_le(5));
}

#[test]
fn repeat_add_writes_every_match() {
    let reg = registry_with_u64();
    let mut db = VecStore::new();
    db.write(&Key::from_string(String::from("a/1")), &u64_le(1));
    db.write(&Key::from_string(String::from("a/2")), &u64_le(2));
    db.write(&Key::from_string(String::from("b/1")), &u64_le(3));
    let op = DbUpdateType::RepeatAdd {
        pattern: String::from("a/.*"),
        value: UpdateValue::serialized(hash_a(), u64_le(7)),
        force: false,
    };
    let st = op.update(&mut db, &reg).unwrap();
    match st {
        UpdateStatus::Add(pairs) => {
            let mut keys: Vec<String> = pairs.iter().map(|p| p.0.clone()).collect();
            keys.sort();
            assert_eq!(keys, vec![String::from("a/1"), String::from("a/2")]);
        },
        _ => panic!("expected an add report"),
    }
    assert_eq!(db.read(&Key::from_string(String::from("a/1"))).unwrap(), u64_le(7));
    assert_eq!(db.read(&Key::from_string(String::from("a/2"))).unwrap(), u64_le(7));
    assert_eq!(db.read(&Key::from_string(String::from("b/1"))).unwrap(), u64_le(3));
}

#[test]
fn repeat_delete_removes_exactly_the_matches() {
    let reg = TypeDecoderRegistry::new();
    let mut db = VecStore::new();
    db.write(&Key::from_string(String::from("a/1")), &vec![1]);
    db.write(&Key::from_string(String::from("a/2")), &vec![2]);
    db.write(&Key::from_string(String::from("b/1")), &vec![3]);
    let op = DbUpdateType::RepeatDelete(String::from("a/.*"));
    let st = op.update(&mut db, &reg).unwrap();
    match st {
        UpdateStatus::Deleted(mut keys) => {
            keys.sort();
            assert_eq!(keys, vec![String::from("a/1"), String::from("a/2")]);
        },
        _ => panic!("expected a delete report"),
    }
    assert!(db.read(&Key::from_string(String::from("a/1"))).is_none());
    assert!(db.read(&Key::from_string(String::from("a/2"))).is_none());
    assert_eq!(db.read(&Key::from_string(String::from("b/1"))).unwrap(), vec![3]);
}

#[test]
fn malformed_pattern_is_a_recoverable_error() {
    let reg = TypeDecoderRegistry::new();
    let mut db = VecStore::new();
    let op = DbUpdateType::RepeatDelete(String::from("a["));
    assert_eq!(op.update(&mut db, &reg).unwrap_err(), MigrationError::InvalidPattern);
    assert!(Pattern::new(String::from("a[")).is_none());
    assert!(Pattern::new(String::from("a/.*")).is_some());
}

#[test]
fn long_rendering_is_truncated_with_ellipsis() {
    let mut reg = TypeDecoderRegistry::new();
    reg.register(hash_a(), DecoderKind::LengthPrefixedBytes);
    // 200 bytes render as 400 hex characters
    let body = vec![0xABu8; 200];
    let op = DbUpdateType::Add {
        key: Key::from_string(String::from("k")),
        value: UpdateValue::serialized(hash_a(), length_prefixed(&body)),
        force: false,
    };
    let (rendered, _) = op.validate(&reg).unwrap();
    let full = data_encoding::HEXUPPER.encode(&body);
    assert_eq!(rendered.chars().count(), 304);
    assert_eq!(rendered, format!("{} ...", &full[..300]));
    // 100 bytes render as 200 characters, shown unmodified
    let short_body = vec![0xCDu8; 100];
    let op2 = DbUpdateType::Add {
        key: Key::from_string(String::from("k")),
        value: UpdateValue::serialized(hash_a(), length_prefixed(&short_body)),
        force: false,
    };
    let (rendered2, _) = op2.validate(&reg).unwrap();
    assert_eq!(rendered2, data_encoding::HEXUPPER.encode(&short_body));
    assert_eq!(rendered2.chars().count(), 200);
}

#[test]
fn display_strings_describe_updates() {
    let reg = registry_with_u64();
    let op = DbUpdateType::Add {
        key: Key::from_string(String::from("counter")),
        value: UpdateValue::raw(hash_a(), vec![9], u64_le(7)),
        force: false,
    };
    assert_eq!(op.to_display_string(&reg), "Write to key: <counter> with raw value: 7");
    let del = DbUpdateType::Delete(Key::from_string(String::from("counter")));
    assert_eq!(del.to_display_string(&reg), "Delete key: <counter>");
    let rep = DbUpdateType::RepeatDelete(String::from("a/.*"));
    assert_eq!(rep.to_display_string(&reg), "Delete pattern: <a/.*>");
    let bad = DbUpdateType::Add {
        key: Key::from_string(String::from("k")),
        value: UpdateValue::serialized(hash_b(), u64_le(7)),
        force: false,
    };
    assert_eq!(bad.to_display_string(&reg), "unknown type hash");
    let st = UpdateStatus::Deleted(vec![String::from("a/1"), String::from("a/2")]);
    assert_eq!(st.to_display_string(), "Deleting key <a/1>\nDeleting key <a/2>\n");
    let st2 = UpdateStatus::Add(vec![(String::from("k"), String::from("7"))]);
    assert_eq!(st2.to_display_string(), "Writing key <k> with value: 7\n");
}

#[test]
fn script_applies_in_order_and_stops_at_first_failure() {
    let reg = registry_with_u64();
    let mut db = VecStore::new();
    let script = DbChanges {
        changes: vec![
            DbUpdateType::Add {
                key: Key::from_string(String::from("a/1")),
                value: UpdateValue::serialized(hash_a(), u64_le(1)),
                force: false,
            },
            DbUpdateType::Add {
                key: Key::from_string(String::from("a/2")),
                value: UpdateValue::serialized(hash_a(), u64_le(2)),
                force: false,
            },
        ],
    };
    let statuses = script.apply(&mut db, &reg).unwrap();
    assert_eq!(statuses.len(), 2);
    assert_eq!(db.read(&Key::from_string(String::from("a/1"))).unwrap(), u64_le(1));
    assert_eq!(db.read(&Key::from_string(String::from("a/2"))).unwrap(), u64_le(2));

    let failing = DbChanges {
        changes: vec![
            DbUpdateType::Delete(Key::from_string(String::from("a/1"))),
            DbUpdateType::Add {
                key: Key::from_string(String::from("a/2")),
                value: UpdateValue::serialized(hash_b(), u64_le(9)),
                force: false,
            },
            DbUpdateType::Delete(Key::from_string(String::from("a/2"))),
        ],
    };
    assert_eq!(failing.apply(&mut db, &reg).unwrap_err(), MigrationError::UnknownType);
    // the delete before the failing entry stays applied, the one after never runs
    assert!(db.read(&Key::from_string(String::from("a/1"))).is_none());
    assert_eq!(db.read(&Key::from_string(String::from("a/2"))).unwrap(), u64_le(2));
}

#[test]
fn key_converts_both_ways() {
    let k = Key::from_string(String::from("a/b/c"));
    assert_eq!(k.as_str(), "a/b/c");
    assert_eq!(k.to_string_form(), "a/b/c");
    let k2 = Key::from_string(String::from("a/b/c"));
    assert_eq!(k, k2);
    assert_ne!(k, Key::from_string(String::from("a/b")));
}

#[test]
fn vm_layouts_are_cumulative_offsets() {
    let tx = tx_input_layout(10);
    assert_eq!((tx.tx_data_ptr, tx.tx_data_len), (0, 10));
    let vp = vp_input_layout(3, 5, 7, 11);
    assert_eq!(vp.addr_ptr, 0);
    assert_eq!(vp.tx_data_ptr, 3);
    assert_eq!(vp.keys_changed_ptr, 8);
    assert_eq!(vp.verifiers_ptr, 15);
    assert_eq!(vp.verifiers_len, 11);
    let mm = matchmaker_input_layout(4, 6);
    assert_eq!(mm.intent_data_2_ptr, 4);
    assert_eq!(mm.intent_data_2_len, 6);
}

#[test]
fn page_growth_is_a_ceiling_division() {
    // fits: 2 pages hold 131072 bytes
    assert_eq!(required_pages(2, 0, 131072), None);
    // one byte over needs one more page
    assert_eq!(required_pages(2, 0, 131073), Some(1));
    // exactly one extra page
    assert_eq!(required_pages(2, 131072, 65536), Some(1));
    // a byte more than a page needs two
    assert_eq!(required_pages(2, 131072, 65537), Some(2));
    // from an empty memory
    assert_eq!(required_pages(0, 0, 1), Some(1));
}
