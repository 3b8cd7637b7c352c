use idt::{
    create_generator, is_snowflake, is_ulid, is_uuid, Cuid2Generator, CuidGenerator, IdGenerator,
    IdKind, IdtError, KsuidGenerator, NanoIdGenerator, ObjectIdGenerator, ParsedCuid,
    ParsedCuid2, ParsedKsuid, ParsedObjectId, ParsedSnowflake, ParsedTsid, ParsedTypeId,
    ParsedUuid, ParsedXid, SnowflakeGenerator, TsidGenerator, TypeIdGenerator, UlidGenerator,
    UuidGenerator, XidGenerator,
};
use sha2::Digest;
use std::collections::HashSet;

#[test]
fn cuid2_id_test_generate() {
    let mut generator = Cuid2Generator::new();
    let id = generator.generate().unwrap();
    assert_eq!(id.len(), 24);
    assert!(id.chars().next().unwrap().is_ascii_lowercase());
    assert!(id.chars().all(|c| c.is_ascii_lowercase() || c.is_ascii_digit()));
}

#[test]
fn cuid2_id_test_parse() {
    let mut generator = Cuid2Generator::new();
    let id = generator.generate().unwrap();
    let parsed = ParsedCuid2::parse(&id).unwrap();
    assert_eq!(parsed.kind(), IdKind::Cuid2);
    assert!(parsed.timestamp().is_none());
}

#[test]
fn cuid2_id_test_uniqueness() {
    let mut generator = Cuid2Generator::new();
    let ids: Vec<String> = (0..100).map(|_| generator.generate().unwrap()).collect();
    let unique: HashSet<_> = ids.iter().collect();
    assert_eq!(ids.len(), unique.len());
}

#[test]
fn cuid_id_test_generate() {
    let mut generator = CuidGenerator::new();
    let id = generator.generate().unwrap();
    assert_eq!(id.len(), 25);
    assert!(id.starts_with('c'));
    assert!(id.chars().all(|c| c.is_ascii_lowercase() || c.is_ascii_digit()));
}

#[test]
fn cuid_id_test_parse() {
    let mut generator = CuidGenerator::new();
    let id = generator.generate().unwrap();
    let parsed = ParsedCuid::parse(&id).unwrap();
    assert_eq!(parsed.kind(), IdKind::Cuid);
    assert!(parsed.timestamp().is_some());
}

#[test]
fn test_validate_hint() {
    let mut generator = CuidGenerator::new();
    let id = generator.generate().unwrap();
    let parsed = ParsedCuid::parse(&id).unwrap();
    let result = parsed.validate();
    assert!(result.valid);
    assert!(result.hint.as_ref().unwrap().contains("deprecated"));
}

#[test]
fn cuid_generate_at_layout() {
    let mut generator = CuidGenerator::new();
    let id = generator.generate_at(36, 35);
    assert_eq!(&id[..13], "c000000100000");
    assert_eq!(&id[17..], "0000000z");
    assert_eq!(generator.counter, 1);
}

#[test]
fn ksuid_id_test_generate() {
    let generator = KsuidGenerator::new();
    let id = generator.generate().unwrap();
    assert_eq!(id.len(), 27);
    assert!(id.chars().all(|c| c.is_ascii_alphanumeric()));
}

#[test]
fn ksuid_id_test_roundtrip() {
    let generator = KsuidGenerator::new();
    let id = generator.generate().unwrap();
    let parsed = ParsedKsuid::parse(&id).unwrap();
    assert_eq!(parsed.canonical(), id);
}

#[test]
fn ksuid_id_test_has_timestamp() {
    let generator = KsuidGenerator::new();
    let id = generator.generate().unwrap();
    let parsed = ParsedKsuid::parse(&id).unwrap();
    let ts = parsed.timestamp().unwrap();
    let now = chrono::Utc::now().timestamp() as u64;
    assert!((now * 1000).abs_diff(ts.millis) < 10_000);
}

#[test]
fn test_generate_default() {
    let generator = NanoIdGenerator::new();
    let id = generator.generate().unwrap();
    assert_eq!(id.len(), 21);
}

#[test]
fn test_generate_custom_length() {
    let generator = NanoIdGenerator::new().with_length(32);
    let id = generator.generate().unwrap();
    assert_eq!(id.len(), 32);
}

#[test]
fn test_generate_hex_alphabet() {
    let generator = NanoIdGenerator::new().with_alphabet("0123456789abcdef").with_length(16);
    let id = generator.generate().unwrap();
    assert_eq!(id.len(), 16);
    assert!(id.chars().all(|c| c.is_ascii_hexdigit()));
}

#[test]
fn test_is_default_format() {
    assert!(idt::ParsedNanoId::is_default_format("V1StGXR8_Z5jdHi6B-myT"));
    assert!(!idt::ParsedNanoId::is_default_format("too-short"));
}

#[test]
fn nanoid_refuses_unusable_settings() {
    assert!(matches!(NanoIdGenerator::new().with_length(0).generate(), Err(IdtError::InvalidArgument(_))));
    assert!(matches!(NanoIdGenerator::new().with_alphabet("").generate(), Err(IdtError::InvalidArgument(_))));
    assert!(matches!(NanoIdGenerator::new().with_alphabet("aé").generate(), Err(IdtError::InvalidArgument(_))));
}

#[test]
fn objectid_id_test_generate() {
    let mut generator = ObjectIdGenerator::new();
    let id = generator.generate().unwrap();
    assert_eq!(id.len(), 24);
    assert!(id.chars().all(|c| c.is_ascii_hexdigit()));
}

#[test]
fn objectid_id_test_roundtrip() {
    let mut generator = ObjectIdGenerator::new();
    let id = generator.generate().unwrap();
    let parsed = ParsedObjectId::parse(&id).unwrap();
    assert_eq!(parsed.canonical(), id);
}

#[test]
fn test_counter_increments() {
    let mut generator = ObjectIdGenerator::new();
    let id1 = generator.generate().unwrap();
    let id2 = generator.generate().unwrap();
    assert_ne!(id1, id2);
}

#[test]
fn objectid_counter_wraps_at_24_bits() {
    let mut generator = ObjectIdGenerator { process_random: [1, 2, 3, 4, 5], counter: 0xFF_FFFF };
    let a = generator.generate_at(0x507f1f77);
    let b = generator.generate_at(0x507f1f77);
    assert_eq!(a, "507f1f770102030405ffffff");
    assert_eq!(b, "507f1f770102030405000000");
}

#[test]
fn snowflake_id_test_generate() {
    let mut generator = SnowflakeGenerator::new();
    let id = generator.generate().unwrap();
    assert!(is_snowflake(&id));
}

#[test]
fn test_generate_twitter() {
    let mut generator = SnowflakeGenerator::twitter().with_machine_id(1);
    let id = generator.generate().unwrap();
    let parsed = ParsedSnowflake::parse_twitter(&id).unwrap();
    assert_eq!(parsed.machine_id(), 1);
}

#[test]
fn snowflake_id_test_uniqueness() {
    let mut generator = SnowflakeGenerator::new();
    let ids: Vec<String> = (0..100).map(|_| generator.generate().unwrap()).collect();
    let unique: HashSet<_> = ids.iter().collect();
    assert_eq!(ids.len(), unique.len());
}

#[test]
fn tsid_id_test_generate() {
    let generator = TsidGenerator::new();
    let id = generator.generate().unwrap();
    assert_eq!(id.len(), 13);
}

#[test]
fn tsid_id_test_roundtrip() {
    let generator = TsidGenerator::new();
    let id = generator.generate().unwrap();
    let parsed = ParsedTsid::parse(&id).unwrap();
    assert_eq!(parsed.canonical(), id);
}

#[test]
fn tsid_id_test_has_timestamp() {
    let generator = TsidGenerator::new();
    let id = generator.generate().unwrap();
    let parsed = ParsedTsid::parse(&id).unwrap();
    let ts = parsed.timestamp().unwrap();
    let now = chrono::Utc::now().timestamp_millis() as u64;
    assert!(now.abs_diff(ts.millis) < 5000);
}

#[test]
fn test_generate_with_prefix() {
    let generator = TypeIdGenerator::new("user");
    let id = generator.generate().unwrap();
    assert!(id.starts_with("user_"));
    assert_eq!(id.len(), 5 + 26);
}

#[test]
fn test_generate_no_prefix() {
    let generator = TypeIdGenerator::new("");
    let id = generator.generate().unwrap();
    assert_eq!(id.len(), 26);
}

#[test]
fn typeid_id_test_roundtrip() {
    let generator = TypeIdGenerator::new("order");
    let id = generator.generate().unwrap();
    let parsed = ParsedTypeId::parse(&id).unwrap();
    assert_eq!(parsed.canonical(), id);
    assert_eq!(parsed.prefix, "order");
}

#[test]
fn typeid_id_test_has_timestamp() {
    let generator = TypeIdGenerator::new("test");
    let id = generator.generate().unwrap();
    let parsed = ParsedTypeId::parse(&id).unwrap();
    assert!(parsed.timestamp().is_some());
}

#[test]
fn ulid_id_test_generate() {
    let generator = UlidGenerator::new();
    let id = generator.generate().unwrap();
    assert_eq!(id.len(), 26);
    assert!(is_ulid(&id));
}

#[test]
fn test_generate_v4() {
    let generator = UuidGenerator::v4();
    let id = generator.generate().unwrap();
    assert_eq!(id.len(), 36);
    assert!(is_uuid(&id));
}

#[test]
fn test_generate_v7() {
    let generator = UuidGenerator::v7();
    let id = generator.generate().unwrap();
    let parsed = ParsedUuid::parse(&id).unwrap();
    assert_eq!(parsed.kind(), IdKind::UuidV7);
    assert!(parsed.timestamp().is_some());
}

#[test]
fn test_nil_uuid() {
    let generator = UuidGenerator::nil();
    let id = generator.generate().unwrap();
    assert_eq!(id, "00000000-0000-0000-0000-000000000000");
}

#[test]
fn max_uuid_and_name_based() {
    assert_eq!(UuidGenerator::max().generate().unwrap(), "ffffffff-ffff-ffff-ffff-ffffffffffff");
    assert_eq!(
        UuidGenerator::new(3).generate().unwrap(),
        uuid::Uuid::new_v3(&uuid::Uuid::NAMESPACE_DNS, b"example.com").to_string()
    );
    assert_eq!(
        UuidGenerator::new(5).with_name("idt".to_string()).generate().unwrap(),
        uuid::Uuid::new_v5(&uuid::Uuid::NAMESPACE_DNS, b"idt").to_string()
    );
    assert!(matches!(UuidGenerator::new(2).generate(), Err(IdtError::InvalidArgument(_))));
    let v1 = UuidGenerator::v1().generate().unwrap();
    assert!(v1.ends_with("-001122334455"));
    assert_eq!(ParsedUuid::parse(&v1).unwrap().kind(), IdKind::UuidV1);
    assert_eq!(ParsedUuid::parse(&UuidGenerator::v6().generate().unwrap()).unwrap().kind(), IdKind::UuidV6);
}

#[test]
fn xid_id_test_generate() {
    let mut generator = XidGenerator::new();
    let id = generator.generate().unwrap();
    assert_eq!(id.len(), 20);
    assert!(id.chars().all(|c| matches!(c, '0'..='9' | 'a'..='v')));
}

#[test]
fn xid_id_test_roundtrip() {
    let mut generator = XidGenerator::new();
    let id = generator.generate().unwrap();
    let parsed = ParsedXid::parse(&id).unwrap();
    assert_eq!(parsed.canonical(), id);
}

#[test]
fn xid_id_test_has_timestamp() {
    let mut generator = XidGenerator::new();
    let id = generator.generate().unwrap();
    let parsed = ParsedXid::parse(&id).unwrap();
    let ts = parsed.timestamp().unwrap();
    let now = chrono::Utc::now().timestamp() as u64;
    assert!((now * 1000).abs_diff(ts.millis) < 10_000);
}

#[test]
fn create_generator_kinds() {
    for kind in IdKind::all() {
        let made = create_generator(kind);
        if kind == IdKind::UuidV3 || kind == IdKind::UuidV5 {
            assert!(matches!(made, Err(IdtError::GenerationError(_))));
        } else {
            let mut g = made.unwrap();
            let id = g.generate().unwrap();
            let parsed = idt::parse_id(&id, Some(kind)).unwrap();
            assert_eq!(parsed.canonical(), id);
        }
    }
    let mut g = create_generator(IdKind::Tsid).unwrap();
    assert_eq!(g.generate_many(5).unwrap().len(), 5);
}

fn base36_of(digest: &[u8]) -> String {
    let alphabet = b"0123456789abcdefghijklmnopqrstuvwxyz";
    let mut num = digest.to_vec();
    let mut out = Vec::new();
    loop {
        let mut rem: u32 = 0;
        let mut all_zero = true;
        for b in num.iter_mut() {
            let acc = (rem << 8) | *b as u32;
            *b = (acc / 36) as u8;
            rem = acc % 36;
            if *b != 0 {
                all_zero = false;
            }
        }
        out.push(alphabet[rem as usize]);
        if all_zero {
            break;
        }
    }
    out.reverse();
    String::from_utf8(out).unwrap()
}

#[test]
fn cuid2_is_the_truncated_base36_digest() {
    let mut g = Cuid2Generator::new().with_process_id(77);
    let pad = vec![5u8; 24];
    let id = g.generate_at(1_700_000_000_000, 11, 22, 33, &pad);
    let mut data = Vec::new();
    for w in [1_700_000_000_000u64, 0, 11, 77, 22, 33] {
        data.extend_from_slice(&w.to_le_bytes());
    }
    let text = base36_of(&sha2::Sha256::digest(&data));
    let mut expected: String = text.chars().take(24).collect();
    let first = expected.chars().next().unwrap();
    if first.is_ascii_digit() {
        let letter = (b'a' + (first as u8 - b'0') % 26) as char;
        expected.replace_range(0..1, &letter.to_string());
    }
    while expected.len() < 24 {
        expected.push('5');
    }
    assert_eq!(id, expected);
    assert_eq!(g.counter, 1);
}
