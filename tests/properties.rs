use idt::encoding::{bytes_to_u128, encode_bits, encode_bytes, encode_bytes_spaced, encode_hex};
use idt::snowflake_id::resolve_epoch;
use idt::tsid_id::{tsid_decode, tsid_encode};
use idt::{
    parse_id, Cuid2Generator, EncodingFormat, IdGenerator, IdKind, KsuidGenerator,
    ObjectIdGenerator, ParsedSnowflake, ParsedUlid, ParsedUuid, SnowflakeGenerator, Timestamp,
    XidGenerator,
};
use std::collections::HashSet;

#[test]
fn round_trip_for_every_generated_format() {
    for kind in [
        IdKind::UuidV4,
        IdKind::UuidV7,
        IdKind::Ulid,
        IdKind::Snowflake,
        IdKind::ObjectId,
        IdKind::Ksuid,
        IdKind::Xid,
        IdKind::Tsid,
        IdKind::TypeId,
        IdKind::Cuid,
        IdKind::Cuid2,
        IdKind::NanoId,
    ] {
        let mut g = idt::create_generator(kind).unwrap();
        for _ in 0..20 {
            let text = g.generate().unwrap();
            let parsed = parse_id(&text, Some(kind)).unwrap();
            assert_eq!(parsed.canonical(), text);
            let bytes = parsed.as_bytes();
            let again = parse_id(&parsed.canonical(), Some(kind)).unwrap();
            assert_eq!(again.as_bytes(), bytes);
        }
    }
}

#[test]
fn canonical_form_is_case_and_dash_insensitive() {
    let a = ParsedUuid::parse("550e8400-e29b-41d4-a716-446655440000").unwrap();
    let b = ParsedUuid::parse("550E8400-E29B-41D4-A716-446655440000").unwrap();
    let c = ParsedUuid::parse("550e8400e29b41d4a716446655440000").unwrap();
    assert_eq!(a.canonical(), b.canonical());
    assert_eq!(a.canonical(), c.canonical());
    let u = ParsedUlid::parse("01ARZ3NDEKTSV4RRFFQ69G5FAV").unwrap();
    let l = ParsedUlid::parse("01arz3ndektsv4rrffq69g5fav").unwrap();
    assert_eq!(u.canonical(), l.canonical());
}

#[test]
fn snowflake_same_millisecond_is_monotonic() {
    let mut g = SnowflakeGenerator::new().with_machine_id(3).with_datacenter_id(40);
    assert_eq!(g.datacenter_id, 8);
    let now = 1_700_000_000_000u64;
    let first = g.generate_at(now).unwrap();
    assert_eq!(first & 0xFFF, 0);
    let mut last = first;
    for k in 1..100u64 {
        let id = g.generate_at(now).unwrap();
        assert!(id > last);
        assert_eq!(id & 0xFFF, k);
        last = id;
    }
    let next = g.generate_at(now + 1).unwrap();
    assert_eq!(next & 0xFFF, 0);
    assert_eq!(next >> 22, now + 1);
    let p = ParsedSnowflake::parse(&next.to_string()).unwrap();
    assert_eq!(p.machine_id(), 3);
    assert_eq!(p.datacenter_id(), 8);
    let mut early = SnowflakeGenerator::discord();
    assert!(matches!(early.generate_at(5), Err(idt::IdtError::GenerationError(_))));
}

#[test]
fn many_generations_are_distinct() {
    let mut c2 = Cuid2Generator::new();
    let mut oid = ObjectIdGenerator::new();
    let mut xid = XidGenerator::new();
    let k = KsuidGenerator::new();
    let mut seen: HashSet<String> = HashSet::new();
    for _ in 0..1000 {
        assert!(seen.insert(c2.generate().unwrap()));
        assert!(seen.insert(oid.generate().unwrap()));
        assert!(seen.insert(xid.generate().unwrap()));
        assert!(seen.insert(k.generate().unwrap()));
    }
}

#[test]
fn boundary_values() {
    assert_eq!(idt::UuidGenerator::nil().generate().unwrap(), "00000000-0000-0000-0000-000000000000");
    assert_eq!(idt::UuidGenerator::max().generate().unwrap(), "ffffffff-ffff-ffff-ffff-ffffffffffff");
    for v in [0u64, 1, 0x0123456789ABCDEF, u64::MAX] {
        assert_eq!(tsid_decode(&tsid_encode(v)).unwrap(), v);
    }
}

#[test]
fn byte_encoders() {
    let b = [0x00u8, 0x0f, 0xa5, 0xff];
    assert_eq!(encode_hex(&b), "000fa5ff");
    assert_eq!(encode_bits(&[0xa5u8, 0x01]), "1010010100000001");
    assert_eq!(encode_bytes_spaced(&b), "00 0f a5 ff");
    assert_eq!(encode_bytes_spaced(&[]), "");
    assert_eq!(bytes_to_u128(&b), Some(0x000fa5ff));
    assert_eq!(bytes_to_u128(&[0xffu8; 16]), Some(u128::MAX));
    assert_eq!(bytes_to_u128(&[0u8; 17]), None);
    assert_eq!(encode_bytes(&[0u8; 17], EncodingFormat::Int), "overflow");
    assert_eq!(encode_bytes(&b, EncodingFormat::HexUpper), "000FA5FF");
    assert_eq!(encode_bytes(&b, EncodingFormat::Base64), "AA+l/w==");
    assert_eq!(encode_bytes(&b, EncodingFormat::Base64Url), "AA-l_w");
    assert_eq!(encode_bytes(&b, EncodingFormat::Base32), "AAH2L7Y");
    assert_eq!(encode_bytes(&b, EncodingFormat::Base32Hex), "AAH2L7Y");
    assert_eq!(encode_bytes(&[0u8, 0, 1], EncodingFormat::Base58), "112");
    assert_eq!(encode_bytes(&b"hi"[..], EncodingFormat::Binary), "hi");
}

#[test]
fn byte_decoders() {
    assert_eq!(idt::encoding::decode_hex("0FA5").unwrap(), vec![0x0f, 0xa5]);
    assert!(matches!(idt::encoding::decode_hex("0FA"), Err(idt::IdtError::EncodingError(_))));
    assert_eq!(idt::encoding::decode_base32("AAH2L7Y").unwrap(), vec![0x00, 0x0f, 0xa5, 0xff]);
    assert!(matches!(idt::encoding::decode_base32("a!"), Err(idt::IdtError::EncodingError(_))));
    assert_eq!(idt::encoding::decode_base58("112").unwrap(), vec![0, 0, 1]);
    assert!(matches!(idt::encoding::decode_base58("0OIl"), Err(idt::IdtError::EncodingError(_))));
    assert_eq!(idt::encoding::decode_base64("AA+l/w==").unwrap(), vec![0x00, 0x0f, 0xa5, 0xff]);
    assert!(matches!(idt::encoding::decode_base64("***"), Err(idt::IdtError::EncodingError(_))));
    assert_eq!(idt::encoding::decode_base64_url("AA-l_w").unwrap(), vec![0x00, 0x0f, 0xa5, 0xff]);
    assert!(matches!(idt::encoding::decode_base64_url("AA+l"), Err(idt::IdtError::EncodingError(_))));
}

#[test]
fn names_and_metadata() {
    assert_eq!(IdKind::parse_name("UUID-V4").unwrap(), IdKind::UuidV4);
    assert_eq!(IdKind::parse_name("snow").unwrap(), IdKind::Snowflake);
    assert_eq!(IdKind::parse_name("mongoid").unwrap(), IdKind::ObjectId);
    assert_eq!("oid".parse::<IdKind>().unwrap(), IdKind::ObjectId);
    assert!(matches!(IdKind::parse_name("nope"), Err(idt::IdtError::UnknownType(_))));
    assert_eq!(EncodingFormat::parse_name("Base64-URL").unwrap(), EncodingFormat::Base64Url);
    assert!(matches!(EncodingFormat::parse_name("rot13"), Err(idt::IdtError::InvalidArgument(_))));
    assert_eq!(IdKind::UuidNil.name(), "uuid-nil");
    assert_eq!(IdKind::Ksuid.bit_length(), 160);
    assert!(IdKind::Tsid.is_sortable());
    assert!(!IdKind::Cuid.is_sortable());
    assert!(IdKind::Cuid.has_timestamp());
    assert_eq!(IdKind::all().len(), 19);
    assert_eq!(IdKind::generatable().len(), 10);
    assert_eq!(IdKind::Xid.description(), "Xid (globally unique, sortable ID)");
    assert_eq!(EncodingFormat::HexUpper.name(), "HEX");
}

#[test]
fn epochs_resolve() {
    assert_eq!(resolve_epoch("Twitter").unwrap(), idt::TWITTER_EPOCH);
    assert_eq!(resolve_epoch("discord").unwrap(), idt::DISCORD_EPOCH);
    assert_eq!(resolve_epoch("12345").unwrap(), 12345);
    assert!(matches!(resolve_epoch("mars"), Err(idt::IdtError::InvalidArgument(_))));
}

#[test]
fn timestamps_and_validation() {
    assert_eq!(Timestamp::from_secs(2).millis, 2000);
    assert_eq!(Timestamp::new(0).to_iso8601(), "1970-01-01T00:00:00.000Z");
    assert_eq!(Timestamp::new(1469922850259).to_iso8601(), "2016-07-30T23:54:10.259Z");
    let future = ParsedSnowflake::parse(&(u64::MAX >> 1).to_string()).unwrap();
    assert!(!future.validate().valid);
    let r = future.validate_at(0);
    assert_eq!(r.error.as_deref(), Some("Timestamp is in the future"));
    let p = parse_id("507f1f77bcf86cd799439011", None).unwrap();
    assert!(p.validate().valid);
    let inspected = p.inspect();
    assert_eq!(inspected.id_type, "objectid");
    assert_eq!(inspected.encodings.hex, "507f1f77bcf86cd799439011");
    assert_eq!(inspected.timestamp_iso.as_deref(), Some("2012-10-17T21:13:27.000Z"));
}

#[test]
fn validate_text_strict_and_hints() {
    let ok = idt::validate_text("550e8400-e29b-41d4-a716-446655440000", None, true);
    assert!(ok.valid);
    let upper = idt::validate_text("550E8400-E29B-41D4-A716-446655440000", Some(IdKind::Uuid), true);
    assert!(!upper.valid);
    assert_eq!(upper.error.as_deref(), Some("Non-canonical form"));
    assert_eq!(upper.hint.as_deref(), Some("Canonical form: 550e8400-e29b-41d4-a716-446655440000"));
    assert!(idt::validate_text("550E8400-E29B-41D4-A716-446655440000", Some(IdKind::Uuid), false).valid);
    let dashless = idt::validate_text("550e8400e29b41d4a716446655440000", Some(IdKind::Ulid), false);
    assert!(!dashless.valid);
    assert_eq!(dashless.hint.as_deref(), Some("Looks like UUID without dashes. Try adding dashes."));
    let bad = idt::validate_text("550e8400-e29b-41d4-a716-44665544000z", Some(IdKind::Uuid), false);
    assert!(!bad.valid);
    assert_eq!(bad.hint.as_deref(), Some("Check for invalid characters in UUID."));
    let none = idt::validate_text("!!", None, false);
    assert_eq!(none.error.as_deref(), Some("Detection failed: could not determine ID type"));
    assert!(none.hint.is_none());
}
