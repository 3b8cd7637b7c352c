use idt::cuid_id::{decode_base36, pad_base36};
use idt::ksuid_id::{decode_base62, encode_base62};
use idt::tsid_id::{tsid_decode, tsid_encode};
use idt::ulid_id::{ulid_to_uuid, uuid_to_ulid};
use idt::typeid_id::{typeid_base32_encode, typeid_suffix_decode};
use idt::xid_id::{xid_decode, xid_encode};
use idt::{
    is_uuid, parse_id, IdKind, IdtError, ParsedCuid, ParsedCuid2, ParsedKsuid, ParsedNanoId,
    ParsedObjectId, ParsedSnowflake, ParsedTsid, ParsedTypeId, ParsedUlid, ParsedUuid, ParsedXid,
    EncodingFormat,
};

fn chars(s: &str) -> Vec<char> {
    s.chars().collect()
}

#[test]
fn test_pad_base36() {
    assert_eq!(pad_base36(0, 4), "0000");
    assert_eq!(pad_base36(35, 4), "000z");
    assert_eq!(pad_base36(36, 4), "0010");
}

#[test]
fn pad_base36_keeps_last_digits() {
    assert_eq!(pad_base36(36 * 36 * 36 * 36 + 1, 4), "0001");
    assert_eq!(pad_base36(u64::MAX, 13), "3w5e11264sgsf");
}

#[test]
fn decode_base36_checks_overflow() {
    assert_eq!(decode_base36(&chars("3w5e11264sgsf")), Some(u64::MAX));
    assert_eq!(decode_base36(&chars("3w5e11264sgsg")), None);
    assert_eq!(decode_base36(&chars("A")), None);
}

#[test]
fn test_base62_encode_decode() {
    let mut bytes = [0u8; 20];
    bytes[0] = 0x0B;
    bytes[1] = 0x5F;
    bytes[2] = 0x03;
    bytes[3] = 0x58;
    for (i, byte) in bytes.iter_mut().enumerate().skip(4) {
        *byte = (i * 13) as u8;
    }
    let encoded = encode_base62(&bytes);
    assert_eq!(encoded.len(), 27);
    let decoded = decode_base62(&chars(&encoded)).unwrap();
    assert_eq!(bytes.to_vec(), decoded);
}

#[test]
fn base62_extremes() {
    assert_eq!(encode_base62(&[0u8; 20]), "000000000000000000000000000");
    assert_eq!(encode_base62(&[255u8; 20]), "aWgEPTl1tmebfsQzFP4bxwgy80V");
    assert_eq!(decode_base62(&chars("aWgEPTl1tmebfsQzFP4bxwgy80V")).unwrap(), vec![255u8; 20]);
    assert!(matches!(decode_base62(&chars("aWgEPTl1tmebfsQzFP4bxwgy80W")), Err(IdtError::ParseError(_))));
    assert!(matches!(decode_base62(&chars("short")), Err(IdtError::ParseError(_))));
    assert!(matches!(decode_base62(&chars("aWgEPTl1tmebfsQzFP4bxwgy8-V")), Err(IdtError::ParseError(_))));
}

#[test]
fn test_encode_decode() {
    let value: u64 = 0x0123456789ABCDEF;
    let encoded = tsid_encode(value);
    let decoded = tsid_decode(&encoded).unwrap();
    assert_eq!(value, decoded);
}

#[test]
fn tsid_exact_text_and_folding() {
    assert_eq!(tsid_encode(0x0123456789ABCDEF), "028T5CY4TQKFF");
    assert_eq!(tsid_encode(0), "0000000000000");
    assert_eq!(tsid_encode(u64::MAX), "FZZZZZZZZZZZZ");
    assert_eq!(tsid_decode("fzzzzzzzzzzzz").unwrap(), u64::MAX);
    assert_eq!(tsid_decode("O0000000000IL").unwrap(), 33);
    assert!(matches!(tsid_decode("G000000000000"), Err(IdtError::ParseError(_))));
    assert!(matches!(tsid_decode("000000000000U"), Err(IdtError::ParseError(_))));
    assert!(matches!(tsid_decode("000"), Err(IdtError::ParseError(_))));
}

#[test]
fn test_encode_decode_roundtrip() {
    let mut bytes = [0u8; 12];
    for i in 0..12 {
        bytes[i] = (i * 17 + 3) as u8;
    }
    let encoded = xid_encode(&bytes);
    let decoded = xid_decode(&chars(&encoded)).unwrap();
    assert_eq!(bytes, decoded);
}

#[test]
fn xid_bit_exact_output() {
    let bytes: [u8; 12] = [0x4d, 0x88, 0xe1, 0x5b, 0x60, 0xf4, 0x86, 0xe4, 0x28, 0x41, 0x2d, 0xc9];
    let encoded = xid_encode(&bytes);
    assert_eq!(encoded, "0jc8s5dm1t46sgk42be9");
    assert_eq!(xid_decode(&chars(&encoded)).unwrap(), bytes);
    let mut seq = [0u8; 12];
    for i in 0..12 {
        seq[i] = (i * 17 + 3) as u8;
    }
    assert_eq!(xid_encode(&seq), "00ok4kr4em39fa5ppbdu");
    assert!(matches!(xid_decode(&chars("0jc8s5dm1t46sgk42bew")), Err(IdtError::ParseError(_))));
}

#[test]
fn test_base32_encode_decode() {
    let uuid = uuid::Uuid::now_v7();
    let bytes = *uuid.as_bytes();
    let encoded = typeid_base32_encode(&bytes);
    let decoded = typeid_suffix_decode(&chars(&encoded)).unwrap();
    assert_eq!(u128::from_be_bytes(bytes), decoded);
}

#[test]
fn typeid_suffix_overflow_is_refused() {
    assert_eq!(typeid_base32_encode(&[255u8; 16]), "7zzzzzzzzzzzzzzzzzzzzzzzzz");
    assert!(matches!(typeid_suffix_decode(&chars("8zzzzzzzzzzzzzzzzzzzzzzzzz")), Err(IdtError::ParseError(_))));
}

#[test]
fn test_parse_known() {
    let parsed = ParsedObjectId::parse("507f1f77bcf86cd799439011").unwrap();
    assert_eq!(parsed.kind(), IdKind::ObjectId);
    assert!(parsed.timestamp().is_some());
    assert_eq!(parsed.timestamp_secs(), 0x507f1f77);
}

#[test]
fn objectid_parse_errors_and_canonical() {
    let p = ParsedObjectId::parse("507F1F77BCF86CD799439011").unwrap();
    assert_eq!(p.canonical(), "507f1f77bcf86cd799439011");
    assert_eq!(p.timestamp().unwrap().millis, 1350508407000);
    assert!(matches!(ParsedObjectId::parse("507f1f77"), Err(IdtError::ParseError(_))));
    assert!(matches!(ParsedObjectId::parse("507f1f77bcf86cd79943901g"), Err(IdtError::ParseError(_))));
}

#[test]
fn test_parse_components() {
    let id = "1234567890123456789";
    let parsed = ParsedSnowflake::parse(id).unwrap();
    assert!(parsed.timestamp_ms() > 0);
    assert!(parsed.datacenter_id() < 32);
    assert!(parsed.machine_id() < 32);
    assert!(parsed.sequence() < 4096);
}

#[test]
fn snowflake_fields_exact() {
    let id: u64 = (1000u64 << 22) | (3 << 17) | (5 << 12) | 7;
    let parsed = ParsedSnowflake::parse_twitter(&id.to_string()).unwrap();
    assert_eq!(parsed.timestamp_ms(), 1000 + idt::TWITTER_EPOCH);
    assert_eq!(parsed.datacenter_id(), 3);
    assert_eq!(parsed.machine_id(), 5);
    assert_eq!(parsed.sequence(), 7);
    assert_eq!(parsed.canonical(), id.to_string());
    assert_eq!(ParsedSnowflake::parse("+42").unwrap().canonical(), "42");
    assert!(matches!(ParsedSnowflake::parse("18446744073709551616"), Err(IdtError::ParseError(_))));
    assert!(matches!(ParsedSnowflake::parse("-1"), Err(IdtError::ParseError(_))));
    assert_eq!(ParsedSnowflake::parse("18446744073709551615").unwrap().id, u64::MAX);
}

#[test]
fn test_parse_uuid() {
    let input = "550e8400-e29b-41d4-a716-446655440000";
    let parsed = ParsedUuid::parse(input).unwrap();
    assert_eq!(parsed.kind(), IdKind::UuidV4);
}

#[test]
fn uuid_forms_and_fields() {
    let canonical = "550e8400-e29b-41d4-a716-446655440000";
    for form in [
        "550E8400-E29B-41D4-A716-446655440000",
        "550e8400e29b41d4a716446655440000",
        "{550e8400-e29b-41d4-a716-446655440000}",
        "urn:uuid:550e8400-e29b-41d4-a716-446655440000",
        "550e8400e29b-41d4-a716-4466554400-00",
    ] {
        assert_eq!(ParsedUuid::parse(form).unwrap().canonical(), canonical);
    }
    assert!(!is_uuid("550e8400-e29b-41d4-a716-44665544000"));
    let p = ParsedUuid::parse(canonical).unwrap();
    assert_eq!(p.variant(), "RFC4122");
    assert_eq!(p.encode(EncodingFormat::Int), u128::from_str_radix("550e8400e29b41d4a716446655440000", 16).unwrap().to_string());
    let v7 = ParsedUuid::parse("017f22e2-79b0-7cc3-98c4-dc0c0c07398f").unwrap();
    assert_eq!(v7.timestamp().unwrap().millis, 0x017f22e279b0);
    let v1 = ParsedUuid::parse("c232ab00-9414-11ec-b3c8-9f6bdeced846").unwrap();
    assert_eq!(v1.kind(), IdKind::UuidV1);
    assert_eq!(v1.timestamp().unwrap().millis, 1645557742000);
    let v6 = ParsedUuid::parse("1ec9414c-232a-6b00-b3c8-9f6bdeced846").unwrap();
    assert_eq!(v6.timestamp().unwrap().millis, 1645557742000);
}

#[test]
fn test_parse() {
    let input = "01ARZ3NDEKTSV4RRFFQ69G5FAV";
    let parsed = ParsedUlid::parse(input).unwrap();
    assert_eq!(parsed.kind(), IdKind::Ulid);
    assert!(parsed.timestamp().is_some());
}

#[test]
fn test_case_insensitive() {
    let upper = "01ARZ3NDEKTSV4RRFFQ69G5FAV";
    let lower = "01arz3ndektsv4rrffq69g5fav";
    let parsed_upper = ParsedUlid::parse(upper).unwrap();
    let parsed_lower = ParsedUlid::parse(lower).unwrap();
    assert_eq!(parsed_upper.canonical(), parsed_lower.canonical());
}

#[test]
fn ulid_timestamp_and_overflow() {
    let p = ParsedUlid::parse("01ARZ3NDEKTSV4RRFFQ69G5FAV").unwrap();
    assert_eq!(p.timestamp().unwrap().millis, 1469922850259);
    assert!(matches!(ParsedUlid::parse("81ARZ3NDEKTSV4RRFFQ69G5FAV"), Err(IdtError::ParseError(_))));
    assert!(matches!(ParsedUlid::parse("01ARZ3NDEKTSV4RRFFQ69G5FAI"), Err(IdtError::ParseError(_))));
    assert_eq!(ParsedUlid::parse("7ZZZZZZZZZZZZZZZZZZZZZZZZZ").unwrap().value, u128::MAX);
}

#[test]
fn typeid_parse_and_errors() {
    let p = ParsedTypeId::parse("user_01h455vb4pex5vsknk084sn02q").unwrap();
    assert_eq!(p.prefix, "user");
    assert_eq!(p.canonical(), "user_01h455vb4pex5vsknk084sn02q");
    assert_eq!(p.uuid_version(), 7);
    assert!(p.timestamp().is_some());
    assert!(matches!(ParsedTypeId::parse("User_01h455vb4pex5vsknk084sn02q"), Err(IdtError::ParseError(_))));
    assert!(matches!(ParsedTypeId::parse("user_01h455vb4pex5vsknk084sn02"), Err(IdtError::ParseError(_))));
    let bare = ParsedTypeId::parse("00000000000000000000000000").unwrap();
    assert_eq!(bare.prefix, "");
    assert!(bare.validate().hint.unwrap().contains("v0"));
}

#[test]
fn cuid_parse_fields() {
    let p = ParsedCuid::parse("cjld2cyuq0000t3rmniod1foy").unwrap();
    assert_eq!(p.counter_str(), "0000");
    assert_eq!(p.fingerprint_str(), "t3rm");
    assert_eq!(p.random_str(), "niod1foy");
    assert_eq!(p.timestamp_ms(), Some(u64::from_str_radix("jld2cyuq", 36).unwrap()));
    assert!(matches!(ParsedCuid::parse("xjld2cyuq0000t3rmniod1foy"), Err(IdtError::ParseError(_))));
    assert!(matches!(ParsedCuid::parse("cjld2cyuq0000t3rmniod1fo"), Err(IdtError::ParseError(_))));
}

#[test]
fn cuid2_nanoid_parse_rules() {
    assert!(matches!(ParsedCuid2::parse("1abc"), Err(IdtError::ParseError(_))));
    assert!(matches!(ParsedCuid2::parse(""), Err(IdtError::ParseError(_))));
    assert!(ParsedCuid2::parse("abc").unwrap().validate().hint.is_some());
    assert!(matches!(ParsedNanoId::parse("   "), Err(IdtError::ParseError(_))));
    assert!(ParsedNanoId::parse("x").unwrap().validate().hint.is_some());
    assert!(ParsedNanoId::parse("V1StGXR8_Z5jdHi6B-myT").unwrap().validate().hint.is_none());
}

#[test]
fn ksuid_and_xid_parse() {
    let k = ParsedKsuid::parse("0ujtsYcgvSTl8PAuAdqWYSMnLOv").unwrap();
    assert_eq!(k.canonical(), "0ujtsYcgvSTl8PAuAdqWYSMnLOv");
    assert_eq!(k.unix_timestamp_secs(), 107608047 + 1_400_000_000);
    assert!(matches!(ParsedXid::parse("9m4e2mr0ui3e8a215n4g"), Err(IdtError::ParseError(_))));
    assert!(!idt::is_xid("v0ok4kr4em39fa5ppbdu"));
    assert!(idt::is_xid("00ok4kr4em39fa5ppbdu"));
    let x = ParsedXid::parse("1m4e2mr0ui3e8a215n4g").unwrap();
    assert_eq!(x.canonical(), "1m4e2mr0ui3e8a215n4g");
    let t = ParsedTsid::parse("0ARZJQ9V8G1FC").unwrap();
    assert_eq!(t.canonical(), "0ARZJQ9V8G1FC");
}

#[test]
fn parse_id_with_hint_and_detection() {
    let p = parse_id("507f1f77bcf86cd799439011", None).unwrap();
    assert_eq!(p.kind(), IdKind::ObjectId);
    let h = parse_id("507f1f77bcf86cd799439011", Some(IdKind::NanoId)).unwrap();
    assert_eq!(h.kind(), IdKind::NanoId);
    assert!(matches!(parse_id("xyz", Some(IdKind::Ulid)), Err(IdtError::ParseError(_))));
    assert_eq!(parse_id("!!", None).unwrap_err(), IdtError::DetectionFailed);
    let u = parse_id("  550e8400-e29b-41d4-a716-446655440000 ", None).unwrap();
    assert_eq!(u.canonical(), "550e8400-e29b-41d4-a716-446655440000");
}

#[test]
fn test_ulid_uuid_conversion() {
    let text = idt::UlidGenerator::new().generate().unwrap();
    let ulid = ParsedUlid::parse(&text).unwrap().value;
    let uuid = ulid_to_uuid(ulid);
    let back = uuid_to_ulid(uuid);
    assert_eq!(ulid, back);
    assert_eq!(uuid, ulid.to_be_bytes());
}

#[test]
fn typeid_prefix_must_start_with_a_letter() {
    assert!(matches!(ParsedTypeId::parse("_user_01h455vb4pex5vsknk084sn02q"), Err(IdtError::ParseError(_))));
    assert!(ParsedTypeId::parse("user_acct_01h455vb4pex5vsknk084sn02q").is_ok());
    assert!(matches!(ParsedTypeId::parse("_01h455vb4pex5vsknk084sn02q"), Err(IdtError::ParseError(_))));
    assert!(!idt::is_typeid("_01h455vb4pex5vsknk084sn02q"));
}

#[test]
fn snowflake_discord_epoch() {
    let p = ParsedSnowflake::parse_discord("175928847299117063").unwrap();
    assert_eq!(p.epoch, idt::DISCORD_EPOCH);
    assert_eq!(p.timestamp_ms(), (175928847299117063u64 >> 22) + idt::DISCORD_EPOCH);
    assert_eq!(p.timestamp().unwrap().to_iso8601(), "2016-04-30T11:18:25.796Z");
}
