use idt::detection::{is_cuid_format, is_ksuid_format, is_tsid_format};
use idt::{detect_id_type, IdKind, IdtError};

fn chars(s: &str) -> Vec<char> {
    s.chars().collect()
}

#[test]
fn test_detect_uuidv4() {
    let results = detect_id_type("550e8400-e29b-41d4-a716-446655440000").unwrap();
    assert!(!results.is_empty());
    assert_eq!(results[0].kind, IdKind::UuidV4);
}

#[test]
fn test_detect_ulid() {
    let results = detect_id_type("01ARZ3NDEKTSV4RRFFQ69G5FAV").unwrap();
    assert!(!results.is_empty());
    assert_eq!(results[0].kind, IdKind::Ulid);
}

#[test]
fn test_detect_snowflake() {
    let results = detect_id_type("1234567890123456789").unwrap();
    assert!(!results.is_empty());
    assert_eq!(results[0].kind, IdKind::Snowflake);
}

#[test]
fn test_detect_objectid() {
    let results = detect_id_type("507f1f77bcf86cd799439011").unwrap();
    assert!(!results.is_empty());
    assert_eq!(results[0].kind, IdKind::ObjectId);
}

#[test]
fn test_detect_typeid() {
    let results = detect_id_type("user_01h455vb4pex5vsknk084sn02q").unwrap();
    assert!(!results.is_empty());
    assert_eq!(results[0].kind, IdKind::TypeId);
}

#[test]
fn test_detect_xid() {
    let results = detect_id_type("9m4e2mr0ui3e8a215n4g").unwrap();
    assert!(!results.is_empty());
    assert!(results.iter().any(|r| r.kind == IdKind::Xid));
}

#[test]
fn test_is_ksuid_format() {
    assert!(is_ksuid_format(&chars("0ujtsYcgvSTl8PAuAdqWYSMnLOv")));
}

#[test]
fn test_is_tsid_format() {
    assert!(is_tsid_format(&chars("0ARZJQ9V8G1FC")));
}

#[test]
fn test_is_cuid_format() {
    assert!(is_cuid_format(&chars("cjld2cyuq0000t3rmniod1foy")));
}

#[test]
fn objectid_outranks_cuid2_with_exact_confidences() {
    let results = detect_id_type("abcdef0123456789abcdef01").unwrap();
    let oid = results.iter().position(|r| r.kind == IdKind::ObjectId).unwrap();
    let c2 = results.iter().position(|r| r.kind == IdKind::Cuid2).unwrap();
    assert!(oid < c2);
    assert_eq!(results[oid].confidence, 85);
    assert_eq!(results[c2].confidence, 40);
}

#[test]
fn ranking_is_descending_and_stable() {
    let results = detect_id_type("abcdef0123456789abcdef01").unwrap();
    for w in results.windows(2) {
        assert!(w[0].confidence >= w[1].confidence);
    }
    let kinds: Vec<IdKind> = results.iter().map(|r| r.kind).collect();
    assert_eq!(kinds, vec![IdKind::ObjectId, IdKind::Cuid2]);
}

#[test]
fn uuid_version_and_plain_candidates() {
    let r = detect_id_type("550e8400e29b41d4a716446655440000").unwrap();
    assert_eq!(r[0].kind, IdKind::Uuid);
    assert_eq!(r[0].confidence, 70);
    let nil = detect_id_type("00000000-0000-0000-0000-000000000000").unwrap();
    assert_eq!(nil[0].kind, IdKind::UuidNil);
    assert_eq!(nil[0].confidence, 100);
    let max = detect_id_type("FFFFFFFF-ffff-FFFF-ffff-FFFFFFFFFFFF").unwrap();
    assert_eq!(max[0].kind, IdKind::UuidMax);
    let other = detect_id_type("550e8400-e29b-41d4-0716-446655440000").unwrap();
    assert_eq!(other[0].kind, IdKind::Uuid);
    assert_eq!(other[0].confidence, 90);
}

#[test]
fn detection_trims_input() {
    let r = detect_id_type("  01ARZ3NDEKTSV4RRFFQ69G5FAV \n").unwrap();
    assert_eq!(r[0].kind, IdKind::Ulid);
}

#[test]
fn detection_fails_on_unrecognised_text() {
    assert_eq!(detect_id_type("!").unwrap_err(), IdtError::DetectionFailed);
    assert_eq!(detect_id_type("").unwrap_err(), IdtError::DetectionFailed);
}
