use crate::encoding::{be_value, decimal_of, decimal_text, encode_base32, encode_base58, encode_base64, encode_bytes, encode_hex, encoded_text, hex_bytes, hex_text, EncodingFormat};
use crate::error::{IdtError, Result};
use crate::id::{ComponentValue, IdEncodings, InspectionResult, Timestamp, ValidationResult};
use crate::kind::IdKind;
use crate::text::{all_hex, is_upper, string_of_chars, trimmed, trimmed_chars};
use vstd::prelude::*;

verus! {

/// The 32 hex digits of a hyphenated (8-4-4-4-12) rendering.
pub open spec fn hyphenated_digits(s: Seq<char>) -> Option<Seq<char>> {
    if s.len() == 36 && s[8] == '-' && s[13] == '-' && s[18] == '-' && s[23] == '-' {
        let d = s.subrange(0, 8) + s.subrange(9, 13) + s.subrange(14, 18) + s.subrange(19, 23)
            + s.subrange(24, 36);
        if all_hex(d) {
            Some(d)
        } else {
            None
        }
    } else {
        None
    }
}

pub open spec fn ascii_folded(c: char) -> char {
    if is_upper(c) {
        ((c as u32 + 32) as u8) as char
    } else {
        c
    }
}

/// The text starts with `urn:uuid:` in any case.
pub open spec fn urn_prefixed(s: Seq<char>) -> bool {
    s.len() >= 9 && forall|i: int| 0 <= i < 9 ==> ascii_folded(#[trigger] s[i]) == "urn:uuid:"@[i]
}

/// The hex digits of the four textual UUID forms: simple (32 digits),
/// hyphenated, braced hyphenated, and `urn:uuid:` hyphenated.
pub open spec fn uuid_form_digits(s: Seq<char>) -> Option<Seq<char>> {
    if s.len() == 32 {
        if all_hex(s) {
            Some(s)
        } else {
            None
        }
    } else if s.len() == 36 {
        hyphenated_digits(s)
    } else if s.len() == 38 {
        if s[0] == '{' && s[37] == '}' {
            hyphenated_digits(s.subrange(1, 37))
        } else {
            None
        }
    } else if s.len() == 45 {
        if urn_prefixed(s) {
            hyphenated_digits(s.subrange(9, 45))
        } else {
            None
        }
    } else {
        None
    }
}

/// `s` with every '-' removed.
pub open spec fn without_dashes(s: Seq<char>) -> Seq<char>
    decreases s.len(),
{
    if s.len() == 0 {
        s
    } else if s.last() == '-' {
        without_dashes(s.drop_last())
    } else {
        without_dashes(s.drop_last()).push(s.last())
    }
}

/// The 16 bytes that a UUID text denotes: one of the four forms, or else 32
/// hex digits once the dashes are removed.
pub open spec fn uuid_bytes_of(s: Seq<char>) -> Option<Seq<u8>> {
    match uuid_form_digits(s) {
        Some(d) => Some(hex_bytes(d)),
        None => {
            let n = without_dashes(s);
            if n.len() == 32 && all_hex(n) {
                Some(hex_bytes(n))
            } else {
                None
            }
        },
    }
}

/// The lowercase hyphenated rendering of 16 bytes.
pub open spec fn uuid_text(b: Seq<u8>) -> Seq<char> {
    hex_text(b.subrange(0, 4), false) + seq!['-'] + hex_text(b.subrange(4, 6), false) + seq!['-']
        + hex_text(b.subrange(6, 8), false) + seq!['-'] + hex_text(b.subrange(8, 10), false)
        + seq!['-'] + hex_text(b.subrange(10, 16), false)
}

pub open spec fn all_bytes(b: Seq<u8>, x: u8) -> bool {
    forall|i: int| 0 <= i < b.len() ==> #[trigger] b[i] == x
}

/// The version: 0 for nil, 255 for max, else the high nibble of byte 6.
pub open spec fn uuid_version(b: Seq<u8>) -> u8 {
    if all_bytes(b, 0) {
        0
    } else if all_bytes(b, 255) {
        255
    } else {
        (b[6] / 16) as u8
    }
}

pub open spec fn version_kind(v: u8) -> IdKind {
    match v {
        0 => IdKind::UuidNil,
        1 => IdKind::UuidV1,
        3 => IdKind::UuidV3,
        4 => IdKind::UuidV4,
        5 => IdKind::UuidV5,
        6 => IdKind::UuidV6,
        7 => IdKind::UuidV7,
        255 => IdKind::UuidMax,
        _ => IdKind::Uuid,
    }
}

/// The variant family named by byte 8.
pub open spec fn variant_name(b8: u8) -> Seq<char> {
    if b8 < 0x80 {
        "NCS"@
    } else if b8 < 0xc0 {
        "RFC4122"@
    } else if b8 < 0xe0 {
        "Microsoft"@
    } else {
        "Future"@
    }
}

pub open spec fn gregorian_offset() -> nat {
    0x01B2_1DD2_1381_4000
}

/// Milliseconds since the Unix epoch of a count of 100 ns ticks since
/// 1582-10-15, the difference taken modulo 2^64.
pub open spec fn gregorian_millis(ticks: nat) -> nat {
    let w = (ticks + 0x1_0000_0000_0000_0000 - gregorian_offset()) % 0x1_0000_0000_0000_0000;
    ((w / 10_000_000) * 1000 + (w % 10_000_000) / 10_000) as nat
}

pub open spec fn v1_ticks(b: Seq<u8>) -> nat {
    ((b[6] % 16) as nat) * 0x100_0000_0000_0000 + (b[7] as nat) * 0x1_0000_0000_0000 + (b[4] as nat)
        * 0x100_0000_0000 + (b[5] as nat) * 0x1_0000_0000 + (b[0] as nat) * 0x100_0000 + (b[1] as nat)
        * 0x1_0000 + (b[2] as nat) * 0x100 + b[3] as nat
}

pub open spec fn v6_ticks(b: Seq<u8>) -> nat {
    (b[0] as nat) * 0x10_0000_0000_0000 + (b[1] as nat) * 0x1000_0000_0000 + (b[2] as nat)
        * 0x10_0000_0000 + (b[3] as nat) * 0x1000_0000 + (b[4] as nat) * 0x10_0000 + (b[5] as nat)
        * 0x1000 + ((b[6] % 16) as nat) * 0x100 + b[7] as nat
}

pub open spec fn v7_millis(b: Seq<u8>) -> nat {
    (b[0] as nat) * 0x100_0000_0000 + (b[1] as nat) * 0x1_0000_0000 + (b[2] as nat) * 0x100_0000
        + (b[3] as nat) * 0x1_0000 + (b[4] as nat) * 0x100 + b[5] as nat
}

/// The embedded time of a UUID of version 1, 6 or 7.
pub open spec fn uuid_timestamp(b: Seq<u8>) -> Option<nat> {
    let v = uuid_version(b);
    if v == 1 {
        Some(gregorian_millis(v1_ticks(b)))
    } else if v == 6 {
        Some(gregorian_millis(v6_ticks(b)))
    } else if v == 7 {
        Some(v7_millis(b))
    } else {
        None
    }
}

pub uninterp spec fn uuid_v3_of(namespace: Seq<u8>, name: Seq<u8>) -> Seq<u8>;

pub uninterp spec fn uuid_v5_of(namespace: Seq<u8>, name: Seq<u8>) -> Seq<u8>;

/// Relies on `uuid::Uuid::parse_str`, which accepts the simple, hyphenated,
/// braced and URN forms in either case and decodes their hex digits.
#[verifier::external_body]
fn uuid_parse_str(s: &str) -> (r: Option<[u8; 16]>)
    ensures
        r is Some <==> uuid_form_digits(s@) is Some,
        r matches Some(b) ==> (uuid_form_digits(s@) matches Some(d) && b@ == hex_bytes(d)),
{
    uuid::Uuid::parse_str(s).ok().map(|u| *u.as_bytes())
}

/// Relies on the `Display` of `uuid::Uuid`: lowercase hyphenated hex.
#[verifier::external_body]
pub(crate) fn uuid_display(b: [u8; 16]) -> (r: String)
    ensures
        r@ == uuid_text(b@),
{
    uuid::Uuid::from_bytes(b).to_string()
}

/// Relies on `uuid::Uuid::new_v4`: random bits with version 4 and the
/// RFC 4122 variant.
#[verifier::external_body]
fn uuid_new_v4() -> (r: [u8; 16])
    ensures
        r@[6] / 16 == 4,
        r@[8] / 64 == 2,
{
    *uuid::Uuid::new_v4().as_bytes()
}

/// Relies on `uuid::Uuid::now_v7`: the current Unix time in milliseconds and
/// random bits, with version 7 and the RFC 4122 variant.
#[verifier::external_body]
pub(crate) fn uuid_now_v7() -> (r: [u8; 16])
    ensures
        r@[6] / 16 == 7,
        r@[8] / 64 == 2,
{
    *uuid::Uuid::now_v7().as_bytes()
}

/// Relies on `uuid::Uuid::now_v1`: the current time and the given node, with
/// version 1 and the RFC 4122 variant.
#[verifier::external_body]
fn uuid_now_v1(node: [u8; 6]) -> (r: [u8; 16])
    ensures
        r@[6] / 16 == 1,
        r@[8] / 64 == 2,
        r@.subrange(10, 16) == node@,
{
    *uuid::Uuid::now_v1(&node).as_bytes()
}

/// Relies on `uuid::Uuid::now_v6`: the current time and the given node, with
/// version 6 and the RFC 4122 variant.
#[verifier::external_body]
fn uuid_now_v6(node: [u8; 6]) -> (r: [u8; 16])
    ensures
        r@[6] / 16 == 6,
        r@[8] / 64 == 2,
        r@.subrange(10, 16) == node@,
{
    *uuid::Uuid::now_v6(&node).as_bytes()
}

/// Relies on `uuid::Uuid::new_v3`: the MD5 name-based UUID, which depends on
/// the namespace and the name alone, with version 3 and the RFC 4122 variant.
#[verifier::external_body]
fn uuid_new_v3(namespace: [u8; 16], name: &[u8]) -> (r: [u8; 16])
    ensures
        r@ == uuid_v3_of(namespace@, name@),
        r@[6] / 16 == 3,
        r@[8] / 64 == 2,
{
    *uuid::Uuid::new_v3(&uuid::Uuid::from_bytes(namespace), name).as_bytes()
}

/// Relies on `uuid::Uuid::new_v5`: the SHA-1 name-based UUID, which depends on
/// the namespace and the name alone, with version 5 and the RFC 4122 variant.
#[verifier::external_body]
fn uuid_new_v5(namespace: [u8; 16], name: &[u8]) -> (r: [u8; 16])
    ensures
        r@ == uuid_v5_of(namespace@, name@),
        r@[6] / 16 == 5,
        r@[8] / 64 == 2,
{
    *uuid::Uuid::new_v5(&uuid::Uuid::from_bytes(namespace), name).as_bytes()
}

/// What a UUID renders as in each re-encoding format.
pub open spec fn uuid_encoded(b: Seq<u8>, f: EncodingFormat) -> Seq<char> {
    if f == EncodingFormat::Canonical {
        uuid_text(b)
    } else {
        encoded_text(b, f)
    }
}

fn remove_dashes(t: &Vec<char>) -> (r: Vec<char>)
    ensures
        r@ == without_dashes(t@),
{
    let mut out: Vec<char> = Vec::new();
    let mut i: usize = 0;
    while i < t.len()
        invariant
            i <= t@.len(),
            out@ == without_dashes(t@.subrange(0, i as int)),
        decreases t@.len() - i,
    {
        assert(t@.subrange(0, i + 1).drop_last() =~= t@.subrange(0, i as int));
        if t[i] != '-' {
            out.push(t[i]);
        }
        i = i + 1;
    }
    assert(t@.subrange(0, t@.len() as int) =~= t@);
    out
}

fn all_bytes_equal(b: &[u8; 16], x: u8) -> (r: bool)
    ensures
        r == all_bytes(b@, x),
{
    let mut i: usize = 0;
    while i < 16
        invariant
            b@.len() == 16,
            i <= 16,
            forall|j: int| 0 <= j < i ==> #[trigger] b@[j] == x,
        decreases 16 - i,
    {
        if b[i] != x {
            return false;
        }
        i = i + 1;
    }
    true
}

fn gregorian_to_millis(ticks: u64) -> (r: u64)
    ensures
        r as nat == gregorian_millis(ticks as nat),
{
    let w: u64 = if ticks >= 0x01B2_1DD2_1381_4000 {
        ticks - 0x01B2_1DD2_1381_4000
    } else {
        (ticks as u128 + 0x1_0000_0000_0000_0000 - 0x01B2_1DD2_1381_4000) as u64
    };
    (w / 10_000_000) * 1000 + (w % 10_000_000) / 10_000
}

/// A parsed UUID.
#[derive(Debug)]
pub struct ParsedUuid {
    pub bytes: [u8; 16],
    pub input: String,
}

impl ParsedUuid {
    pub fn parse(input: &str) -> (r: Result<ParsedUuid>)
        ensures
            r is Ok <==> uuid_bytes_of(trimmed(input@)) is Some,
            r matches Ok(p) ==> (uuid_bytes_of(trimmed(input@)) == Some(p.bytes@) && p.input@
                == trimmed(input@)),
            r matches Err(e) ==> e is ParseError,
    {
        let t = trimmed_chars(input);
        let ts = string_of_chars(&t);
        match uuid_parse_str(ts.as_str()) {
            Some(bytes) => {
                return Ok(ParsedUuid { bytes, input: ts });
            },
            None => {},
        }
        let n = remove_dashes(&t);
        if n.len() == 32 {
            let ns = string_of_chars(&n);
            match uuid_parse_str(ns.as_str()) {
                Some(bytes) => {
                    return Ok(ParsedUuid { bytes, input: ts });
                },
                None => {},
            }
        }
        Err(IdtError::ParseError("Invalid UUID".to_owned()))
    }

    pub fn version(&self) -> (r: u8)
        ensures
            r == uuid_version(self.bytes@),
    {
        if all_bytes_equal(&self.bytes, 0) {
            0
        } else if all_bytes_equal(&self.bytes, 255) {
            255
        } else {
            self.bytes[6] / 16
        }
    }

    pub fn variant(&self) -> (r: &'static str)
        ensures
            r@ == variant_name(self.bytes@[8]),
    {
        let b = self.bytes[8];
        if b < 0x80 {
            "NCS"
        } else if b < 0xc0 {
            "RFC4122"
        } else if b < 0xe0 {
            "Microsoft"
        } else {
            "Future"
        }
    }

    pub fn kind(&self) -> (r: IdKind)
        ensures
            r == version_kind(uuid_version(self.bytes@)),
    {
        match self.version() {
            0 => IdKind::UuidNil,
            1 => IdKind::UuidV1,
            3 => IdKind::UuidV3,
            4 => IdKind::UuidV4,
            5 => IdKind::UuidV5,
            6 => IdKind::UuidV6,
            7 => IdKind::UuidV7,
            255 => IdKind::UuidMax,
            _ => IdKind::Uuid,
        }
    }

    pub fn canonical(&self) -> (r: String)
        ensures
            r@ == uuid_text(self.bytes@),
    {
        uuid_display(self.bytes)
    }

    pub fn as_bytes(&self) -> (r: Vec<u8>)
        ensures
            r@ == self.bytes@,
    {
        let mut v: Vec<u8> = Vec::new();
        let mut i: usize = 0;
        while i < 16
            invariant
                self.bytes@.len() == 16,
                i <= 16,
                v@ == self.bytes@.subrange(0, i as int),
            decreases 16 - i,
        {
            v.push(self.bytes[i]);
            i = i + 1;
        }
        assert(v@ =~= self.bytes@);
        v
    }

    pub fn timestamp(&self) -> (r: Option<Timestamp>)
        ensures
            r matches Some(t) ==> uuid_timestamp(self.bytes@) == Some(t.millis as nat),
            r is None <==> uuid_timestamp(self.bytes@) is None,
    {
        let b = &self.bytes;
        let v = self.version();
        if v == 1 {
            let ticks: u64 = ((b[6] % 16) as u64) * 0x100_0000_0000_0000 + (b[7] as u64)
                * 0x1_0000_0000_0000 + (b[4] as u64) * 0x100_0000_0000 + (b[5] as u64)
                * 0x1_0000_0000 + (b[0] as u64) * 0x100_0000 + (b[1] as u64) * 0x1_0000
                + (b[2] as u64) * 0x100 + b[3] as u64;
            Some(Timestamp::new(gregorian_to_millis(ticks)))
        } else if v == 6 {
            let ticks: u64 = (b[0] as u64) * 0x10_0000_0000_0000 + (b[1] as u64)
                * 0x1000_0000_0000 + (b[2] as u64) * 0x10_0000_0000 + (b[3] as u64)
                * 0x1000_0000 + (b[4] as u64) * 0x10_0000 + (b[5] as u64) * 0x1000 + ((b[6]
                % 16) as u64) * 0x100 + b[7] as u64;
            Some(Timestamp::new(gregorian_to_millis(ticks)))
        } else if v == 7 {
            let ms: u64 = (b[0] as u64) * 0x100_0000_0000 + (b[1] as u64) * 0x1_0000_0000
                + (b[2] as u64) * 0x100_0000 + (b[3] as u64) * 0x1_0000 + (b[4] as u64) * 0x100
                + b[5] as u64;
            Some(Timestamp::new(ms))
        } else {
            None
        }
    }

    pub fn validate(&self) -> (r: ValidationResult)
        ensures
            r.valid,
            r.id_type matches Some(t) && t@ == crate::kind::kind_name(
                version_kind(uuid_version(self.bytes@)),
            ),
    {
        ValidationResult::valid(self.kind().name())
    }

    pub fn encode(&self, format: EncodingFormat) -> (r: String)
        ensures
            r@ == uuid_encoded(self.bytes@, format),
    {
        if format == EncodingFormat::Canonical {
            self.canonical()
        } else {
            let bytes = self.as_bytes();
            encode_bytes(bytes.as_slice(), format)
        }
    }

    pub fn inspect(&self) -> (r: InspectionResult)
        ensures
            r.id_type@ == crate::kind::kind_name(version_kind(uuid_version(self.bytes@))),
            r.canonical@ == uuid_text(self.bytes@),
            r.input == self.input,
            r.valid,
            r.timestamp matches Some(t) ==> uuid_timestamp(self.bytes@) == Some(t.millis as nat),
            r.timestamp is None <==> uuid_timestamp(self.bytes@) is None,
            r.random_bits == (match uuid_version(self.bytes@) {
                4 => Some(122u32),
                7 => Some(62u32),
                1 | 6 => Some(14u32),
                _ => None,
            }),
            r.encodings.hex@ == hex_text(self.bytes@, false),
            r.encodings.base32@ == crate::encoding::base32_of(self.bytes@),
            r.encodings.base58@ == crate::encoding::base58_of(self.bytes@),
            r.encodings.base64@ == crate::encoding::base64_of(self.bytes@),
            r.encodings.int matches Some(t) && t@ == decimal_of(be_value(self.bytes@)),
            r.timestamp is None ==> r.timestamp_iso is None,
            r.timestamp matches Some(t) ==> (r.timestamp_iso matches Some(x) && x@ == crate::id::iso_text(t.millis)),
    {
        let bytes = self.as_bytes();
        let version = self.version();
        let timestamp = self.timestamp();
        let mut components: Vec<(String, ComponentValue)> = Vec::new();
        components.push(("version".to_owned(), ComponentValue::Number(version as u128)));
        components.push(("variant".to_owned(), ComponentValue::Text(self.variant().to_owned())));
        let mut timestamp_iso: Option<String> = None;
        match timestamp {
            Some(ts) => {
                components.push(("timestamp_ms".to_owned(), ComponentValue::Number(ts.millis as u128)));
                timestamp_iso = Some(ts.to_iso8601());
            },
            None => {},
        }
        let random_bits: Option<u32> = match version {
            4 => Some(122),
            7 => Some(62),
            1 | 6 => Some(14),
            _ => None,
        };
        let int_value = match crate::encoding::bytes_to_u128(bytes.as_slice()) {
            Some(n) => n,
            None => 0,
        };
        InspectionResult {
            id_type: self.kind().name().to_owned(),
            input: self.input.clone(),
            canonical: self.canonical(),
            valid: true,
            timestamp,
            timestamp_iso,
            timestamp_local_iso: None,
            version: Some(decimal_text(version as u128)),
            variant: Some(self.variant().to_owned()),
            random_bits,
            components: Some(components),
            encodings: IdEncodings {
                hex: encode_hex(bytes.as_slice()),
                base32: encode_base32(bytes.as_slice()),
                base58: encode_base58(bytes.as_slice()),
                base64: encode_base64(bytes.as_slice()),
                int: Some(decimal_text(int_value)),
            },
        }
    }
}

/// Whether a text parses as a UUID.
pub fn is_uuid(input: &str) -> (r: bool)
    ensures
        r == uuid_bytes_of(trimmed(input@)) is Some,
{
    ParsedUuid::parse(input).is_ok()
}

/// The DNS namespace of RFC 4122.
pub open spec fn namespace_dns() -> Seq<u8> {
    seq![0x6bu8, 0xa7, 0xb8, 0x10, 0x9d, 0xad, 0x11, 0xd1, 0x80, 0xb4, 0x00, 0xc0, 0x4f, 0xd4, 0x30, 0xc8]
}

/// The node id written into time-based UUIDs.
pub open spec fn fixed_node() -> Seq<u8> {
    seq![0x00u8, 0x11, 0x22, 0x33, 0x44, 0x55]
}

/// What the generator of a given version may produce.
pub open spec fn uuid_generated(version: u8, namespace: Seq<u8>, name: Seq<u8>, b: Seq<u8>) -> bool {
    b.len() == 16 && match version {
        0 => all_bytes(b, 0),
        255 => all_bytes(b, 255),
        1 => b[6] / 16 == 1 && b[8] / 64 == 2 && b.subrange(10, 16) == fixed_node(),
        3 => b == uuid_v3_of(namespace, name) && b[6] / 16 == 3 && b[8] / 64 == 2,
        4 => b[6] / 16 == 4 && b[8] / 64 == 2,
        5 => b == uuid_v5_of(namespace, name) && b[6] / 16 == 5 && b[8] / 64 == 2,
        6 => b[6] / 16 == 6 && b[8] / 64 == 2 && b.subrange(10, 16) == fixed_node(),
        7 => b[6] / 16 == 7 && b[8] / 64 == 2,
        _ => false,
    }
}

/// UUID generator for one version.
#[derive(Debug)]
pub struct UuidGenerator {
    pub version: u8,
    pub namespace: Option<[u8; 16]>,
    pub name: Option<String>,
}

impl Default for UuidGenerator {
    fn default() -> (r: UuidGenerator)
        ensures
            r.version == 4,
            r.namespace is None,
            r.name is None,
    {
        UuidGenerator { version: 4, namespace: None, name: None }
    }
}

impl UuidGenerator {
    pub fn new(version: u8) -> (r: UuidGenerator)
        ensures
            r.version == version,
            r.namespace is None,
            r.name is None,
    {
        UuidGenerator { version, namespace: None, name: None }
    }

    pub fn v1() -> (r: UuidGenerator)
        ensures
            r.version == 1,
            r.namespace is None,
            r.name is None,
    {
        Self::new(1)
    }

    pub fn v4() -> (r: UuidGenerator)
        ensures
            r.version == 4,
            r.namespace is None,
            r.name is None,
    {
        Self::new(4)
    }

    pub fn v6() -> (r: UuidGenerator)
        ensures
            r.version == 6,
            r.namespace is None,
            r.name is None,
    {
        Self::new(6)
    }

    pub fn v7() -> (r: UuidGenerator)
        ensures
            r.version == 7,
            r.namespace is None,
            r.name is None,
    {
        Self::new(7)
    }

    pub fn nil() -> (r: UuidGenerator)
        ensures
            r.version == 0,
            r.namespace is None,
            r.name is None,
    {
        Self::new(0)
    }

    pub fn max() -> (r: UuidGenerator)
        ensures
            r.version == 255,
            r.namespace is None,
            r.name is None,
    {
        Self::new(255)
    }

    pub fn with_namespace(self, namespace: [u8; 16]) -> (r: UuidGenerator)
        ensures
            r.version == self.version,
            r.namespace == Some(namespace),
            r.name == self.name,
    {
        UuidGenerator { namespace: Some(namespace), ..self }
    }

    pub fn with_name(self, name: String) -> (r: UuidGenerator)
        ensures
            r.version == self.version,
            r.namespace == self.namespace,
            r.name == Some(name),
    {
        UuidGenerator { name: Some(name), ..self }
    }

    /// The namespace and name that versions 3 and 5 hash.
    pub open spec fn hash_inputs(&self) -> (Seq<u8>, Seq<u8>) {
        (
            match self.namespace {
                Some(n) => n@,
                None => namespace_dns(),
            },
            match self.name {
                Some(n) => vstd::utf8::encode_utf8(n@),
                None => vstd::utf8::encode_utf8("example.com"@),
            },
        )
    }

    /// A fresh UUID of this generator's version, rendered lowercase and
    /// hyphenated; versions other than 0, 1, 3, 4, 5, 6, 7 and 255 are refused.
    pub fn generate(&self) -> (r: Result<String>)
        ensures
            r is Ok <==> (self.version == 0 || self.version == 1 || self.version == 3
                || self.version == 4 || self.version == 5 || self.version == 6
                || self.version == 7 || self.version == 255),
            r matches Ok(s) ==> exists|b: Seq<u8>|
                uuid_generated(self.version, self.hash_inputs().0, self.hash_inputs().1, b)
                    && s@ == uuid_text(b),
            r matches Err(e) ==> e is InvalidArgument,
    {
        let node: [u8; 6] = [0x00, 0x11, 0x22, 0x33, 0x44, 0x55];
        assert(node@ =~= fixed_node());
        let bytes: [u8; 16] = match self.version {
            0 => [0u8; 16],
            255 => [255u8; 16],
            1 => uuid_now_v1(node),
            4 => uuid_new_v4(),
            6 => uuid_now_v6(node),
            7 => uuid_now_v7(),
            3 | 5 => {
                let ns: [u8; 16] = match self.namespace {
                    Some(n) => n,
                    None => [0x6b, 0xa7, 0xb8, 0x10, 0x9d, 0xad, 0x11, 0xd1, 0x80, 0xb4, 0x00, 0xc0, 0x4f, 0xd4, 0x30, 0xc8],
                };
                assert(self.namespace is None ==> ns@ =~= namespace_dns());
                let name: &str = match &self.name {
                    Some(n) => n.as_str(),
                    None => "example.com",
                };
                if self.version == 3 {
                    uuid_new_v3(ns, name.as_bytes())
                } else {
                    uuid_new_v5(ns, name.as_bytes())
                }
            },
            _ => {
                return Err(IdtError::InvalidArgument("Unsupported UUID version".to_owned()));
            },
        };
        Ok(uuid_display(bytes))
    }
}

/// Every 16 bytes come back from their canonical text.
pub proof fn lemma_uuid_round_trip(b: Seq<u8>)
    requires
        b.len() == 16,
    ensures
        uuid_bytes_of(uuid_text(b)) == Some(b),
{
    let seg0 = b.subrange(0, 4);
    let seg1 = b.subrange(4, 6);
    let seg2 = b.subrange(6, 8);
    let seg3 = b.subrange(8, 10);
    let seg4 = b.subrange(10, 16);
    crate::encoding::lemma_hex_text_index(seg0);
    crate::encoding::lemma_hex_text_index(seg1);
    crate::encoding::lemma_hex_text_index(seg2);
    crate::encoding::lemma_hex_text_index(seg3);
    crate::encoding::lemma_hex_text_index(seg4);
    let t = uuid_text(b);
    let h0 = hex_text(seg0, false);
    let h1 = hex_text(seg1, false);
    let h2 = hex_text(seg2, false);
    let h3 = hex_text(seg3, false);
    let h4 = hex_text(seg4, false);
    assert(t.len() == 36);
    assert(t[8] == '-' && t[13] == '-' && t[18] == '-' && t[23] == '-');
    assert(t.subrange(0, 8) =~= h0);
    assert(t.subrange(9, 13) =~= h1);
    assert(t.subrange(14, 18) =~= h2);
    assert(t.subrange(19, 23) =~= h3);
    assert(t.subrange(24, 36) =~= h4);
    crate::encoding::lemma_hex_text_concat(seg0, seg1);
    crate::encoding::lemma_hex_text_concat(seg0 + seg1, seg2);
    crate::encoding::lemma_hex_text_concat(seg0 + seg1 + seg2, seg3);
    crate::encoding::lemma_hex_text_concat(seg0 + seg1 + seg2 + seg3, seg4);
    assert(seg0 + seg1 + seg2 + seg3 + seg4 =~= b);
    crate::encoding::lemma_hex_round_trip(b);
}

/// Folding ASCII letters to lowercase leaves hex digits hex and keeps their
/// value.
proof fn lemma_fold_hex(c: char)
    ensures
        crate::text::is_hex_char(c) == crate::text::is_hex_char(ascii_folded(c)),
        crate::text::is_hex_char(c) ==> crate::encoding::hex_value(c) == crate::encoding::hex_value(
            ascii_folded(c),
        ),
        (ascii_folded(c) == '-') == (c == '-'),
{
}

/// Two texts that differ only in the case of ASCII letters.
pub open spec fn same_up_to_case(a: Seq<char>, b: Seq<char>) -> bool {
    a.len() == b.len() && forall|i: int| 0 <= i < a.len() ==> #[trigger] ascii_folded(a[i]) == ascii_folded(b[i])
}

/// A hyphenated UUID and any rendering of it that differs only in letter
/// case denote the same bytes.
pub proof fn lemma_uuid_case_insensitive(a: Seq<char>, b: Seq<char>)
    requires
        hyphenated_digits(a) is Some,
        same_up_to_case(a, b),
    ensures
        uuid_bytes_of(a) == uuid_bytes_of(b),
        uuid_bytes_of(a) is Some,
{
    assert forall|i: int| 0 <= i < a.len() implies (a[i] == '-') == (b[i] == '-') && (crate::text::is_hex_char(a[i])
        == crate::text::is_hex_char(b[i])) by {
        lemma_fold_hex(a[i]);
        lemma_fold_hex(b[i]);
        assert(ascii_folded(a[i]) == ascii_folded(b[i]));
    }
    let da = hyphenated_digits(a)->0;
    let sb = b.subrange(0, 8) + b.subrange(9, 13) + b.subrange(14, 18) + b.subrange(19, 23) + b.subrange(24, 36);
    assert(da.len() == 32 && sb.len() == 32);
    assert forall|k: int| 0 <= k < 32 implies crate::text::is_hex_char(#[trigger] sb[k]) && crate::encoding::hex_value(sb[k])
        == crate::encoding::hex_value(da[k]) by {
        let i = if k < 8 {
            k
        } else if k < 12 {
            k + 1
        } else if k < 16 {
            k + 2
        } else if k < 20 {
            k + 3
        } else {
            k + 4
        };
        assert(da[k] == a[i]);
        assert(sb[k] == b[i]);
        assert(crate::text::is_hex_char(a[i]));
        lemma_fold_hex(a[i]);
        lemma_fold_hex(b[i]);
        assert(ascii_folded(a[i]) == ascii_folded(b[i]));
    }
    assert(hyphenated_digits(b) == Some(sb));
    assert(hex_bytes(da) =~= hex_bytes(sb));
}

/// The 32 hex digits of a UUID, with or without the four dashes, denote the
/// same bytes.
pub proof fn lemma_uuid_dashes_optional(d: Seq<char>)
    requires
        d.len() == 32,
        all_hex(d),
    ensures
        uuid_bytes_of(
            d.subrange(0, 8) + seq!['-'] + d.subrange(8, 12) + seq!['-'] + d.subrange(12, 16) + seq!['-']
                + d.subrange(16, 20) + seq!['-'] + d.subrange(20, 32),
        ) == uuid_bytes_of(d),
        uuid_bytes_of(d) == Some(hex_bytes(d)),
{
    let h = d.subrange(0, 8) + seq!['-'] + d.subrange(8, 12) + seq!['-'] + d.subrange(12, 16) + seq!['-']
        + d.subrange(16, 20) + seq!['-'] + d.subrange(20, 32);
    assert(h.len() == 36);
    assert(h[8] == '-' && h[13] == '-' && h[18] == '-' && h[23] == '-');
    assert(h.subrange(0, 8) + h.subrange(9, 13) + h.subrange(14, 18) + h.subrange(19, 23) + h.subrange(24, 36)
        =~= d);
}

} // verus!
