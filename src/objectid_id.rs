use crate::encoding::{
    decode_hex, encode_base32, encode_base58, encode_base64, encode_bytes, encode_hex,
    encoded_text, hex_bytes, hex_text, EncodingFormat,
};
use crate::error::{IdtError, Result};
use crate::id::{not_ahead, current_timestamp_secs, ComponentValue, IdEncodings, InspectionResult, Timestamp, ValidationResult};
use crate::kind::IdKind;
use crate::text::{all_hex, all_hex_chars, string_of_chars, trimmed, trimmed_chars};
use vstd::prelude::*;

verus! {

/// Whether a text is an ObjectId: 24 hex digits, either case.
pub open spec fn objectid_decodes(s: Seq<char>) -> bool {
    s.len() == 24 && all_hex(s)
}

/// The twelve-byte ObjectId layout: four bytes of seconds, five bytes of
/// per-process randomness, and the low 24 bits of the counter.
pub open spec fn objectid_layout(secs: nat, random: Seq<u8>, counter: nat) -> Seq<u8> {
    let t = secs % 0x1_0000_0000;
    let c = counter % 0x100_0000;
    seq![
        (t / 0x100_0000) as u8,
        ((t / 0x1_0000) % 256) as u8,
        ((t / 0x100) % 256) as u8,
        (t % 256) as u8,
        random[0],
        random[1],
        random[2],
        random[3],
        random[4],
        (c / 0x1_0000) as u8,
        ((c / 0x100) % 256) as u8,
        (c % 256) as u8,
    ]
}

/// ObjectId generator: five random bytes fixed per generator, and a counter
/// seeded at random that advances by one per identifier.
#[derive(Debug)]
pub struct ObjectIdGenerator {
    pub process_random: [u8; 5],
    pub counter: u32,
}

impl ObjectIdGenerator {
    pub fn new() -> (r: ObjectIdGenerator)
        ensures
            r.counter < 0x100_0000,
    {
        let m = crate::random::random_bytes(5);
        let process_random: [u8; 5] = [m[0], m[1], m[2], m[3], m[4]];
        let counter = (crate::random::random_u64() % 0x100_0000) as u32;
        ObjectIdGenerator { process_random, counter }
    }

    /// The next counter value (24 bits); the counter wraps at 2^32.
    pub fn next_counter(&mut self) -> (r: u32)
        ensures
            r == old(self).counter % 0x100_0000,
            final(self).counter as nat == (old(self).counter as nat + 1) % 0x1_0000_0000,
            final(self).process_random == old(self).process_random,
    {
        let c = self.counter;
        self.counter = if c == u32::MAX {
            0
        } else {
            c + 1
        };
        c % 0x100_0000
    }

    /// The ObjectId for a clock reading in seconds.
    pub fn generate_at(&mut self, now_secs: u64) -> (r: String)
        ensures
            r@ == hex_text(
                objectid_layout(now_secs as nat, old(self).process_random@, old(self).counter as nat),
                false,
            ),
            final(self).counter as nat == (old(self).counter as nat + 1) % 0x1_0000_0000,
            final(self).process_random == old(self).process_random,
    {
        let t = now_secs % 0x1_0000_0000;
        let counter = self.next_counter();
        let m = self.process_random;
        let bytes: Vec<u8> = vec![
            (t / 0x100_0000) as u8,
            ((t / 0x1_0000) % 256) as u8,
            ((t / 0x100) % 256) as u8,
            (t % 256) as u8,
            m[0],
            m[1],
            m[2],
            m[3],
            m[4],
            (counter / 0x1_0000) as u8,
            ((counter / 0x100) % 256) as u8,
            (counter % 256) as u8,
        ];
        assert(bytes@ =~= objectid_layout(now_secs as nat, old(self).process_random@, old(self).counter as nat));
        encode_hex(bytes.as_slice())
    }

    pub fn generate(&mut self) -> (r: Result<String>)
        ensures
            r matches Ok(s) ==> exists|t: nat| s@ == hex_text(
                objectid_layout(t, old(self).process_random@, old(self).counter as nat),
                false,
            ),
            final(self).counter as nat == (old(self).counter as nat + 1) % 0x1_0000_0000,
            final(self).process_random == old(self).process_random,
            r is Ok,
    {
        let now = current_timestamp_secs();
        Ok(self.generate_at(now))
    }
}

/// What an ObjectId renders as in each re-encoding format.
pub open spec fn objectid_encoded(b: Seq<u8>, f: EncodingFormat) -> Seq<char> {
    if f == EncodingFormat::Canonical {
        hex_text(b, false)
    } else {
        encoded_text(b, f)
    }
}

pub open spec fn oid_seconds(b: Seq<u8>) -> nat {
    (b[0] as nat) * 0x100_0000 + (b[1] as nat) * 0x1_0000 + (b[2] as nat) * 0x100 + b[3] as nat
}

/// A parsed ObjectId.
#[derive(Debug)]
pub struct ParsedObjectId {
    pub bytes: Vec<u8>,
    pub input: String,
}

impl ParsedObjectId {
    pub fn parse(input: &str) -> (r: Result<ParsedObjectId>)
        ensures
            r is Ok <==> objectid_decodes(trimmed(input@)),
            r matches Ok(p) ==> (p.bytes@ == hex_bytes(trimmed(input@)) && p.input@ == trimmed(
                input@,
            ) && p.bytes@.len() == 12),
            r matches Err(e) ==> e is ParseError,
    {
        let t = trimmed_chars(input);
        if t.len() != 24 {
            return Err(IdtError::ParseError("ObjectId must be 24 hex characters".to_owned()));
        }
        if !all_hex_chars(&t) {
            return Err(IdtError::ParseError("ObjectId must contain only hex characters".to_owned()));
        }
        let ts = string_of_chars(&t);
        match decode_hex(ts.as_str()) {
            Ok(bytes) => Ok(ParsedObjectId { bytes, input: ts }),
            Err(_) => Err(IdtError::ParseError("Invalid ObjectId hex".to_owned())),
        }
    }

    pub fn timestamp_secs(&self) -> (r: u32)
        requires
            self.bytes@.len() == 12,
        ensures
            r as nat == oid_seconds(self.bytes@),
    {
        let b = &self.bytes;
        (b[0] as u32) * 0x100_0000 + (b[1] as u32) * 0x1_0000 + (b[2] as u32) * 0x100 + b[3] as u32
    }

    pub fn counter(&self) -> (r: u32)
        requires
            self.bytes@.len() == 12,
        ensures
            r as nat == (self.bytes@[9] as nat) * 0x1_0000 + (self.bytes@[10] as nat) * 0x100
                + self.bytes@[11] as nat,
    {
        (self.bytes[9] as u32) * 0x1_0000 + (self.bytes[10] as u32) * 0x100 + self.bytes[11] as u32
    }

    pub fn kind(&self) -> (r: IdKind)
        ensures
            r == IdKind::ObjectId,
    {
        IdKind::ObjectId
    }

    pub fn canonical(&self) -> (r: String)
        ensures
            r@ == hex_text(self.bytes@, false),
    {
        encode_hex(self.bytes.as_slice())
    }

    pub fn as_bytes(&self) -> (r: Vec<u8>)
        ensures
            r@ == self.bytes@,
    {
        self.bytes.clone()
    }

    pub fn timestamp(&self) -> (r: Option<Timestamp>)
        requires
            self.bytes@.len() == 12,
        ensures
            r == Some(Timestamp { millis: (oid_seconds(self.bytes@) * 1000) as u64 }),
    {
        Some(Timestamp::from_secs(self.timestamp_secs() as u64))
    }

    /// Valid unless the embedded time is more than a day after `now_secs`.
    pub fn validate_at(&self, now_secs: u64) -> (r: ValidationResult)
        requires
            self.bytes@.len() == 12,
        ensures
            r.valid == not_ahead(oid_seconds(self.bytes@), (now_secs % 0x1_0000_0000) as nat, 86400),
            r.valid ==> (r.id_type matches Some(t) && t@ == "objectid"@),
            !r.valid ==> (r.error matches Some(t) && t@ == "Timestamp is in the future"@),
    {
        let ts = self.timestamp_secs() as u64;
        if ts > (now_secs % 0x1_0000_0000) + 86400 {
            ValidationResult::invalid("Timestamp is in the future")
        } else {
            ValidationResult::valid("objectid")
        }
    }

    pub fn validate(&self) -> (r: ValidationResult)
        requires
            self.bytes@.len() == 12,
        ensures
            exists|now: u64| r.valid == #[trigger] not_ahead(oid_seconds(self.bytes@), (now % 0x1_0000_0000) as nat, 86400),
            r.valid ==> (r.id_type matches Some(t) && t@ == "objectid"@),
            !r.valid ==> (r.error matches Some(t) && t@ == "Timestamp is in the future"@),
    {
        self.validate_at(current_timestamp_secs())
    }

    pub fn encode(&self, format: EncodingFormat) -> (r: String)
        ensures
            r@ == objectid_encoded(self.bytes@, format),
    {
        if format == EncodingFormat::Canonical {
            self.canonical()
        } else {
            encode_bytes(self.bytes.as_slice(), format)
        }
    }

    pub fn inspect(&self) -> (r: InspectionResult)
        requires
            self.bytes@.len() == 12,
        ensures
            r.id_type@ == "objectid"@,
            r.canonical@ == hex_text(self.bytes@, false),
            r.input == self.input,
            r.valid,
            r.timestamp == Some(Timestamp { millis: (oid_seconds(self.bytes@) * 1000) as u64 }),
            r.random_bits == Some(40u32),
            r.encodings.hex@ == hex_text(self.bytes@, false),
            r.encodings.base32@ == crate::encoding::base32_of(self.bytes@),
            r.encodings.base58@ == crate::encoding::base58_of(self.bytes@),
            r.encodings.base64@ == crate::encoding::base64_of(self.bytes@),
            r.encodings.int is None,
            r.timestamp is None ==> r.timestamp_iso is None,
            r.timestamp matches Some(t) ==> (r.timestamp_iso matches Some(x) && x@ == crate::id::iso_text(t.millis)),
    {
        let bytes = self.as_bytes();
        let ts = Timestamp::from_secs(self.timestamp_secs() as u64);
        let random: Vec<u8> = vec![bytes[4], bytes[5], bytes[6], bytes[7], bytes[8]];
        let mut components: Vec<(String, ComponentValue)> = Vec::new();
        components.push(("timestamp_secs".to_owned(), ComponentValue::Number(self.timestamp_secs() as u128)));
        components.push(("random_hex".to_owned(), ComponentValue::Text(encode_hex(random.as_slice()))));
        components.push(("counter".to_owned(), ComponentValue::Number(self.counter() as u128)));
        InspectionResult {
            id_type: "objectid".to_owned(),
            input: self.input.clone(),
            canonical: self.canonical(),
            valid: true,
            timestamp: Some(ts),
            timestamp_iso: Some(ts.to_iso8601()),
            timestamp_local_iso: None,
            version: None,
            variant: None,
            random_bits: Some(40),
            components: Some(components),
            encodings: IdEncodings {
                hex: encode_hex(bytes.as_slice()),
                base32: encode_base32(bytes.as_slice()),
                base58: encode_base58(bytes.as_slice()),
                base64: encode_base64(bytes.as_slice()),
                int: None,
            },
        }
    }
}

/// Whether a text parses as an ObjectId.
pub fn is_objectid(input: &str) -> (r: bool)
    ensures
        r == objectid_decodes(trimmed(input@)),
{
    ParsedObjectId::parse(input).is_ok()
}

/// ObjectIds of one second and process whose counters differ in their low
/// 24 bits are different texts.
pub proof fn lemma_objectid_counters_distinct(secs: nat, random: Seq<u8>, c1: nat, c2: nat)
    requires
        random.len() == 5,
        c1 % 0x100_0000 != c2 % 0x100_0000,
    ensures
        hex_text(objectid_layout(secs, random, c1), false) != hex_text(objectid_layout(secs, random, c2), false),
{
    let l1 = objectid_layout(secs, random, c1);
    let l2 = objectid_layout(secs, random, c2);
    let a = c1 % 0x100_0000;
    let b = c2 % 0x100_0000;
    assert(a == (a / 0x1_0000) * 0x1_0000 + ((a / 0x100) % 256) * 0x100 + a % 256);
    assert(b == (b / 0x1_0000) * 0x1_0000 + ((b / 0x100) % 256) * 0x100 + b % 256);
    assert(l1 != l2) by {
        if l1 == l2 {
            assert(l1[9] == l2[9] && l1[10] == l2[10] && l1[11] == l2[11]);
        }
    }
    crate::encoding::lemma_hex_round_trip(l1);
    crate::encoding::lemma_hex_round_trip(l2);
}

/// The uppercase and lowercase hex renderings of twelve bytes both parse,
/// to the same bytes and so to the same canonical text.
pub proof fn lemma_objectid_case_insensitive(b: Seq<u8>)
    requires
        b.len() == 12,
    ensures
        objectid_decodes(hex_text(b, true)),
        objectid_decodes(hex_text(b, false)),
        hex_bytes(hex_text(b, true)) == b,
        hex_bytes(hex_text(b, false)) == b,
{
    crate::encoding::lemma_hex_upper_round_trip(b);
    crate::encoding::lemma_hex_round_trip(b);
    crate::encoding::lemma_hex_text_index(b);
}

} // verus!
