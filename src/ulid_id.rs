use crate::crockford::{lemma_symbol_values, strict_lower_value, upper_text, opt_digit};
use crate::digits::{digits_of, lemma_digits_shape, lemma_first_digit, lemma_value_of_digits, value_of};
use crate::encoding::{be_bytes, be_bytes_spec, decimal_of, decimal_text, encode_base32, encode_base58, encode_base64, encode_bytes, encode_hex, encoded_text, hex_text, EncodingFormat};
use crate::error::{IdtError, Result};
use crate::id::{ComponentValue, IdEncodings, InspectionResult, Timestamp, ValidationResult};
use crate::kind::IdKind;
use crate::text::{is_upper, string_of_chars, trimmed, trimmed_chars};
use vstd::arithmetic::power::pow;
use vstd::prelude::*;

verus! {

/// The value of a ULID symbol: Crockford Base32 in either case, without
/// folding look-alikes.
pub open spec fn ulid_char_value(c: char) -> Option<nat> {
    if is_upper(c) {
        strict_lower_value(((c as u32 + 32) as u8) as char)
    } else {
        strict_lower_value(c)
    }
}

pub open spec fn ulid_digits(s: Seq<char>) -> Seq<nat> {
    s.map_values(|c: char| opt_digit(ulid_char_value(c)))
}

pub open spec fn all_ulid_chars(s: Seq<char>) -> bool {
    forall|i: int| 0 <= i < s.len() ==> #[trigger] ulid_char_value(s[i]) is Some
}

/// The canonical 26-symbol uppercase rendering of a 128-bit value.
pub open spec fn ulid_text(v: nat) -> Seq<char> {
    upper_text(digits_of(v, 32, 26))
}

/// Whether a text is a ULID: 26 symbols, the first at most `7` so that the
/// value fits in 128 bits.
pub open spec fn ulid_decodes(s: Seq<char>) -> bool {
    s.len() == 26 && all_ulid_chars(s) && opt_digit(ulid_char_value(s[0])) <= 7
}

/// The 128-bit value of a ULID text.
pub open spec fn ulid_value(s: Seq<char>) -> nat {
    (value_of(ulid_digits(s), 32) % (0x1_0000_0000_0000_0000 * 0x1_0000_0000_0000_0000)) as nat
}

/// Relies on `ulid::Ulid::from_string`: 26 symbols of the Crockford alphabet
/// in either case, read five bits each into a `u128` (high bits dropped).
#[verifier::external_body]
fn ulid_from_string(s: &str) -> (r: Option<u128>)
    ensures
        r is Some <==> (s@.len() == 26 && all_ulid_chars(s@)),
        r matches Some(v) ==> v as nat == ulid_value(s@),
{
    ulid::Ulid::from_string(s).ok().map(|u| u.0)
}

/// Relies on `ulid::Ulid::to_string`: 26 uppercase Crockford symbols.
#[verifier::external_body]
fn ulid_to_string(v: u128) -> (r: String)
    ensures
        r@ == ulid_text(v as nat),
{
    ulid::Ulid(v).to_string()
}

/// Relies on `ulid::Ulid::new`: the current time and random bits. Nothing is
/// promised of the value.
#[verifier::external_body]
fn ulid_new() -> (r: u128) {
    ulid::Ulid::new().0
}

/// Every 128-bit value survives a ULID encode and decode.
pub proof fn lemma_ulid_round_trip(v: u128)
    ensures
        ulid_decodes(ulid_text(v as nat)),
        ulid_value(ulid_text(v as nat)) == v,
{
    let ds = digits_of(v as nat, 32, 26);
    lemma_digits_shape(v as nat, 32, 26);
    assert forall|i: int| 0 <= i < ds.len() implies #[trigger] ulid_char_value(upper_text(ds)[i])
        == Some(ds[i]) by {
        lemma_symbol_values(ds[i]);
    }
    assert(ulid_digits(ulid_text(v as nat)) =~= ds);
    lemma_value_of_digits(v as nat, 32, 26);
    assert(pow(32, 26) == 0x4_0000_0000_0000_0000 * 0x1_0000_0000_0000_0000) by {
        reveal_with_fuel(pow, 27);
    }
    vstd::arithmetic::div_mod::lemma_small_mod(v as nat, (0x4_0000_0000_0000_0000 * 0x1_0000_0000_0000_0000) as nat);
    vstd::arithmetic::div_mod::lemma_small_mod(v as nat, (0x1_0000_0000_0000_0000 * 0x1_0000_0000_0000_0000) as nat);
    lemma_first_digit(v as nat, 32, 26);
    assert(pow(32, 25) == 0x2000_0000_0000_0000_0000_0000_0000_0000) by {
        reveal_with_fuel(pow, 26);
    }
    let q = v as nat / 0x2000_0000_0000_0000_0000_0000_0000_0000;
    assert(q < 8) by (nonlinear_arith)
        requires
            v < 0x1_0000_0000_0000_0000 * 0x1_0000_0000_0000_0000,
            q == v as nat / 0x2000_0000_0000_0000_0000_0000_0000_0000,
    ;
    vstd::arithmetic::div_mod::lemma_small_mod(q, 32);
}

/// What a ULID renders as in each re-encoding format.
pub open spec fn ulid_encoded(v: u128, f: EncodingFormat) -> Seq<char> {
    if f == EncodingFormat::Canonical {
        ulid_text(v as nat)
    } else {
        encoded_text(be_bytes_spec(v as nat, 16), f)
    }
}

/// ULID generator.
#[derive(Debug)]
pub struct UlidGenerator;

impl UlidGenerator {
    pub fn new() -> (r: UlidGenerator) {
        UlidGenerator
    }

    pub fn generate(&self) -> (r: Result<String>)
        ensures
            r is Ok,
            r matches Ok(s) ==> exists|v: u128| s@ == ulid_text(v as nat),
    {
        Ok(ulid_to_string(ulid_new()))
    }
}

/// A parsed ULID.
#[derive(Debug)]
pub struct ParsedUlid {
    pub value: u128,
    pub input: String,
}

impl ParsedUlid {
    pub fn parse(input: &str) -> (r: Result<ParsedUlid>)
        ensures
            r is Ok <==> ulid_decodes(trimmed(input@)),
            r matches Ok(p) ==> (p.value as nat == ulid_value(trimmed(input@)) && p.input@
                == trimmed(input@)),
            r matches Err(e) ==> e is ParseError,
    {
        let t = trimmed_chars(input);
        let ts = string_of_chars(&t);
        match ulid_from_string(ts.as_str()) {
            Some(value) => {
                let first = t[0];
                let low = if 'A' <= first && first <= 'Z' {
                    ((first as u32 + 32) as u8) as char
                } else {
                    first
                };
                match crate::crockford::typeid_char_value(low) {
                    Some(d) => {
                        if d > 7 {
                            return Err(IdtError::ParseError("Invalid ULID: value overflows 128 bits".to_owned()));
                        }
                    },
                    None => {},
                }
                Ok(ParsedUlid { value, input: ts })
            },
            None => Err(IdtError::ParseError("Invalid ULID".to_owned())),
        }
    }

    pub fn kind(&self) -> (r: IdKind)
        ensures
            r == IdKind::Ulid,
    {
        IdKind::Ulid
    }

    pub fn canonical(&self) -> (r: String)
        ensures
            r@ == ulid_text(self.value as nat),
    {
        ulid_to_string(self.value)
    }

    pub fn as_bytes(&self) -> (r: Vec<u8>)
        ensures
            r@ == be_bytes_spec(self.value as nat, 16),
    {
        be_bytes(self.value, 16)
    }

    pub fn timestamp_ms(&self) -> (r: u64)
        ensures
            r as nat == self.value as nat / 0x1_0000_0000_0000_0000_0000,
    {
        (self.value / 0x1_0000_0000_0000_0000_0000) as u64
    }

    pub fn timestamp(&self) -> (r: Option<Timestamp>)
        ensures
            r matches Some(t) && t.millis as nat == self.value as nat / 0x1_0000_0000_0000_0000_0000,
    {
        Some(Timestamp::new(self.timestamp_ms()))
    }

    pub fn validate(&self) -> (r: ValidationResult)
        ensures
            r.valid,
            r.id_type matches Some(t) && t@ == "ulid"@,
    {
        ValidationResult::valid("ulid")
    }

    pub fn encode(&self, format: EncodingFormat) -> (r: String)
        ensures
            r@ == ulid_encoded(self.value, format),
    {
        if format == EncodingFormat::Canonical {
            self.canonical()
        } else {
            let bytes = self.as_bytes();
            encode_bytes(bytes.as_slice(), format)
        }
    }

    pub fn inspect(&self) -> (r: InspectionResult)
        ensures
            r.id_type@ == "ulid"@,
            r.canonical@ == ulid_text(self.value as nat),
            r.input == self.input,
            r.valid,
            r.timestamp matches Some(t) && t.millis as nat == self.value as nat / 0x1_0000_0000_0000_0000_0000,
            r.random_bits == Some(80u32),
            r.encodings.hex@ == hex_text(be_bytes_spec(self.value as nat, 16), false),
            r.encodings.base32@ == crate::encoding::base32_of(be_bytes_spec(self.value as nat, 16)),
            r.encodings.base58@ == crate::encoding::base58_of(be_bytes_spec(self.value as nat, 16)),
            r.encodings.base64@ == crate::encoding::base64_of(be_bytes_spec(self.value as nat, 16)),
            r.encodings.int matches Some(t) && t@ == decimal_of(self.value as nat),
            r.timestamp is None ==> r.timestamp_iso is None,
            r.timestamp matches Some(t) ==> (r.timestamp_iso matches Some(x) && x@ == crate::id::iso_text(t.millis)),
    {
        let bytes = self.as_bytes();
        let ts = Timestamp::new(self.timestamp_ms());
        let random = be_bytes(self.value % 0x1_0000_0000_0000_0000_0000, 10);
        let mut components: Vec<(String, ComponentValue)> = Vec::new();
        components.push(("timestamp_ms".to_owned(), ComponentValue::Number(ts.millis as u128)));
        components.push(("random_hex".to_owned(), ComponentValue::Text(encode_hex(random.as_slice()))));
        InspectionResult {
            id_type: "ulid".to_owned(),
            input: self.input.clone(),
            canonical: self.canonical(),
            valid: true,
            timestamp: Some(ts),
            timestamp_iso: Some(ts.to_iso8601()),
            timestamp_local_iso: None,
            version: None,
            variant: None,
            random_bits: Some(80),
            components: Some(components),
            encodings: IdEncodings {
                hex: encode_hex(bytes.as_slice()),
                base32: encode_base32(bytes.as_slice()),
                base58: encode_base58(bytes.as_slice()),
                base64: encode_base64(bytes.as_slice()),
                int: Some(decimal_text(self.value)),
            },
        }
    }
}

/// Whether a text parses as a ULID.
pub fn is_ulid(input: &str) -> (r: bool)
    ensures
        r == ulid_decodes(trimmed(input@)),
{
    ParsedUlid::parse(input).is_ok()
}

/// ULID texts that differ only in letter case decode alike.
pub proof fn lemma_ulid_case_insensitive(a: Seq<char>, b: Seq<char>)
    requires
        crate::uuid_id::same_up_to_case(a, b),
    ensures
        ulid_decodes(a) == ulid_decodes(b),
        ulid_value(a) == ulid_value(b),
        ulid_text(ulid_value(a)) == ulid_text(ulid_value(b)),
{
    assert forall|i: int| 0 <= i < a.len() implies #[trigger] ulid_char_value(a[i]) == ulid_char_value(b[i]) by {
        assert(crate::uuid_id::ascii_folded(a[i]) == crate::uuid_id::ascii_folded(b[i]));
    }
    assert(ulid_digits(a) =~= ulid_digits(b));
    if a.len() > 0 {
        assert(ulid_char_value(a[0]) == ulid_char_value(b[0]));
    }
    if all_ulid_chars(a) {
        assert forall|i: int| 0 <= i < b.len() implies #[trigger] ulid_char_value(b[i]) is Some by {
            assert(ulid_char_value(a[i]) == ulid_char_value(b[i]));
        }
    }
    if all_ulid_chars(b) {
        assert forall|i: int| 0 <= i < a.len() implies #[trigger] ulid_char_value(a[i]) is Some by {
            assert(ulid_char_value(a[i]) == ulid_char_value(b[i]));
        }
    }
}

/// The UUID bytes that share a ULID's 128 bits.
pub fn ulid_to_uuid(ulid: u128) -> (r: [u8; 16])
    ensures
        r@ == be_bytes_spec(ulid as nat, 16),
{
    let v = be_bytes(ulid, 16);
    [v[0], v[1], v[2], v[3], v[4], v[5], v[6], v[7], v[8], v[9], v[10], v[11], v[12], v[13], v[14], v[15]]
}

/// The ULID value that shares a UUID's 128 bits.
pub fn uuid_to_ulid(uuid: [u8; 16]) -> (r: u128)
    ensures
        r as nat == crate::encoding::be_value(uuid@),
{
    match crate::encoding::bytes_to_u128(uuid.as_slice()) {
        Some(v) => v,
        None => 0,
    }
}

/// Converting a ULID to UUID bytes and back gives the ULID.
pub proof fn lemma_ulid_uuid_round_trip(v: u128)
    ensures
        crate::encoding::be_value(be_bytes_spec(v as nat, 16)) == v,
{
    let ds = digits_of(v as nat, 256, 16);
    lemma_digits_shape(v as nat, 256, 16);
    assert(crate::encoding::nats(be_bytes_spec(v as nat, 16)) =~= ds);
    lemma_value_of_digits(v as nat, 256, 16);
    assert(pow(256, 16) == 0x1_0000_0000_0000_0000 * 0x1_0000_0000_0000_0000) by {
        reveal_with_fuel(pow, 17);
    }
    vstd::arithmetic::div_mod::lemma_small_mod(v as nat, (0x1_0000_0000_0000_0000 * 0x1_0000_0000_0000_0000) as nat);
}

} // verus!
