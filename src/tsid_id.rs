use crate::crockford::{all_crockford, crockford_char_value, crockford_digits, crockford_symbols, crockford_value, lemma_upper_text_digits, upper_text};
use crate::digits::{digits_of, lemma_digits_shape, lemma_prefix_value_le, lemma_value_of_digits, value_of};
use crate::encoding::{bits_text, decimal_of, digit_values, encode_base64, encode_bits, encode_hex, hex_text, nats, base64_of, decimal_text, be_bytes, be_bytes_spec, EncodingFormat};
use crate::error::{IdtError, Result};
use crate::id::{not_ahead, current_timestamp_ms, ComponentValue, IdEncodings, InspectionResult, Timestamp, ValidationResult};
use crate::kind::IdKind;
use crate::text::{chars_of, string_of_chars, trimmed, trimmed_chars};
use vstd::arithmetic::power::pow;
use vstd::prelude::*;

verus! {

/// The 13-symbol uppercase Crockford rendering of a 64-bit value.
pub open spec fn tsid_text(v: nat) -> Seq<char> {
    upper_text(digits_of(v, 32, 13))
}

/// The number that a TSID text denotes.
pub open spec fn tsid_value(s: Seq<char>) -> nat {
    value_of(crockford_digits(s), 32)
}

/// Whether a text decodes as a TSID: 13 Crockford symbols whose value fits
/// in 64 bits.
pub open spec fn tsid_decodes(s: Seq<char>) -> bool {
    s.len() == 13 && all_crockford(s) && tsid_value(s) < 0x1_0000_0000_0000_0000
}

/// A TSID built from a millisecond clock reading and random bits: the low
/// 42 bits of the time above the low 22 random bits.
pub open spec fn tsid_compose(now_ms: nat, random: nat) -> nat {
    (now_ms % 0x400_0000_0000) * 0x40_0000 + random % 0x40_0000
}

/// Encodes a 64-bit value as 13 uppercase Crockford symbols.
pub fn tsid_encode(value: u64) -> (r: String)
    ensures
        r@ == tsid_text(value as nat),
{
    let ds = digit_values(value as u128, 32, 13);
    proof {
        lemma_digits_shape(value as nat, 32, 13);
        assert forall|i: int| 0 <= i < ds@.len() implies #[trigger] ds@[i] < 32 by {
            assert(nats(ds@)[i] == ds@[i] as nat);
        }
    }
    let cs = crockford_symbols(&ds, true);
    string_of_chars(&cs)
}

/// Decodes 13 Crockford symbols (either case, look-alikes folded) to a
/// 64-bit value; fails on a wrong length, a foreign symbol, or a value that
/// needs more than 64 bits.
pub fn tsid_decode_chars(s: &Vec<char>) -> (r: Result<u64>)
    ensures
        r is Ok <==> tsid_decodes(s@),
        r matches Ok(v) ==> v as nat == tsid_value(s@),
        r matches Err(e) ==> e is ParseError,
{
    if s.len() != 13 {
        return Err(IdtError::ParseError("TSID must be 13 characters".to_owned()));
    }
    let mut value: u64 = 0;
    let mut i: usize = 0;
    while i < 13
        invariant
            s@.len() == 13,
            i <= 13,
            value as nat == value_of(crockford_digits(s@).subrange(0, i as int), 32),
            forall|j: int| 0 <= j < i ==> #[trigger] crockford_value(s@[j]) is Some,
        decreases 13 - i,
    {
        let c = s[i];
        let d = match crockford_char_value(c) {
            Some(d) => d,
            None => {
                return Err(IdtError::ParseError("Invalid Crockford Base32 character".to_owned()));
            },
        };
        let ghost pre = crockford_digits(s@).subrange(0, i as int);
        let ghost cur = crockford_digits(s@).subrange(0, i + 1);
        proof {
            assert(cur =~= pre.push(d as nat));
            crate::digits::lemma_value_push(pre, d as nat, 32);
        }
        if value >= 0x800_0000_0000_0000 {
            proof {
                if all_crockford(s@) {
                    lemma_prefix_value_le(crockford_digits(s@), 32, i + 1);
                }
            }
            return Err(IdtError::ParseError("TSID value does not fit in 64 bits".to_owned()));
        }
        value = value * 32 + d as u64;
        i = i + 1;
    }
    assert(crockford_digits(s@).subrange(0, 13) =~= crockford_digits(s@));
    Ok(value)
}

pub fn tsid_decode(s: &str) -> (r: Result<u64>)
    ensures
        r is Ok <==> tsid_decodes(s@),
        r matches Ok(v) ==> v as nat == tsid_value(s@),
        r matches Err(e) ==> e is ParseError,
{
    let cs = chars_of(s);
    tsid_decode_chars(&cs)
}

/// Every 64-bit value survives a TSID encode and decode.
pub proof fn lemma_tsid_round_trip(v: u64)
    ensures
        tsid_decodes(tsid_text(v as nat)),
        tsid_value(tsid_text(v as nat)) == v,
{
    lemma_digits_shape(v as nat, 32, 13);
    lemma_upper_text_digits(digits_of(v as nat, 32, 13));
    lemma_value_of_digits(v as nat, 32, 13);
    assert(pow(32, 13) == 0x2_0000_0000_0000_0000) by {
        reveal_with_fuel(pow, 14);
    }
    vstd::arithmetic::div_mod::lemma_small_mod(v as nat, 0x2_0000_0000_0000_0000);
}

/// TSID generator.
#[derive(Debug)]
pub struct TsidGenerator;

impl TsidGenerator {
    pub fn new() -> (r: TsidGenerator) {
        TsidGenerator
    }

    /// The TSID for a clock reading and random bits.
    pub fn generate_at(&self, now_ms: u64, random: u64) -> (r: String)
        ensures
            r@ == tsid_text(tsid_compose(now_ms as nat, random as nat)),
    {
        let v: u64 = (now_ms % 0x400_0000_0000) * 0x40_0000 + random % 0x40_0000;
        tsid_encode(v)
    }

    pub fn generate(&self) -> (r: Result<String>)
        ensures
            r is Ok,
            r matches Ok(s) ==> exists|t: nat, x: nat| s@ == tsid_text(tsid_compose(t, x)),
    {
        let now = current_timestamp_ms();
        let random = crate::random::random_u64();
        Ok(self.generate_at(now, random))
    }
}

/// What a TSID renders as in each re-encoding format.
pub open spec fn tsid_encoded(v: u64, f: EncodingFormat) -> Seq<char> {
    let b = be_bytes_spec(v as nat, 8);
    match f {
        EncodingFormat::Hex => hex_text(b, false),
        EncodingFormat::Base64 => base64_of(b),
        EncodingFormat::Bits => bits_text(b),
        EncodingFormat::Int => decimal_of(v as nat),
        _ => tsid_text(v as nat),
    }
}

/// A decoded TSID.
#[derive(Debug)]
pub struct ParsedTsid {
    pub value: u64,
    pub input: String,
}

impl ParsedTsid {
    pub fn parse(input: &str) -> (r: Result<ParsedTsid>)
        ensures
            r is Ok <==> tsid_decodes(trimmed(input@)),
            r matches Ok(p) ==> p.value as nat == tsid_value(trimmed(input@)) && p.input@ == trimmed(
                input@,
            ),
            r matches Err(e) ==> e is ParseError,
    {
        let t = trimmed_chars(input);
        let value = tsid_decode_chars(&t)?;
        Ok(ParsedTsid { value, input: string_of_chars(&t) })
    }

    pub fn timestamp_ms(&self) -> (r: u64)
        ensures
            r == self.value / 0x40_0000,
    {
        self.value / 0x40_0000
    }

    pub fn random_bits(&self) -> (r: u64)
        ensures
            r == self.value % 0x40_0000,
    {
        self.value % 0x40_0000
    }

    pub fn kind(&self) -> (r: IdKind)
        ensures
            r == IdKind::Tsid,
    {
        IdKind::Tsid
    }

    pub fn canonical(&self) -> (r: String)
        ensures
            r@ == tsid_text(self.value as nat),
    {
        tsid_encode(self.value)
    }

    pub fn as_bytes(&self) -> (r: Vec<u8>)
        ensures
            r@ == be_bytes_spec(self.value as nat, 8),
    {
        be_bytes(self.value as u128, 8)
    }

    pub fn timestamp(&self) -> (r: Option<Timestamp>)
        ensures
            r == Some(Timestamp { millis: self.value / 0x40_0000 }),
    {
        Some(Timestamp::new(self.timestamp_ms()))
    }

    /// Valid unless the embedded time is more than a day after `now_ms`.
    pub fn validate_at(&self, now_ms: u64) -> (r: ValidationResult)
        ensures
            r.valid == not_ahead((self.value / 0x40_0000) as nat, now_ms as nat, 86_400_000),
            r.valid ==> (r.id_type matches Some(t) && t@ == "tsid"@),
            !r.valid ==> (r.error matches Some(t) && t@ == "Timestamp is in the future"@),
    {
        let ts = self.timestamp_ms();
        if now_ms <= u64::MAX - 86_400_000 && ts > now_ms + 86_400_000 {
            ValidationResult::invalid("Timestamp is in the future")
        } else {
            ValidationResult::valid("tsid")
        }
    }

    pub fn validate(&self) -> (r: ValidationResult)
        ensures
            exists|now: u64| r.valid == #[trigger] not_ahead((self.value / 0x40_0000) as nat, now as nat, 86_400_000),
            r.valid ==> (r.id_type matches Some(t) && t@ == "tsid"@),
            !r.valid ==> (r.error matches Some(t) && t@ == "Timestamp is in the future"@),
    {
        self.validate_at(current_timestamp_ms())
    }

    pub fn encode(&self, format: EncodingFormat) -> (r: String)
        ensures
            r@ == tsid_encoded(self.value, format),
    {
        let bytes = self.as_bytes();
        match format {
            EncodingFormat::Hex => encode_hex(bytes.as_slice()),
            EncodingFormat::Base64 => encode_base64(bytes.as_slice()),
            EncodingFormat::Bits => encode_bits(bytes.as_slice()),
            EncodingFormat::Int => decimal_text(self.value as u128),
            _ => self.canonical(),
        }
    }

    pub fn inspect(&self) -> (r: InspectionResult)
        ensures
            r.id_type@ == "tsid"@,
            r.canonical@ == tsid_text(self.value as nat),
            r.input == self.input,
            r.valid,
            r.timestamp == Some(Timestamp { millis: self.value / 0x40_0000 }),
            r.random_bits == Some(22u32),
            r.encodings.hex@ == hex_text(be_bytes_spec(self.value as nat, 8), false),
            r.encodings.base32@.len() == 0,
            r.encodings.base58@.len() == 0,
            r.encodings.base64@ == crate::encoding::base64_of(be_bytes_spec(self.value as nat, 8)),
            r.encodings.int matches Some(t) && t@ == decimal_of(self.value as nat),
            r.timestamp is None ==> r.timestamp_iso is None,
            r.timestamp matches Some(t) ==> (r.timestamp_iso matches Some(x) && x@ == crate::id::iso_text(t.millis)),
    {
        let bytes = self.as_bytes();
        let ts = Timestamp::new(self.timestamp_ms());
        let mut components: Vec<(String, ComponentValue)> = Vec::new();
        components.push(("timestamp_ms".to_owned(), ComponentValue::Number(self.timestamp_ms() as u128)));
        components.push(("random_bits".to_owned(), ComponentValue::Number(self.random_bits() as u128)));
        components.push(("numeric_value".to_owned(), ComponentValue::Number(self.value as u128)));
        InspectionResult {
            id_type: "tsid".to_owned(),
            input: self.input.clone(),
            canonical: self.canonical(),
            valid: true,
            timestamp: Some(ts),
            timestamp_iso: Some(ts.to_iso8601()),
            timestamp_local_iso: None,
            version: None,
            variant: None,
            random_bits: Some(22),
            components: Some(components),
            encodings: IdEncodings {
                hex: encode_hex(bytes.as_slice()),
                base32: String::new(),
                base58: String::new(),
                base64: encode_base64(bytes.as_slice()),
                int: Some(decimal_text(self.value as u128)),
            },
        }
    }
}

/// Whether a text parses as a TSID.
pub fn is_tsid(input: &str) -> (r: bool)
    ensures
        r == tsid_decodes(trimmed(input@)),
{
    ParsedTsid::parse(input).is_ok()
}

} // verus!
