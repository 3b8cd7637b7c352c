use crate::crockford::{
    all_strict_lower, crockford_symbols, lemma_lower_text_digits, lower_text, strict_lower_digits,
    strict_lower_value, typeid_char_value,
};
use crate::digits::{digits_of, lemma_digits_shape, lemma_prefix_value_le, lemma_value_of_digits, value_of};
use crate::encoding::{
    be_bytes, be_bytes_spec, bytes_to_u128, decimal_of, decimal_text, digit_values,
    encode_base32, encode_base58, encode_base64, encode_bytes, encode_hex, encoded_text,
    hex_text, nats, EncodingFormat,
};
use crate::error::{IdtError, Result};
use crate::id::{ComponentValue, IdEncodings, InspectionResult, Timestamp, ValidationResult};
use crate::kind::IdKind;
use crate::text::{is_lower, push_str, string_of_chars, trimmed, trimmed_chars};
use vstd::arithmetic::power::pow;
use vstd::prelude::*;

verus! {

/// The 26-symbol lowercase Crockford rendering of a 128-bit value.
pub open spec fn suffix_text(v: nat) -> Seq<char> {
    lower_text(digits_of(v, 32, 26))
}

pub open spec fn suffix_value(s: Seq<char>) -> nat {
    value_of(strict_lower_digits(s), 32)
}

/// Whether a text is a TypeID suffix: 26 lowercase symbols whose value fits
/// in 128 bits.
pub open spec fn suffix_decodes(s: Seq<char>) -> bool {
    s.len() == 26 && all_strict_lower(s) && suffix_value(s) < 0x1_0000_0000_0000_0000
        * 0x1_0000_0000_0000_0000
}

/// The index of the last '_' in `s`, or -1.
pub open spec fn last_underscore(s: Seq<char>) -> int
    decreases s.len(),
{
    if s.len() == 0 {
        -1
    } else if s.last() == '_' {
        s.len() - 1
    } else {
        last_underscore(s.drop_last())
    }
}

/// The prefix (before the last '_', empty when there is none).
pub open spec fn typeid_prefix(s: Seq<char>) -> Seq<char> {
    let k = last_underscore(s);
    if k < 0 {
        Seq::empty()
    } else {
        s.subrange(0, k)
    }
}

/// The suffix (after the last '_', the whole text when there is none).
pub open spec fn typeid_suffix(s: Seq<char>) -> Seq<char> {
    let k = last_underscore(s);
    if k < 0 {
        s
    } else {
        s.subrange(k + 1, s.len() as int)
    }
}

pub open spec fn prefix_chars_ok(p: Seq<char>) -> bool {
    forall|i: int| 0 <= i < p.len() ==> is_lower(#[trigger] p[i]) || p[i] == '_'
}

/// Whether a text parses as a TypeID: either no '_' at all, or a prefix of
/// lowercase letters and underscores that starts with a letter before the
/// last '_'; then a valid suffix.
pub open spec fn typeid_parses(s: Seq<char>) -> bool {
    let p = typeid_prefix(s);
    prefix_chars_ok(p) && (last_underscore(s) < 0 || (p.len() > 0 && is_lower(p[0])))
        && suffix_decodes(typeid_suffix(s))
}

/// The canonical rendering of a prefix and a value.
pub open spec fn typeid_text(prefix: Seq<char>, v: nat) -> Seq<char> {
    if prefix.len() == 0 {
        suffix_text(v)
    } else {
        prefix + seq!['_'] + suffix_text(v)
    }
}

/// The version nibble of the embedded UUID.
pub open spec fn embedded_version(v: nat) -> nat {
    (v / 0x1000_0000_0000_0000_0000) % 16
}

/// Encodes 16 bytes as 26 lowercase Crockford symbols.
pub fn typeid_base32_encode(bytes: &[u8]) -> (r: String)
    requires
        bytes@.len() == 16,
    ensures
        r@ == suffix_text(crate::encoding::be_value(bytes@)),
{
    let v = match bytes_to_u128(bytes) {
        Some(v) => v,
        None => 0,
    };
    suffix_of(v)
}

fn suffix_of(v: u128) -> (r: String)
    ensures
        r@ == suffix_text(v as nat),
{
    let ds = digit_values(v, 32, 26);
    proof {
        lemma_digits_shape(v as nat, 32, 26);
        assert forall|i: int| 0 <= i < ds@.len() implies #[trigger] ds@[i] < 32 by {
            assert(nats(ds@)[i] == ds@[i] as nat);
        }
    }
    let cs = crockford_symbols(&ds, false);
    string_of_chars(&cs)
}

/// Decodes 26 lowercase Crockford symbols to a 128-bit value.
pub fn typeid_suffix_decode(s: &Vec<char>) -> (r: Result<u128>)
    ensures
        r is Ok <==> suffix_decodes(s@),
        r matches Ok(v) ==> v as nat == suffix_value(s@),
        r matches Err(e) ==> e is ParseError,
{
    if s.len() != 26 {
        return Err(IdtError::ParseError("TypeID suffix must be 26 characters".to_owned()));
    }
    let mut value: u128 = 0;
    let mut i: usize = 0;
    while i < 26
        invariant
            s@.len() == 26,
            i <= 26,
            value as nat == value_of(strict_lower_digits(s@).subrange(0, i as int), 32),
            forall|j: int| 0 <= j < i ==> #[trigger] strict_lower_value(s@[j]) is Some,
        decreases 26 - i,
    {
        let d = match typeid_char_value(s[i]) {
            Some(d) => d,
            None => {
                return Err(IdtError::ParseError("Invalid TypeID Base32 character".to_owned()));
            },
        };
        let ghost pre = strict_lower_digits(s@).subrange(0, i as int);
        let ghost cur = strict_lower_digits(s@).subrange(0, i + 1);
        proof {
            assert(cur =~= pre.push(d as nat));
            crate::digits::lemma_value_push(pre, d as nat, 32);
        }
        if value >= 0x800_0000_0000_0000_0000_0000_0000_0000 {
            proof {
                if all_strict_lower(s@) {
                    lemma_prefix_value_le(strict_lower_digits(s@), 32, i + 1);
                }
            }
            return Err(IdtError::ParseError("TypeID suffix does not fit in 128 bits".to_owned()));
        }
        value = value * 32 + d as u128;
        i = i + 1;
    }
    assert(strict_lower_digits(s@).subrange(0, 26) =~= strict_lower_digits(s@));
    Ok(value)
}

/// Every 128-bit value survives a suffix encode and decode.
pub proof fn lemma_suffix_round_trip(v: u128)
    ensures
        suffix_decodes(suffix_text(v as nat)),
        suffix_value(suffix_text(v as nat)) == v,
{
    lemma_digits_shape(v as nat, 32, 26);
    lemma_lower_text_digits(digits_of(v as nat, 32, 26));
    lemma_value_of_digits(v as nat, 32, 26);
    assert(pow(32, 26) == 0x4_0000_0000_0000_0000 * 0x1_0000_0000_0000_0000) by {
        reveal_with_fuel(pow, 27);
    }
    vstd::arithmetic::div_mod::lemma_small_mod(
        v as nat,
        (0x4_0000_0000_0000_0000 * 0x1_0000_0000_0000_0000) as nat,
    );
}

proof fn lemma_last_underscore_bound(s: Seq<char>)
    ensures
        -1 <= last_underscore(s) < s.len(),
    decreases s.len(),
{
    if s.len() > 0 {
        lemma_last_underscore_bound(s.drop_last());
    }
}

pub(crate) fn find_last_underscore(s: &Vec<char>) -> (r: Option<usize>)
    ensures
        r matches Some(k) ==> (k as int == last_underscore(s@) && k < s@.len()),
        r is None <==> last_underscore(s@) < 0,
{
    let mut i: usize = s.len();
    assert(s@.subrange(0, i as int) =~= s@);
    proof {
        lemma_last_underscore_bound(s@);
    }
    while i > 0
        invariant
            i <= s@.len(),
            last_underscore(s@) == last_underscore(s@.subrange(0, i as int)),
        decreases i,
    {
        let ghost pre = s@.subrange(0, i as int);
        assert(pre.drop_last() =~= s@.subrange(0, i - 1));
        if s[i - 1] == '_' {
            return Some(i - 1);
        }
        i = i - 1;
    }
    None
}

pub(crate) fn slice_chars(s: &Vec<char>, from: usize, to: usize) -> (r: Vec<char>)
    requires
        from <= to <= s@.len(),
    ensures
        r@ == s@.subrange(from as int, to as int),
{
    let mut out: Vec<char> = Vec::new();
    let mut i: usize = from;
    while i < to
        invariant
            from <= i <= to <= s@.len(),
            out@ == s@.subrange(from as int, i as int),
        decreases to - i,
    {
        out.push(s[i]);
        i = i + 1;
    }
    out
}

pub(crate) fn prefix_ok(p: &Vec<char>) -> (r: bool)
    ensures
        r == prefix_chars_ok(p@),
{
    let mut i: usize = 0;
    while i < p.len()
        invariant
            i <= p@.len(),
            forall|j: int| 0 <= j < i ==> is_lower(#[trigger] p@[j]) || p@[j] == '_',
        decreases p@.len() - i,
    {
        if !(crate::text::is_lower_char(p[i]) || p[i] == '_') {
            return false;
        }
        i = i + 1;
    }
    true
}

fn render(prefix: &String, v: u128) -> (r: String)
    ensures
        r@ == typeid_text(prefix@, v as nat),
{
    let suffix = suffix_of(v);
    if prefix.as_str().is_empty() {
        suffix
    } else {
        let mut out: Vec<char> = Vec::new();
        push_str(&mut out, prefix.as_str());
        out.push('_');
        push_str(&mut out, suffix.as_str());
        assert(out@ =~= prefix@ + seq!['_'] + suffix_text(v as nat));
        string_of_chars(&out)
    }
}

proof fn lemma_no_underscore(s: Seq<char>)
    requires
        forall|i: int| 0 <= i < s.len() ==> #[trigger] s[i] != '_',
    ensures
        last_underscore(s) < 0,
    decreases s.len(),
{
    if s.len() > 0 {
        lemma_no_underscore(s.drop_last());
    }
}

/// A bare suffix (no prefix) is a TypeID whose canonical text is itself.
pub proof fn lemma_bare_suffix_parses(v: u128)
    ensures
        typeid_parses(suffix_text(v as nat)),
        typeid_prefix(suffix_text(v as nat)).len() == 0,
        typeid_text(typeid_prefix(suffix_text(v as nat)), suffix_value(typeid_suffix(suffix_text(v as nat))))
            == suffix_text(v as nat),
{
    let s = suffix_text(v as nat);
    let ds = digits_of(v as nat, 32, 26);
    lemma_digits_shape(v as nat, 32, 26);
    assert forall|i: int| 0 <= i < s.len() implies #[trigger] s[i] != '_' by {
        assert(ds[i] < 32);
    }
    lemma_no_underscore(s);
    lemma_suffix_round_trip(v);
}

/// TypeID generator with a fixed prefix.
#[derive(Debug)]
pub struct TypeIdGenerator {
    pub prefix: String,
}

impl TypeIdGenerator {
    pub fn new(prefix: &str) -> (r: TypeIdGenerator)
        ensures
            r.prefix@ == prefix@,
    {
        TypeIdGenerator { prefix: prefix.to_owned() }
    }

    /// The TypeID of a 16-byte payload under this generator's prefix.
    pub fn generate_from(&self, bytes: &[u8]) -> (r: String)
        requires
            bytes@.len() == 16,
        ensures
            r@ == typeid_text(self.prefix@, crate::encoding::be_value(bytes@)),
    {
        let v = match bytes_to_u128(bytes) {
            Some(v) => v,
            None => 0,
        };
        render(&self.prefix, v)
    }

    /// A fresh TypeID whose payload is a new UUIDv7.
    pub fn generate(&self) -> (r: Result<String>)
        ensures
            r is Ok,
            r matches Ok(s) ==> exists|b: Seq<u8>|
                b.len() == 16 && b[6] / 16 == 7 && s@ == typeid_text(
                    self.prefix@,
                    crate::encoding::be_value(b),
                ),
    {
        let b = crate::uuid_id::uuid_now_v7();
        Ok(self.generate_from(b.as_slice()))
    }
}

/// What a TypeID renders as in each re-encoding format.
pub open spec fn typeid_encoded(prefix: Seq<char>, v: u128, f: EncodingFormat) -> Seq<char> {
    if f == EncodingFormat::Canonical {
        typeid_text(prefix, v as nat)
    } else {
        encoded_text(be_bytes_spec(v as nat, 16), f)
    }
}

/// A parsed TypeID.
#[derive(Debug)]
pub struct ParsedTypeId {
    pub prefix: String,
    pub value: u128,
    pub input: String,
}

impl ParsedTypeId {
    pub fn parse(input: &str) -> (r: Result<ParsedTypeId>)
        ensures
            r is Ok <==> typeid_parses(trimmed(input@)),
            r matches Ok(p) ==> (p.prefix@ == typeid_prefix(trimmed(input@)) && p.value as nat
                == suffix_value(typeid_suffix(trimmed(input@))) && p.input@ == trimmed(input@)),
            r matches Err(e) ==> e is ParseError,
    {
        let t = trimmed_chars(input);
        let n = t.len();
        let (prefix, suffix) = match find_last_underscore(&t) {
            Some(k) => {
                let p = slice_chars(&t, 0, k);
                if p.len() == 0 || !crate::text::is_lower_char(p[0]) {
                    return Err(IdtError::ParseError("TypeID prefix must start with a letter".to_owned()));
                }
                if !prefix_ok(&p) {
                    return Err(
                        IdtError::ParseError(
                            "TypeID prefix must contain only lowercase letters and underscores".to_owned(),
                        ),
                    );
                }
                (p, slice_chars(&t, k + 1, n))
            },
            None => {
                assert(prefix_chars_ok(Seq::<char>::empty()));
                (Vec::new(), t.clone())
            },
        };
        assert(prefix@ =~= typeid_prefix(t@));
        assert(suffix@ =~= typeid_suffix(t@));
        let value = typeid_suffix_decode(&suffix)?;
        Ok(ParsedTypeId { prefix: string_of_chars(&prefix), value, input: string_of_chars(&t) })
    }

    pub fn kind(&self) -> (r: IdKind)
        ensures
            r == IdKind::TypeId,
    {
        IdKind::TypeId
    }

    pub fn canonical(&self) -> (r: String)
        ensures
            r@ == typeid_text(self.prefix@, self.value as nat),
    {
        render(&self.prefix, self.value)
    }

    pub fn as_bytes(&self) -> (r: Vec<u8>)
        ensures
            r@ == be_bytes_spec(self.value as nat, 16),
            r@.len() == 16,
    {
        be_bytes(self.value, 16)
    }

    pub fn uuid_version(&self) -> (r: u8)
        ensures
            r as nat == embedded_version(self.value as nat),
    {
        ((self.value / 0x1000_0000_0000_0000_0000) % 16) as u8
    }

    /// The embedded milliseconds when the payload is a UUIDv7.
    pub fn timestamp_ms(&self) -> (r: Option<u64>)
        ensures
            r is Some <==> embedded_version(self.value as nat) == 7,
            r matches Some(ms) ==> ms as nat == self.value as nat / 0x1_0000_0000_0000_0000_0000,
    {
        if self.uuid_version() == 7 {
            Some((self.value / 0x1_0000_0000_0000_0000_0000) as u64)
        } else {
            None
        }
    }

    pub fn timestamp(&self) -> (r: Option<Timestamp>)
        ensures
            r is Some <==> embedded_version(self.value as nat) == 7,
            r matches Some(t) ==> t.millis as nat == self.value as nat / 0x1_0000_0000_0000_0000_0000,
    {
        match self.timestamp_ms() {
            Some(ms) => Some(Timestamp::new(ms)),
            None => None,
        }
    }

    /// Always valid; hints when the payload is not a UUIDv7.
    pub fn validate(&self) -> (r: ValidationResult)
        ensures
            r.valid,
            r.id_type matches Some(t) && t@ == "typeid"@,
            r.hint is None <==> embedded_version(self.value as nat) == 7,
    {
        let version = self.uuid_version();
        if version != 7 {
            let mut m: Vec<char> = Vec::new();
            push_str(&mut m, "Embedded UUID is v");
            crate::encoding::push_decimal(&mut m, version as u128);
            push_str(&mut m, ", expected v7");
            let hint = string_of_chars(&m);
            ValidationResult::valid("typeid").with_hint(hint.as_str())
        } else {
            ValidationResult::valid("typeid")
        }
    }

    pub fn encode(&self, format: EncodingFormat) -> (r: String)
        ensures
            r@ == typeid_encoded(self.prefix@, self.value, format),
    {
        if format == EncodingFormat::Canonical {
            self.canonical()
        } else {
            let bytes = self.as_bytes();
            encode_bytes(bytes.as_slice(), format)
        }
    }

    pub fn inspect(&self) -> (r: InspectionResult)
        ensures
            r.id_type@ == "typeid"@,
            r.canonical@ == typeid_text(self.prefix@, self.value as nat),
            r.input == self.input,
            r.valid,
            r.timestamp is Some <==> embedded_version(self.value as nat) == 7,
            r.timestamp matches Some(t) ==> t.millis as nat == self.value as nat / 0x1_0000_0000_0000_0000_0000,
            r.variant matches Some(p) && p@ == self.prefix@,
            r.random_bits == Some(62u32),
            r.encodings.hex@ == hex_text(be_bytes_spec(self.value as nat, 16), false),
            r.encodings.base32@ == crate::encoding::base32_of(be_bytes_spec(self.value as nat, 16)),
            r.encodings.base58@ == crate::encoding::base58_of(be_bytes_spec(self.value as nat, 16)),
            r.encodings.base64@ == crate::encoding::base64_of(be_bytes_spec(self.value as nat, 16)),
            r.encodings.int matches Some(t) && t@ == decimal_of(self.value as nat),
            r.timestamp is None ==> r.timestamp_iso is None,
            r.timestamp matches Some(t) ==> (r.timestamp_iso matches Some(x) && x@ == crate::id::iso_text(t.millis)),
    {
        let bytes = self.as_bytes();
        let timestamp = self.timestamp();
        let version = self.uuid_version();
        let mut arr: [u8; 16] = [0u8; 16];
        let mut i: usize = 0;
        while i < 16
            invariant
                bytes@.len() == 16,
                arr@.len() == 16,
                i <= 16,
            decreases 16 - i,
        {
            arr[i] = bytes[i];
            i = i + 1;
        }
        let uuid_text = crate::uuid_id::uuid_display(arr);
        let mut components: Vec<(String, ComponentValue)> = Vec::new();
        components.push(("prefix".to_owned(), ComponentValue::Text(self.prefix.clone())));
        components.push(("uuid".to_owned(), ComponentValue::Text(uuid_text)));
        components.push(("uuid_version".to_owned(), ComponentValue::Number(version as u128)));
        let mut timestamp_iso: Option<String> = None;
        match timestamp {
            Some(ts) => {
                components.push(("timestamp_ms".to_owned(), ComponentValue::Number(ts.millis as u128)));
                timestamp_iso = Some(ts.to_iso8601());
            },
            None => {
                components.push(("timestamp_ms".to_owned(), ComponentValue::Null));
            },
        }
        let mut vname: Vec<char> = Vec::new();
        push_str(&mut vname, "UUIDv");
        crate::encoding::push_decimal(&mut vname, version as u128);
        InspectionResult {
            id_type: "typeid".to_owned(),
            input: self.input.clone(),
            canonical: self.canonical(),
            valid: true,
            timestamp,
            timestamp_iso,
            timestamp_local_iso: None,
            version: Some(string_of_chars(&vname)),
            variant: Some(self.prefix.clone()),
            random_bits: Some(62),
            components: Some(components),
            encodings: IdEncodings {
                hex: encode_hex(bytes.as_slice()),
                base32: encode_base32(bytes.as_slice()),
                base58: encode_base58(bytes.as_slice()),
                base64: encode_base64(bytes.as_slice()),
                int: Some(decimal_text(self.value)),
            },
        }
    }
}

/// Whether a text parses as a TypeID.
pub fn is_typeid(input: &str) -> (r: bool)
    ensures
        r == typeid_parses(trimmed(input@)),
{
    ParsedTypeId::parse(input).is_ok()
}

} // verus!
