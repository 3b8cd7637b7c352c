use crate::digits::{digits_of, lemma_digits_shape, lemma_prefix_value_le, lemma_value_push, value_of};
use crate::encoding::{base64_of, digit_values, encode_base64, encode_hex, hex_text, nats, EncodingFormat};
use crate::error::{IdtError, Result};
use crate::id::{current_timestamp_ms, ComponentValue, IdEncodings, InspectionResult, Timestamp, ValidationResult};
use crate::kind::IdKind;
use crate::text::{
    all_lower_or_digit, all_lower_or_digit_chars, is_digit, is_lower, string_of_chars, trimmed,
    trimmed_chars,
};
use vstd::prelude::*;

verus! {

/// The base36 symbol of a value below 36: digits, then `a`-`z`.
pub open spec fn base36_symbol(d: nat) -> char {
    if d < 10 {
        ((48 + d) as u8) as char
    } else {
        ((87 + d) as u8) as char
    }
}

pub open spec fn base36_value(c: char) -> nat {
    if is_digit(c) {
        (c as u32 - 48) as nat
    } else {
        (c as u32 - 87) as nat
    }
}

/// The last `width` base36 digits of `v`, zero-padded on the left.
pub open spec fn base36_text(v: nat, width: nat) -> Seq<char> {
    digits_of(v, 36, width).map_values(|d: nat| base36_symbol(d))
}

pub open spec fn base36_digits(s: Seq<char>) -> Seq<nat> {
    s.map_values(|c: char| base36_value(c))
}

pub fn base36_char(d: u8) -> (r: char)
    requires
        d < 36,
    ensures
        r == base36_symbol(d as nat),
{
    if d < 10 {
        (48u8 + d) as char
    } else {
        (87u8 + d) as char
    }
}

/// The last `width` base36 digits of `value`, zero-padded on the left.
pub fn pad_base36(value: u64, width: usize) -> (r: String)
    ensures
        r@ == base36_text(value as nat, width as nat),
{
    let ds = digit_values(value as u128, 36, width);
    proof {
        lemma_digits_shape(value as nat, 36, width as nat);
    }
    let mut out: Vec<char> = Vec::new();
    let mut i: usize = 0;
    while i < width
        invariant
            i <= width,
            ds@.len() == width,
            nats(ds@) == digits_of(value as nat, 36, width as nat),
            crate::digits::digits_below(digits_of(value as nat, 36, width as nat), 36),
            out@ == base36_text(value as nat, width as nat).subrange(0, i as int),
        decreases width - i,
    {
        assert(nats(ds@)[i as int] == ds@[i as int] as nat);
        out.push(base36_char(ds[i]));
        i = i + 1;
        assert(out@ =~= base36_text(value as nat, width as nat).subrange(0, i as int));
    }
    assert(out@ =~= base36_text(value as nat, width as nat));
    string_of_chars(&out)
}

/// Reads lowercase base36; `None` on a foreign symbol or a value that does
/// not fit in 64 bits.
pub fn decode_base36(s: &Vec<char>) -> (r: Option<u64>)
    ensures
        r is Some <==> (all_lower_or_digit(s@) && value_of(base36_digits(s@), 36) < 0x1_0000_0000_0000_0000),
        r matches Some(v) ==> v as nat == value_of(base36_digits(s@), 36),
{
    let mut value: u64 = 0;
    let mut i: usize = 0;
    assert(base36_digits(s@).subrange(0, 0) =~= Seq::<nat>::empty());
    while i < s.len()
        invariant
            i <= s@.len(),
            value as nat == value_of(base36_digits(s@).subrange(0, i as int), 36),
            forall|j: int| 0 <= j < i ==> is_lower(#[trigger] s@[j]) || is_digit(s@[j]),
        decreases s@.len() - i,
    {
        let c = s[i];
        let v: u64 = if '0' <= c && c <= '9' {
            (c as u32 - 48) as u64
        } else if 'a' <= c && c <= 'z' {
            (c as u32 - 87) as u64
        } else {
            return None;
        };
        let ghost pre = base36_digits(s@).subrange(0, i as int);
        let ghost cur = base36_digits(s@).subrange(0, i + 1);
        proof {
            assert(cur =~= pre.push(v as nat));
            lemma_value_push(pre, v as nat, 36);
        }
        if value > (u64::MAX - v) / 36 {
            proof {
                let m = (u64::MAX - v) as int;
                let x = value as int;
                assert(x * 36 + v > u64::MAX) by (nonlinear_arith)
                    requires
                        x > m / 36,
                        m == u64::MAX - v,
                        0 <= v <= 35,
                ;
                lemma_prefix_value_le(base36_digits(s@), 36, i + 1);
            }
            return None;
        }
        value = value * 36 + v;
        i = i + 1;
    }
    assert(base36_digits(s@).subrange(0, s@.len() as int) =~= base36_digits(s@));
    Some(value)
}

/// Whether a text has the CUID shape: 25 lowercase alphanumerics starting
/// with `c`.
pub open spec fn cuid_shape(s: Seq<char>) -> bool {
    s.len() == 25 && s[0] == 'c' && all_lower_or_digit(s)
}

/// The simplified host fingerprint: `localhost` folded as base36 with
/// wrapping arithmetic.
pub open spec fn host_hash(b: Seq<u8>) -> nat
    decreases b.len(),
{
    if b.len() == 0 {
        0
    } else {
        (host_hash(b.drop_last()) * 36 + b.last() as nat) % 0x1_0000_0000_0000_0000
    }
}

/// The CUID for a clock reading, counter value, process id and random value.
pub open spec fn cuid_text(now_ms: nat, counter: nat, pid: nat, random: nat) -> Seq<char> {
    seq!['c'] + base36_text(now_ms, 8) + base36_text(counter, 4) + base36_text(
        (pid + host_hash(vstd::utf8::encode_utf8("localhost"@))) % 0x1_0000_0000_0000_0000,
        4,
    ) + base36_text(random % 2821109907456, 8)
}

proof fn lemma_base36_text_chars(v: nat, width: nat)
    ensures
        base36_text(v, width).len() == width,
        all_lower_or_digit(base36_text(v, width)),
{
    lemma_digits_shape(v, 36, width);
    let t = base36_text(v, width);
    assert forall|i: int| 0 <= i < t.len() implies is_lower(#[trigger] t[i]) || is_digit(t[i]) by {
        assert(digits_of(v, 36, width)[i] < 36);
    }
}

/// Every generated CUID has the CUID shape.
pub proof fn lemma_cuid_text_shape(now_ms: nat, counter: nat, pid: nat, random: nat)
    ensures
        cuid_shape(cuid_text(now_ms, counter, pid, random)),
{
    let a = base36_text(now_ms, 8);
    let b = base36_text(counter, 4);
    let c = base36_text((pid + host_hash(vstd::utf8::encode_utf8("localhost"@))) % 0x1_0000_0000_0000_0000, 4);
    let d = base36_text(random % 2821109907456, 8);
    lemma_base36_text_chars(now_ms, 8);
    lemma_base36_text_chars(counter, 4);
    lemma_base36_text_chars((pid + host_hash(vstd::utf8::encode_utf8("localhost"@))) % 0x1_0000_0000_0000_0000, 4);
    lemma_base36_text_chars(random % 2821109907456, 8);
    let s = cuid_text(now_ms, counter, pid, random);
    assert(s == seq!['c'] + a + b + c + d);
    assert forall|i: int| 0 <= i < s.len() implies is_lower(#[trigger] s[i]) || is_digit(s[i]) by {
        if i == 0 {
        } else if i < 9 {
            assert(s[i] == a[i - 1]);
        } else if i < 13 {
            assert(s[i] == b[i - 9]);
        } else if i < 17 {
            assert(s[i] == c[i - 13]);
        } else {
            assert(s[i] == d[i - 17]);
        }
    }
}

/// CUID (v1) generator with its own counter.
#[derive(Debug)]
pub struct CuidGenerator {
    pub counter: u32,
    pub process_id: u32,
}

impl CuidGenerator {
    pub fn new() -> (r: CuidGenerator)
        ensures
            r.counter == 0,
            r.process_id == 0,
    {
        CuidGenerator { counter: 0, process_id: 0 }
    }

    pub fn with_process_id(self, pid: u32) -> (r: CuidGenerator)
        ensures
            r.counter == self.counter,
            r.process_id == pid,
    {
        CuidGenerator { process_id: pid, ..self }
    }

    /// The CUID for a clock reading and a random value; the counter advances
    /// by one (wrapping at 2^32).
    pub fn generate_at(&mut self, now_ms: u64, random: u64) -> (r: String)
        ensures
            r@ == cuid_text(now_ms as nat, old(self).counter as nat, old(self).process_id as nat, random as nat),
            final(self).counter as nat == (old(self).counter as nat + 1) % 0x1_0000_0000,
            final(self).process_id == old(self).process_id,
    {
        let counter = self.counter;
        self.counter = if counter == u32::MAX {
            0
        } else {
            counter + 1
        };
        let name = "localhost".as_bytes();
        let mut h: u64 = 0;
        let mut i: usize = 0;
        assert(name@.subrange(0, 0) =~= Seq::<u8>::empty());
        while i < name.len()
            invariant
                i <= name@.len(),
                name@ == vstd::utf8::encode_utf8("localhost"@),
                h as nat == host_hash(name@.subrange(0, i as int)),
            decreases name@.len() - i,
        {
            assert(name@.subrange(0, i + 1).drop_last() =~= name@.subrange(0, i as int));
            h = ((h as u128 * 36 + name[i] as u128) % 0x1_0000_0000_0000_0000) as u64;
            i = i + 1;
        }
        assert(name@.subrange(0, name@.len() as int) =~= name@);
        let fingerprint = ((self.process_id as u128 + h as u128) % 0x1_0000_0000_0000_0000) as u64;
        let mut out: Vec<char> = Vec::new();
        out.push('c');
        let a = pad_base36(now_ms, 8);
        let b = pad_base36(counter as u64, 4);
        let c = pad_base36(fingerprint, 4);
        let d = pad_base36(random % 2821109907456, 8);
        crate::text::push_str(&mut out, a.as_str());
        crate::text::push_str(&mut out, b.as_str());
        crate::text::push_str(&mut out, c.as_str());
        crate::text::push_str(&mut out, d.as_str());
        assert(out@ =~= cuid_text(now_ms as nat, counter as nat, self.process_id as nat, random as nat));
        string_of_chars(&out)
    }

    pub fn generate(&mut self) -> (r: Result<String>)
        ensures
            r matches Ok(s) ==> exists|t: nat, x: nat| s@ == cuid_text(
                t,
                old(self).counter as nat,
                old(self).process_id as nat,
                x,
            ),
            final(self).counter as nat == (old(self).counter as nat + 1) % 0x1_0000_0000,
            final(self).process_id == old(self).process_id,
            r is Ok,
    {
        let now = current_timestamp_ms();
        let random = crate::random::random_u64();
        Ok(self.generate_at(now, random))
    }
}

/// What a CUID renders as in each re-encoding format (over its UTF-8 bytes).
pub open spec fn text_encoded(s: Seq<char>, f: EncodingFormat) -> Seq<char> {
    match f {
        EncodingFormat::Hex => hex_text(vstd::utf8::encode_utf8(s), false),
        EncodingFormat::Base64 => base64_of(vstd::utf8::encode_utf8(s)),
        _ => s,
    }
}

/// The UTF-8 bytes of a string.
pub fn utf8_bytes(s: &String) -> (r: Vec<u8>)
    ensures
        r@ == vstd::utf8::encode_utf8(s@),
{
    vstd::slice::slice_to_vec(s.as_str().as_bytes())
}

/// A parsed CUID (v1).
#[derive(Debug)]
pub struct ParsedCuid {
    pub value: String,
    pub input: String,
}

impl ParsedCuid {
    pub fn parse(input: &str) -> (r: Result<ParsedCuid>)
        ensures
            r is Ok <==> cuid_shape(trimmed(input@)),
            r matches Ok(p) ==> (p.value@ == trimmed(input@) && p.input@ == trimmed(input@)),
            r matches Err(e) ==> e is ParseError,
    {
        let t = trimmed_chars(input);
        if t.len() != 25 {
            return Err(IdtError::ParseError("CUID must be 25 characters".to_owned()));
        }
        if t[0] != 'c' {
            return Err(IdtError::ParseError("CUID must start with 'c'".to_owned()));
        }
        if !all_lower_or_digit_chars(&t) {
            return Err(IdtError::ParseError("CUID must contain only lowercase alphanumeric characters".to_owned()));
        }
        Ok(ParsedCuid { value: string_of_chars(&t), input: string_of_chars(&t) })
    }

    fn part(&self, from: usize, to: usize) -> (r: Vec<char>)
        requires
            from <= to <= self.value@.len(),
        ensures
            r@ == self.value@.subrange(from as int, to as int),
    {
        let cs = crate::text::chars_of(self.value.as_str());
        let mut out: Vec<char> = Vec::new();
        let mut i: usize = from;
        while i < to
            invariant
                cs@ == self.value@,
                from <= i <= to <= cs@.len(),
                out@ == cs@.subrange(from as int, i as int),
            decreases to - i,
        {
            out.push(cs[i]);
            i = i + 1;
        }
        out
    }

    /// The base36 timestamp after the leading `c`.
    pub fn timestamp_ms(&self) -> (r: Option<u64>)
        requires
            self.value@.len() == 25,
        ensures
            r is Some <==> (all_lower_or_digit(self.value@.subrange(1, 9)) && value_of(
                base36_digits(self.value@.subrange(1, 9)),
                36,
            ) < 0x1_0000_0000_0000_0000),
            r matches Some(v) ==> v as nat == value_of(base36_digits(self.value@.subrange(1, 9)), 36),
    {
        decode_base36(&self.part(1, 9))
    }

    pub fn counter_str(&self) -> (r: String)
        requires
            self.value@.len() == 25,
        ensures
            r@ == self.value@.subrange(9, 13),
    {
        string_of_chars(&self.part(9, 13))
    }

    pub fn fingerprint_str(&self) -> (r: String)
        requires
            self.value@.len() == 25,
        ensures
            r@ == self.value@.subrange(13, 17),
    {
        string_of_chars(&self.part(13, 17))
    }

    pub fn random_str(&self) -> (r: String)
        requires
            self.value@.len() == 25,
        ensures
            r@ == self.value@.subrange(17, 25),
    {
        string_of_chars(&self.part(17, 25))
    }

    pub fn kind(&self) -> (r: IdKind)
        ensures
            r == IdKind::Cuid,
    {
        IdKind::Cuid
    }

    pub fn canonical(&self) -> (r: String)
        ensures
            r@ == self.value@,
    {
        self.value.clone()
    }

    pub fn as_bytes(&self) -> (r: Vec<u8>)
        ensures
            r@ == vstd::utf8::encode_utf8(self.value@),
    {
        utf8_bytes(&self.value)
    }

    pub fn timestamp(&self) -> (r: Option<Timestamp>)
        requires
            self.value@.len() == 25,
        ensures
            r matches Some(t) ==> t.millis as nat == value_of(base36_digits(self.value@.subrange(1, 9)), 36),
            r is Some <==> (all_lower_or_digit(self.value@.subrange(1, 9)) && value_of(
                base36_digits(self.value@.subrange(1, 9)),
                36,
            ) < 0x1_0000_0000_0000_0000),
    {
        match self.timestamp_ms() {
            Some(ms) => Some(Timestamp::new(ms)),
            None => None,
        }
    }

    /// Always valid, with a deprecation hint.
    pub fn validate(&self) -> (r: ValidationResult)
        ensures
            r.valid,
            r.id_type matches Some(t) && t@ == "cuid"@,
            r.hint matches Some(h) && h@ == "CUID v1 is deprecated; consider CUID2"@,
            r.error is None,
    {
        ValidationResult::valid("cuid").with_hint("CUID v1 is deprecated; consider CUID2")
    }

    pub fn encode(&self, format: EncodingFormat) -> (r: String)
        ensures
            r@ == text_encoded(self.value@, format),
    {
        let bytes = self.as_bytes();
        match format {
            EncodingFormat::Hex => encode_hex(bytes.as_slice()),
            EncodingFormat::Base64 => encode_base64(bytes.as_slice()),
            _ => self.canonical(),
        }
    }

    pub fn inspect(&self) -> (r: InspectionResult)
        requires
            self.value@.len() == 25,
        ensures
            r.id_type@ == "cuid"@,
            r.canonical@ == self.value@,
            r.input == self.input,
            r.valid,
            r.version matches Some(v) && v@ == "1"@,
            r.random_bits is None,
            r.timestamp matches Some(t) ==> t.millis as nat == value_of(base36_digits(self.value@.subrange(1, 9)), 36),
            r.timestamp is Some <==> (all_lower_or_digit(self.value@.subrange(1, 9)) && value_of(
                base36_digits(self.value@.subrange(1, 9)),
                36,
            ) < 0x1_0000_0000_0000_0000),
            r.encodings.hex@ == hex_text(vstd::utf8::encode_utf8(self.value@), false),
            r.encodings.base32@.len() == 0,
            r.encodings.base58@.len() == 0,
            r.encodings.base64@ == crate::encoding::base64_of(vstd::utf8::encode_utf8(self.value@)),
            r.timestamp is None ==> r.timestamp_iso is None,
            r.timestamp matches Some(t) ==> (r.timestamp_iso matches Some(x) && x@ == crate::id::iso_text(t.millis)),
    {
        let bytes = self.as_bytes();
        let timestamp = self.timestamp();
        let mut components: Vec<(String, ComponentValue)> = Vec::new();
        let mut timestamp_iso: Option<String> = None;
        match timestamp {
            Some(ts) => {
                components.push(("timestamp_ms".to_owned(), ComponentValue::Number(ts.millis as u128)));
                timestamp_iso = Some(ts.to_iso8601());
            },
            None => {
                components.push(("timestamp_ms".to_owned(), ComponentValue::Null));
            },
        }
        components.push(("counter".to_owned(), ComponentValue::Text(self.counter_str())));
        components.push(("fingerprint".to_owned(), ComponentValue::Text(self.fingerprint_str())));
        components.push(("random".to_owned(), ComponentValue::Text(self.random_str())));
        InspectionResult {
            id_type: "cuid".to_owned(),
            input: self.input.clone(),
            canonical: self.canonical(),
            valid: true,
            timestamp,
            timestamp_iso,
            timestamp_local_iso: None,
            version: Some("1".to_owned()),
            variant: None,
            random_bits: None,
            components: Some(components),
            encodings: IdEncodings {
                hex: encode_hex(bytes.as_slice()),
                base32: String::new(),
                base58: String::new(),
                base64: encode_base64(bytes.as_slice()),
                int: None,
            },
        }
    }
}

/// Whether a text parses as a CUID.
pub fn is_cuid(input: &str) -> (r: bool)
    ensures
        r == cuid_shape(trimmed(input@)),
{
    ParsedCuid::parse(input).is_ok()
}

} // verus!
