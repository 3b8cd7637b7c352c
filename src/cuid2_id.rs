use crate::cuid_id::{base36_char, base36_symbol, text_encoded, utf8_bytes};
use crate::encoding::{be_value, encode_base64, encode_hex, hex_text, nats, EncodingFormat};
use crate::error::{IdtError, Result};
use crate::id::{current_timestamp_ms, ComponentValue, IdEncodings, InspectionResult, Timestamp, ValidationResult};
use crate::kind::IdKind;
use crate::ksuid_id::divmod_base62;
use crate::text::{all_lower_or_digit, all_lower_or_digit_chars, is_digit, is_lower, push_str, string_of_chars, trimmed, trimmed_chars};
use sha2::Digest;
use vstd::prelude::*;

verus! {

/// The default CUID2 length.
pub const DEFAULT_LENGTH: usize = 24;

pub uninterp spec fn sha256_of(data: Seq<u8>) -> Seq<u8>;

/// Relies on `sha2::Sha256::digest`: the 32-byte SHA-256 digest, which
/// depends on the data alone.
#[verifier::external_body]
fn sha256(data: &[u8]) -> (r: Vec<u8>)
    ensures
        r@ == sha256_of(data@),
        r@.len() == 32,
{
    sha2::Sha256::digest(data).to_vec()
}

/// The base36 digits of `v` without leading zeros (a single `0` for zero).
pub open spec fn base36_min(v: nat) -> Seq<char>
    decreases v,
{
    if v < 36 {
        seq![base36_symbol(v)]
    } else {
        base36_min(v / 36).push(base36_symbol(v % 36))
    }
}

fn all_zero(num: &Vec<u8>) -> (r: bool)
    ensures
        r == (be_value(num@) == 0),
{
    let mut i: usize = 0;
    while i < num.len()
        invariant
            i <= num@.len(),
            forall|j: int| 0 <= j < i ==> #[trigger] num@[j] == 0,
        decreases num@.len() - i,
    {
        if num[i] != 0 {
            proof {
                lemma_nonzero_value(num@, i as int);
            }
            return false;
        }
        i = i + 1;
    }
    proof {
        lemma_zero_bytes_value(num@);
    }
    true
}

proof fn lemma_zero_bytes_value(b: Seq<u8>)
    requires
        forall|j: int| 0 <= j < b.len() ==> #[trigger] b[j] == 0,
    ensures
        be_value(b) == 0,
    decreases b.len(),
{
    if b.len() > 0 {
        assert(nats(b).drop_last() =~= nats(b.drop_last()));
        lemma_zero_bytes_value(b.drop_last());
    }
}

proof fn lemma_nonzero_value(b: Seq<u8>, i: int)
    requires
        0 <= i < b.len(),
        b[i] != 0,
    ensures
        be_value(b) != 0,
{
    let pre = b.subrange(0, i + 1);
    assert(nats(pre) =~= nats(b.subrange(0, i)).push(b[i] as nat));
    crate::digits::lemma_value_push(nats(b.subrange(0, i)), b[i] as nat, 256);
    crate::digits::lemma_prefix_value_le(nats(b), 256, i + 1);
    assert(nats(b).subrange(0, i + 1) =~= nats(pre));
}

/// Appends the base36 digits of a big-endian number, without leading zeros.
pub fn push_base36(out: &mut Vec<char>, num: Vec<u8>)
    ensures
        final(out)@ == old(out)@ + base36_min(be_value(num@)),
    decreases be_value(num@),
{
    let ghost v = be_value(num@);
    let mut q = num;
    let r = divmod_base62(&mut q, 36);
    if !all_zero(&q) {
        push_base36(out, q);
    }
    out.push(base36_char(r));
}

/// Converts bytes to base36 without leading zeros.
pub fn bytes_to_base36(bytes: &[u8]) -> (r: String)
    ensures
        r@ == base36_min(be_value(bytes@)),
{
    let mut out: Vec<char> = Vec::new();
    push_base36(&mut out, vstd::slice::slice_to_vec(bytes));
    assert(out@ =~= base36_min(be_value(bytes@)));
    string_of_chars(&out)
}

/// The first `n` chars of `s` (all of it when shorter).
pub open spec fn take_chars(s: Seq<char>, n: nat) -> Seq<char> {
    if s.len() > n {
        s.subrange(0, n as int)
    } else {
        s
    }
}

/// A leading digit `d` becomes the letter `d` places after `a`.
pub open spec fn letter_first(s: Seq<char>) -> Seq<char> {
    if s.len() > 0 && is_digit(s[0]) {
        s.update(0, ((97 + (s[0] as u32 - 48) % 26) as u8) as char)
    } else {
        s
    }
}

/// A CUID2 from the base36 digest text: truncated to `length`, letter first,
/// padded with base36 symbols drawn from `pad`.
pub open spec fn cuid2_finish(base: Seq<char>, length: nat, pad: Seq<u8>) -> Seq<char> {
    let t = letter_first(take_chars(base, length));
    t + Seq::new((length - t.len()) as nat, |i: int| base36_symbol((pad[i] % 36) as nat))
}

proof fn lemma_base36_min_shape(v: nat)
    ensures
        base36_min(v).len() >= 1,
        all_lower_or_digit(base36_min(v)),
    decreases v,
{
    if v >= 36 {
        lemma_base36_min_shape(v / 36);
        let p = base36_min(v / 36);
        let s = base36_min(v);
        assert forall|i: int| 0 <= i < s.len() implies is_lower(#[trigger] s[i]) || is_digit(s[i]) by {
            if i < p.len() {
                assert(s[i] == p[i]);
            }
        }
    }
}

/// A finished CUID2 has the configured length and, when non-empty, the
/// CUID2 shape: a lowercase letter first, lowercase alphanumerics throughout.
pub proof fn lemma_cuid2_finish_shape(base: Seq<char>, length: nat, pad: Seq<u8>)
    requires
        base.len() >= 1,
        all_lower_or_digit(base),
        pad.len() >= length,
    ensures
        cuid2_finish(base, length, pad).len() == length,
        all_lower_or_digit(cuid2_finish(base, length, pad)),
        length > 0 ==> cuid2_shape(cuid2_finish(base, length, pad)),
{
    let t0 = take_chars(base, length);
    let t = letter_first(t0);
    let r = cuid2_finish(base, length, pad);
    assert(t0.len() <= length);
    assert forall|i: int| 0 <= i < t0.len() implies is_lower(#[trigger] t0[i]) || is_digit(t0[i]) by {
        assert(t0[i] == base[i]);
    }
    assert forall|i: int| 0 <= i < t.len() implies is_lower(#[trigger] t[i]) || is_digit(t[i]) by {
        assert(is_lower(t0[i]) || is_digit(t0[i]));
    }
    assert forall|i: int| 0 <= i < r.len() implies is_lower(#[trigger] r[i]) || is_digit(r[i]) by {
        if i < t.len() {
            assert(r[i] == t[i]);
        } else {
            assert(r[i] == base36_symbol((pad[i - t.len()] % 36) as nat));
        }
    }
    if length > 0 {
        assert(t0.len() >= 1);
        assert(is_lower(t0[0]) || is_digit(t0[0]));
        assert(is_lower(t[0]));
        assert(r[0] == t[0]);
    }
}

/// The bytes hashed for one CUID2: six little-endian 64-bit words.
pub open spec fn cuid2_preimage(words: Seq<u64>) -> Seq<u8> {
    Seq::new(48, |i: int| ((words[i / 8] as nat / vstd::arithmetic::power::pow(256, (i % 8) as nat) as nat) % 256) as u8)
}

fn le_words(words: &Vec<u64>) -> (r: Vec<u8>)
    requires
        words@.len() == 6,
    ensures
        r@ == cuid2_preimage(words@),
{
    let mut out: Vec<u8> = Vec::new();
    let mut i: usize = 0;
    while i < 48
        invariant
            words@.len() == 6,
            i <= 48,
            out@ == cuid2_preimage(words@).subrange(0, i as int),
        decreases 48 - i,
    {
        let w = words[i / 8];
        let k = i % 8;
        let mut p: u64 = 1;
        let mut j: usize = 0;
        assert(vstd::arithmetic::power::pow(256, 0) == 1) by {
            reveal(vstd::arithmetic::power::pow);
        }
        while j < k
            invariant
                j <= k < 8,
                p as nat == vstd::arithmetic::power::pow(256, j as nat),
            decreases k - j,
        {
            proof {
                vstd::arithmetic::power::lemma_pow_increases(256, j as nat, 7);
                reveal_with_fuel(vstd::arithmetic::power::pow, 8);
                assert(vstd::arithmetic::power::pow(256, (j + 1) as nat) == 256 * vstd::arithmetic::power::pow(256, j as nat)) by {
                    reveal(vstd::arithmetic::power::pow);
                }
            }
            p = p * 256;
            j = j + 1;
        }
        proof {
            vstd::arithmetic::power::lemma_pow_positive(256, k as nat);
        }
        out.push(((w / p) % 256) as u8);
        i = i + 1;
        assert(out@ =~= cuid2_preimage(words@).subrange(0, i as int));
    }
    assert(out@ =~= cuid2_preimage(words@));
    out
}

/// CUID2 generator with its own counter.
#[derive(Debug)]
pub struct Cuid2Generator {
    pub length: usize,
    pub counter: u64,
    pub process_id: u64,
}

impl Cuid2Generator {
    pub fn new() -> (r: Cuid2Generator)
        ensures
            r.length == DEFAULT_LENGTH,
            r.counter == 0,
            r.process_id == 0,
    {
        Cuid2Generator { length: DEFAULT_LENGTH, counter: 0, process_id: 0 }
    }

    pub fn with_process_id(self, pid: u64) -> (r: Cuid2Generator)
        ensures
            r.length == self.length,
            r.counter == self.counter,
            r.process_id == pid,
    {
        Cuid2Generator { process_id: pid, ..self }
    }

    /// The CUID2 for a clock reading, salt, two random words and padding
    /// bytes; the counter advances by one (wrapping).
    pub fn generate_at(&mut self, now_ms: u64, salt: u64, random1: u64, random2: u64, pad: &Vec<u8>) -> (r: String)
        requires
            pad@.len() >= old(self).length,
        ensures
            r@ == cuid2_finish(
                base36_min(be_value(sha256_of(cuid2_preimage(seq![now_ms, old(self).counter, salt, old(self).process_id, random1, random2])))),
                old(self).length as nat,
                pad@,
            ),
            r@.len() == old(self).length,
            all_lower_or_digit(r@),
            old(self).length > 0 ==> cuid2_shape(r@),
            final(self).counter as nat == (old(self).counter as nat + 1) % 0x1_0000_0000_0000_0000,
            final(self).length == old(self).length,
            final(self).process_id == old(self).process_id,
    {
        let counter = self.counter;
        self.counter = if counter == u64::MAX {
            0
        } else {
            counter + 1
        };
        let words: Vec<u64> = vec![now_ms, counter, salt, self.process_id, random1, random2];
        assert(words@ =~= seq![now_ms, counter, salt, self.process_id, random1, random2]);
        let data = le_words(&words);
        let digest = sha256(data.as_slice());
        let base = bytes_to_base36(digest.as_slice());
        proof {
            lemma_base36_min_shape(be_value(digest@));
            lemma_cuid2_finish_shape(base@, self.length as nat, pad@);
        }
        let cs = crate::text::chars_of(base.as_str());
        let length = self.length;
        let mut out: Vec<char> = Vec::new();
        let mut i: usize = 0;
        let n = if cs.len() > length {
            length
        } else {
            cs.len()
        };
        while i < n
            invariant
                n <= cs@.len(),
                i <= n,
                out@ == cs@.subrange(0, i as int),
            decreases n - i,
        {
            out.push(cs[i]);
            i = i + 1;
        }
        assert(out@ =~= take_chars(cs@, length as nat));
        if out.len() > 0 && '0' <= out[0] && out[0] <= '9' {
            let letter = (97u8 + ((out[0] as u32 - 48) % 26) as u8) as char;
            out.set(0, letter);
        }
        assert(out@ =~= letter_first(take_chars(cs@, length as nat)));
        let ghost head = out@;
        let mut k: usize = 0;
        let missing = length - out.len();
        while k < missing
            invariant
                k <= missing,
                pad@.len() >= length,
                missing == length - head.len(),
                out@ == head + Seq::new(k as nat, |j: int| base36_symbol((pad@[j] % 36) as nat)),
            decreases missing - k,
        {
            out.push(base36_char(pad[k] % 36));
            k = k + 1;
            assert(out@ =~= head + Seq::new(k as nat, |j: int| base36_symbol((pad@[j] % 36) as nat)));
        }
        string_of_chars(&out)
    }

    pub fn generate(&mut self) -> (r: Result<String>)
        ensures
            r is Ok,
            r matches Ok(s) ==> exists|t: u64, a: u64, b: u64, c: u64, p: Seq<u8>| s@ == cuid2_finish(
                base36_min(be_value(sha256_of(cuid2_preimage(seq![t, old(self).counter, a, old(self).process_id, b, c])))),
                old(self).length as nat,
                p,
            ),
            r matches Ok(s) ==> s@.len() == old(self).length && all_lower_or_digit(s@) && (old(self).length > 0
                ==> cuid2_shape(s@)),
            final(self).counter as nat == (old(self).counter as nat + 1) % 0x1_0000_0000_0000_0000,
            final(self).length == old(self).length,
            final(self).process_id == old(self).process_id,
    {
        let now = current_timestamp_ms();
        let salt = crate::random::random_u64();
        let r1 = crate::random::random_u64();
        let r2 = crate::random::random_u64();
        let pad = crate::random::random_bytes(self.length);
        Ok(self.generate_at(now, salt, r1, r2, &pad))
    }
}

/// Whether a text has the CUID2 shape: non-empty, lowercase letter first,
/// lowercase alphanumerics throughout.
pub open spec fn cuid2_shape(s: Seq<char>) -> bool {
    s.len() > 0 && is_lower(s[0]) && all_lower_or_digit(s)
}

/// A parsed CUID2; the format is opaque.
#[derive(Debug)]
pub struct ParsedCuid2 {
    pub value: String,
    pub input: String,
}

impl ParsedCuid2 {
    pub fn parse(input: &str) -> (r: Result<ParsedCuid2>)
        ensures
            r is Ok <==> cuid2_shape(trimmed(input@)),
            r matches Ok(p) ==> (p.value@ == trimmed(input@) && p.input@ == trimmed(input@)),
            r matches Err(e) ==> e is ParseError,
    {
        let t = trimmed_chars(input);
        if t.len() == 0 {
            return Err(IdtError::ParseError("Empty CUID2".to_owned()));
        }
        if !crate::text::is_lower_char(t[0]) {
            return Err(IdtError::ParseError("CUID2 must start with a lowercase letter".to_owned()));
        }
        if !all_lower_or_digit_chars(&t) {
            return Err(IdtError::ParseError("CUID2 must contain only lowercase alphanumeric characters".to_owned()));
        }
        Ok(ParsedCuid2 { value: string_of_chars(&t), input: string_of_chars(&t) })
    }

    pub fn kind(&self) -> (r: IdKind)
        ensures
            r == IdKind::Cuid2,
    {
        IdKind::Cuid2
    }

    pub fn canonical(&self) -> (r: String)
        ensures
            r@ == self.value@,
    {
        self.value.clone()
    }

    pub fn as_bytes(&self) -> (r: Vec<u8>)
        ensures
            r@ == vstd::utf8::encode_utf8(self.value@),
    {
        utf8_bytes(&self.value)
    }

    pub fn timestamp(&self) -> (r: Option<Timestamp>)
        ensures
            r is None,
    {
        None
    }

    /// Always valid; hints when the length is not the default.
    pub fn validate(&self) -> (r: ValidationResult)
        ensures
            r.valid,
            r.id_type matches Some(t) && t@ == "cuid2"@,
            r.hint is None <==> self.value@.len() == DEFAULT_LENGTH,
    {
        let n = self.value.as_str().unicode_len();
        if n == DEFAULT_LENGTH {
            ValidationResult::valid("cuid2")
        } else {
            let mut m: Vec<char> = Vec::new();
            push_str(&mut m, "Non-standard length: ");
            crate::encoding::push_decimal(&mut m, n as u128);
            push_str(&mut m, " (default is 24)");
            let hint = string_of_chars(&m);
            ValidationResult::valid("cuid2").with_hint(hint.as_str())
        }
    }

    pub fn encode(&self, format: EncodingFormat) -> (r: String)
        ensures
            r@ == text_encoded(self.value@, format),
    {
        let bytes = self.as_bytes();
        match format {
            EncodingFormat::Hex => encode_hex(bytes.as_slice()),
            EncodingFormat::Base64 => encode_base64(bytes.as_slice()),
            _ => self.canonical(),
        }
    }

    pub fn inspect(&self) -> (r: InspectionResult)
        ensures
            r.id_type@ == "cuid2"@,
            r.canonical@ == self.value@,
            r.input == self.input,
            r.valid,
            r.timestamp is None,
            r.version matches Some(v) && v@ == "2"@,
            r.random_bits is None,
            r.encodings.hex@ == hex_text(vstd::utf8::encode_utf8(self.value@), false),
            r.encodings.base32@.len() == 0,
            r.encodings.base58@.len() == 0,
            r.encodings.base64@ == crate::encoding::base64_of(vstd::utf8::encode_utf8(self.value@)),
            r.timestamp is None ==> r.timestamp_iso is None,
            r.timestamp matches Some(t) ==> (r.timestamp_iso matches Some(x) && x@ == crate::id::iso_text(t.millis)),
    {
        let bytes = self.as_bytes();
        let mut components: Vec<(String, ComponentValue)> = Vec::new();
        components.push(("length".to_owned(), ComponentValue::Number(self.value.as_str().len() as u128)));
        components.push(("note".to_owned(), ComponentValue::Text("CUID2 is opaque — no components extractable".to_owned())));
        InspectionResult {
            id_type: "cuid2".to_owned(),
            input: self.input.clone(),
            canonical: self.canonical(),
            valid: true,
            timestamp: None,
            timestamp_iso: None,
            timestamp_local_iso: None,
            version: Some("2".to_owned()),
            variant: None,
            random_bits: None,
            components: Some(components),
            encodings: IdEncodings {
                hex: encode_hex(bytes.as_slice()),
                base32: String::new(),
                base58: String::new(),
                base64: encode_base64(bytes.as_slice()),
                int: None,
            },
        }
    }
}

/// Whether a text parses as a CUID2.
pub fn is_cuid2(input: &str) -> (r: bool)
    ensures
        r == cuid2_shape(trimmed(input@)),
{
    ParsedCuid2::parse(input).is_ok()
}

} // verus!
