use crate::cuid_id::{text_encoded, utf8_bytes};
use crate::encoding::{encode_base64, encode_hex, hex_text, EncodingFormat};
use crate::error::{IdtError, Result};
use crate::id::{ComponentValue, IdEncodings, InspectionResult, Timestamp, ValidationResult};
use crate::kind::IdKind;
use crate::text::{chars_of, is_alnum, is_ascii_char, string_of_chars, trimmed, trimmed_chars};
use vstd::prelude::*;

verus! {

/// The default NanoID length.
pub const DEFAULT_LENGTH: usize = 21;

/// The default URL-safe NanoID alphabet.
pub open spec fn default_alphabet() -> Seq<char> {
    "0123456789ABCDEFGHIJKLMNOPQRSTUVWXYZ_abcdefghijklmnopqrstuvwxyz-"@
}

pub open spec fn url_safe(c: char) -> bool {
    is_alnum(c) || c == '_' || c == '-'
}

/// Whether a text has the default NanoID shape: 21 URL-safe chars.
pub open spec fn default_shape(s: Seq<char>) -> bool {
    s.len() == DEFAULT_LENGTH && forall|i: int| 0 <= i < s.len() ==> #[trigger] url_safe(s[i])
}

/// Whether an alphabet and size are accepted for generation: 1 to 255 ASCII
/// symbols and a positive size.
pub open spec fn generation_ok(alphabet: Seq<char>, size: nat) -> bool {
    1 <= alphabet.len() <= 255 && (forall|i: int| 0 <= i < alphabet.len() ==> #[trigger] is_ascii_char(alphabet[i]))
        && 1 <= size <= 0x1000_0000
}

/// Relies on `nanoid::format` with its default random source: `size`
/// symbols, each drawn from the alphabet. Its requirements keep it clear of
/// the crate's assertion on long alphabets and of its endless loop on an
/// empty alphabet, a zero size, or symbols longer than one byte.
#[verifier::external_body]
fn nanoid_format(alphabet: &Vec<char>, size: usize) -> (r: String)
    requires
        generation_ok(alphabet@, size as nat),
    ensures
        r@.len() == size,
        forall|i: int| 0 <= i < r@.len() ==> alphabet@.contains(#[trigger] r@[i]),
{
    nanoid::format(nanoid::rngs::default, alphabet.as_slice(), size)
}

/// NanoID generator with a configurable alphabet and length.
#[derive(Debug)]
pub struct NanoIdGenerator {
    pub alphabet: String,
    pub length: usize,
}

impl NanoIdGenerator {
    pub fn new() -> (r: NanoIdGenerator)
        ensures
            r.alphabet@ == default_alphabet(),
            r.length == DEFAULT_LENGTH,
    {
        NanoIdGenerator {
            alphabet: "0123456789ABCDEFGHIJKLMNOPQRSTUVWXYZ_abcdefghijklmnopqrstuvwxyz-".to_owned(),
            length: DEFAULT_LENGTH,
        }
    }

    pub fn with_length(self, length: usize) -> (r: NanoIdGenerator)
        ensures
            r.alphabet == self.alphabet,
            r.length == length,
    {
        NanoIdGenerator { length, ..self }
    }

    pub fn with_alphabet(self, alphabet: &str) -> (r: NanoIdGenerator)
        ensures
            r.alphabet@ == alphabet@,
            r.length == self.length,
    {
        NanoIdGenerator { alphabet: alphabet.to_owned(), ..self }
    }

    /// A fresh NanoID of the configured length over the configured alphabet;
    /// refused for an empty, over-long or non-ASCII alphabet, or a length
    /// that is zero or absurdly large.
    pub fn generate(&self) -> (r: Result<String>)
        ensures
            r is Ok <==> generation_ok(self.alphabet@, self.length as nat),
            r matches Ok(s) ==> s@.len() == self.length && forall|i: int|
                0 <= i < s@.len() ==> self.alphabet@.contains(#[trigger] s@[i]),
            r matches Err(e) ==> e is InvalidArgument,
    {
        let alphabet = chars_of(self.alphabet.as_str());
        if alphabet.len() == 0 || alphabet.len() > 255 {
            return Err(IdtError::InvalidArgument("NanoID alphabet must hold 1 to 255 symbols".to_owned()));
        }
        let mut i: usize = 0;
        while i < alphabet.len()
            invariant
                alphabet@ == self.alphabet@,
                1 <= alphabet@.len() <= 255,
                i <= alphabet@.len(),
                forall|j: int| 0 <= j < i ==> #[trigger] is_ascii_char(alphabet@[j]),
            decreases alphabet@.len() - i,
        {
            if (alphabet[i] as u32) >= 0x80 {
                assert(!is_ascii_char(alphabet@[i as int]));
                return Err(IdtError::InvalidArgument("NanoID alphabet must be ASCII".to_owned()));
            }
            i = i + 1;
        }
        if self.length == 0 || self.length > 0x1000_0000 {
            return Err(IdtError::InvalidArgument("NanoID length must be positive".to_owned()));
        }
        Ok(nanoid_format(&alphabet, self.length))
    }
}

/// A parsed NanoID: any non-empty text.
#[derive(Debug)]
pub struct ParsedNanoId {
    pub value: String,
    pub input: String,
}

impl ParsedNanoId {
    pub fn parse(input: &str) -> (r: Result<ParsedNanoId>)
        ensures
            r is Ok <==> trimmed(input@).len() > 0,
            r matches Ok(p) ==> (p.value@ == trimmed(input@) && p.input@ == trimmed(input@)),
            r matches Err(e) ==> e is ParseError,
    {
        let t = trimmed_chars(input);
        if t.len() == 0 {
            return Err(IdtError::ParseError("Empty NanoID".to_owned()));
        }
        Ok(ParsedNanoId { value: string_of_chars(&t), input: string_of_chars(&t) })
    }

    /// Whether the text has the default length and alphabet.
    pub fn is_default_format(input: &str) -> (r: bool)
        ensures
            r == default_shape(input@),
    {
        let cs = chars_of(input);
        if cs.len() != DEFAULT_LENGTH {
            return false;
        }
        let mut i: usize = 0;
        while i < cs.len()
            invariant
                cs@ == input@,
                cs@.len() == DEFAULT_LENGTH,
                i <= cs@.len(),
                forall|j: int| 0 <= j < i ==> #[trigger] url_safe(cs@[j]),
            decreases cs@.len() - i,
        {
            let c = cs[i];
            if !(crate::text::is_alnum_char(c) || c == '_' || c == '-') {
                assert(!url_safe(cs@[i as int]));
                return false;
            }
            i = i + 1;
        }
        true
    }

    pub fn kind(&self) -> (r: IdKind)
        ensures
            r == IdKind::NanoId,
    {
        IdKind::NanoId
    }

    pub fn canonical(&self) -> (r: String)
        ensures
            r@ == self.value@,
    {
        self.value.clone()
    }

    pub fn as_bytes(&self) -> (r: Vec<u8>)
        ensures
            r@ == vstd::utf8::encode_utf8(self.value@),
    {
        utf8_bytes(&self.value)
    }

    pub fn timestamp(&self) -> (r: Option<Timestamp>)
        ensures
            r is None,
    {
        None
    }

    /// Always valid; hints when the text is not of the default shape.
    pub fn validate(&self) -> (r: ValidationResult)
        ensures
            r.valid,
            r.id_type matches Some(t) && t@ == "nanoid"@,
            r.hint is None <==> default_shape(self.value@),
    {
        if Self::is_default_format(self.value.as_str()) {
            ValidationResult::valid("nanoid")
        } else {
            ValidationResult::valid("nanoid").with_hint("Non-standard length or alphabet")
        }
    }

    pub fn encode(&self, format: EncodingFormat) -> (r: String)
        ensures
            r@ == text_encoded(self.value@, format),
    {
        let bytes = self.as_bytes();
        match format {
            EncodingFormat::Hex => encode_hex(bytes.as_slice()),
            EncodingFormat::Base64 => encode_base64(bytes.as_slice()),
            _ => self.canonical(),
        }
    }

    /// Estimates six random bits per byte of the text.
    pub fn inspect(&self) -> (r: InspectionResult)
        ensures
            r.id_type@ == "nanoid"@,
            r.canonical@ == self.value@,
            r.input == self.input,
            r.valid,
            r.timestamp is None,
            r.random_bits matches Some(b) && b as nat == if vstd::utf8::encode_utf8(self.value@).len() * 6
                > u32::MAX {
                u32::MAX as nat
            } else {
                vstd::utf8::encode_utf8(self.value@).len() * 6
            },
            r.encodings.hex@ == hex_text(vstd::utf8::encode_utf8(self.value@), false),
            r.encodings.base32@.len() == 0,
            r.encodings.base58@.len() == 0,
            r.encodings.base64@ == crate::encoding::base64_of(vstd::utf8::encode_utf8(self.value@)),
            r.timestamp is None ==> r.timestamp_iso is None,
            r.timestamp matches Some(t) ==> (r.timestamp_iso matches Some(x) && x@ == crate::id::iso_text(t.millis)),
    {
        let bytes = self.as_bytes();
        let n = bytes.len();
        let bits: u32 = if n as u128 * 6 > u32::MAX as u128 {
            u32::MAX
        } else {
            (n * 6) as u32
        };
        let mut components: Vec<(String, ComponentValue)> = Vec::new();
        components.push(("length".to_owned(), ComponentValue::Number(n as u128)));
        components.push(("charset".to_owned(), ComponentValue::Text("URL-safe (default)".to_owned())));
        InspectionResult {
            id_type: "nanoid".to_owned(),
            input: self.input.clone(),
            canonical: self.canonical(),
            valid: true,
            timestamp: None,
            timestamp_iso: None,
            timestamp_local_iso: None,
            version: None,
            variant: None,
            random_bits: Some(bits),
            components: Some(components),
            encodings: IdEncodings {
                hex: encode_hex(bytes.as_slice()),
                base32: String::new(),
                base58: String::new(),
                base64: encode_base64(bytes.as_slice()),
                int: None,
            },
        }
    }
}

/// Whether a text has the default NanoID shape.
pub fn is_nanoid(input: &str) -> (r: bool)
    ensures
        r == default_shape(input@),
{
    ParsedNanoId::is_default_format(input)
}

} // verus!
