use crate::digits::digits_of;
use crate::error::IdtError;
use crate::text::{lower_of, same_text, string_of_chars, to_lower};
use vstd::arithmetic::power::pow;
use base64::Engine;
use vstd::prelude::*;

verus! {

/// The textual renderings that an identifier's bytes can be re-encoded into.
#[derive(Debug, Clone, Copy, PartialEq, Eq, Structural)]
pub enum EncodingFormat {
    Canonical,
    Hex,
    HexUpper,
    Base32,
    /// Rendered with the RFC 4648 alphabet, exactly as `Base32`; the base32hex
    /// alphabet is deliberately not used, for compatibility.
    Base32Hex,
    Base58,
    Base64,
    Base64Url,
    Binary,
    Bits,
    Int,
    Bytes,
}

/// The format that a (lowercased) name selects.
pub open spec fn format_named(t: Seq<char>) -> Option<EncodingFormat> {
    if t == "canonical"@ {
        Some(EncodingFormat::Canonical)
    } else if t == "hex"@ {
        Some(EncodingFormat::Hex)
    } else if t == "hexupper"@ || t == "hex-upper"@ {
        Some(EncodingFormat::HexUpper)
    } else if t == "base32"@ {
        Some(EncodingFormat::Base32)
    } else if t == "base32hex"@ || t == "base32-hex"@ {
        Some(EncodingFormat::Base32Hex)
    } else if t == "base58"@ {
        Some(EncodingFormat::Base58)
    } else if t == "base64"@ {
        Some(EncodingFormat::Base64)
    } else if t == "base64url"@ || t == "base64-url"@ {
        Some(EncodingFormat::Base64Url)
    } else if t == "binary"@ || t == "bin"@ {
        Some(EncodingFormat::Binary)
    } else if t == "bits"@ {
        Some(EncodingFormat::Bits)
    } else if t == "int"@ || t == "integer"@ {
        Some(EncodingFormat::Int)
    } else if t == "bytes"@ {
        Some(EncodingFormat::Bytes)
    } else {
        None
    }
}

/// The display name of a format.
pub open spec fn format_name(f: EncodingFormat) -> Seq<char> {
    match f {
        EncodingFormat::Canonical => "canonical"@,
        EncodingFormat::Hex => "hex"@,
        EncodingFormat::HexUpper => "HEX"@,
        EncodingFormat::Base32 => "base32"@,
        EncodingFormat::Base32Hex => "base32hex"@,
        EncodingFormat::Base58 => "base58"@,
        EncodingFormat::Base64 => "base64"@,
        EncodingFormat::Base64Url => "base64url"@,
        EncodingFormat::Binary => "binary"@,
        EncodingFormat::Bits => "bits"@,
        EncodingFormat::Int => "int"@,
        EncodingFormat::Bytes => "bytes"@,
    }
}

impl EncodingFormat {
    /// The format's display name.
    pub fn name(&self) -> (r: &'static str)
        ensures
            r@ == format_name(*self),
    {
        match self {
            EncodingFormat::Canonical => "canonical",
            EncodingFormat::Hex => "hex",
            EncodingFormat::HexUpper => "HEX",
            EncodingFormat::Base32 => "base32",
            EncodingFormat::Base32Hex => "base32hex",
            EncodingFormat::Base58 => "base58",
            EncodingFormat::Base64 => "base64",
            EncodingFormat::Base64Url => "base64url",
            EncodingFormat::Binary => "binary",
            EncodingFormat::Bits => "bits",
            EncodingFormat::Int => "int",
            EncodingFormat::Bytes => "bytes",
        }
    }

    /// Selects a format by name, case-insensitively, accepting the documented aliases.
    pub fn parse_name(s: &str) -> (r: crate::error::Result<EncodingFormat>)
        ensures
            format_named(lower_of(s@)) matches Some(f) ==> r == Ok::<EncodingFormat, IdtError>(f),
            format_named(lower_of(s@)) is None ==> (r matches Err(e) && e is InvalidArgument),
    {
        let low = to_lower(s);
        let t = crate::text::chars_of(low.as_str());
        if same_text(&t, "canonical") {
            Ok(EncodingFormat::Canonical)
        } else if same_text(&t, "hex") {
            Ok(EncodingFormat::Hex)
        } else if same_text(&t, "hexupper") || same_text(&t, "hex-upper") {
            Ok(EncodingFormat::HexUpper)
        } else if same_text(&t, "base32") {
            Ok(EncodingFormat::Base32)
        } else if same_text(&t, "base32hex") || same_text(&t, "base32-hex") {
            Ok(EncodingFormat::Base32Hex)
        } else if same_text(&t, "base58") {
            Ok(EncodingFormat::Base58)
        } else if same_text(&t, "base64") {
            Ok(EncodingFormat::Base64)
        } else if same_text(&t, "base64url") || same_text(&t, "base64-url") {
            Ok(EncodingFormat::Base64Url)
        } else if same_text(&t, "binary") || same_text(&t, "bin") {
            Ok(EncodingFormat::Binary)
        } else if same_text(&t, "bits") {
            Ok(EncodingFormat::Bits)
        } else if same_text(&t, "int") || same_text(&t, "integer") {
            Ok(EncodingFormat::Int)
        } else if same_text(&t, "bytes") {
            Ok(EncodingFormat::Bytes)
        } else {
            let mut m: Vec<char> = Vec::new();
            crate::text::push_str(&mut m, "Unknown encoding format: ");
            crate::text::push_str(&mut m, s);
            Err(IdtError::InvalidArgument(string_of_chars(&m)))
        }
    }
}

impl std::str::FromStr for EncodingFormat {
    type Err = IdtError;

    fn from_str(s: &str) -> (r: core::result::Result<EncodingFormat, IdtError>) {
        EncodingFormat::parse_name(s)
    }
}

/// What `encode_bytes` renders `b` as in format `f`.
pub open spec fn encoded_text(b: Seq<u8>, f: EncodingFormat) -> Seq<char> {
    match f {
        EncodingFormat::Canonical => hex_text(b, false),
        EncodingFormat::Hex => hex_text(b, false),
        EncodingFormat::HexUpper => hex_text(b, true),
        EncodingFormat::Base32 => base32_of(b),
        EncodingFormat::Base32Hex => base32_of(b),
        EncodingFormat::Base58 => base58_of(b),
        EncodingFormat::Base64 => base64_of(b),
        EncodingFormat::Base64Url => base64url_of(b),
        EncodingFormat::Binary => utf8_lossy_of(b),
        EncodingFormat::Bits => bits_text(b),
        EncodingFormat::Int => if b.len() <= 16 {
            decimal_of(be_value(b))
        } else {
            "overflow"@
        },
        EncodingFormat::Bytes => spaced_hex_text(b),
    }
}

/// A byte sequence viewed as digits in base 256.
pub open spec fn nats(s: Seq<u8>) -> Seq<nat> {
    s.map_values(|x: u8| x as nat)
}

/// Lowercase hex digit for a value below 16.
pub open spec fn hex_lower(d: nat) -> char {
    if d < 10 {
        ((48 + d) as u8) as char
    } else {
        ((87 + d) as u8) as char
    }
}

/// Uppercase hex digit for a value below 16.
pub open spec fn hex_upper(d: nat) -> char {
    if d < 10 {
        ((48 + d) as u8) as char
    } else {
        ((55 + d) as u8) as char
    }
}

/// Two hex digits per byte, most significant nibble first.
pub open spec fn hex_text(b: Seq<u8>, upper: bool) -> Seq<char>
    decreases b.len(),
{
    if b.len() == 0 {
        Seq::empty()
    } else {
        let x = b.last() as nat;
        let pair = if upper {
            seq![hex_upper(x / 16), hex_upper(x % 16)]
        } else {
            seq![hex_lower(x / 16), hex_lower(x % 16)]
        };
        hex_text(b.drop_last(), upper) + pair
    }
}

/// The value of a hex digit, either case.
pub open spec fn hex_value(c: char) -> nat {
    if '0' <= c && c <= '9' {
        (c as u32 - 48) as nat
    } else if 'a' <= c && c <= 'f' {
        (c as u32 - 87) as nat
    } else {
        (c as u32 - 55) as nat
    }
}

/// The bytes that a string of hex digit pairs denotes.
pub open spec fn hex_bytes(s: Seq<char>) -> Seq<u8> {
    Seq::new(s.len() / 2, |i: int| (hex_value(s[2 * i]) * 16 + hex_value(s[2 * i + 1])) as u8)
}

/// Eight '0'/'1' chars per byte, most significant bit first.
pub open spec fn bits_text(b: Seq<u8>) -> Seq<char>
    decreases b.len(),
{
    if b.len() == 0 {
        Seq::empty()
    } else {
        bits_text(b.drop_last()) + digits_of(b.last() as nat, 2, 8).map_values(
            |d: nat| if d == 0 { '0' } else { '1' },
        )
    }
}

/// Two lowercase hex digits per byte, the pairs separated by single spaces.
pub open spec fn spaced_hex_text(b: Seq<u8>) -> Seq<char>
    decreases b.len(),
{
    if b.len() == 0 {
        Seq::empty()
    } else if b.len() == 1 {
        hex_text(b, false)
    } else {
        spaced_hex_text(b.drop_last()) + seq![' '] + hex_text(seq![b.last()], false)
    }
}

/// The decimal digits of `n`, without leading zeros.
pub open spec fn decimal_of(n: nat) -> Seq<char>
    decreases n,
{
    if n < 10 {
        seq![((48 + n) as u8) as char]
    } else {
        decimal_of(n / 10).push(((48 + n % 10) as u8) as char)
    }
}

/// The big-endian number that a byte sequence denotes.
pub open spec fn be_value(b: Seq<u8>) -> nat {
    crate::digits::value_of(nats(b), 256)
}

pub uninterp spec fn base32_of(b: Seq<u8>) -> Seq<char>;

pub uninterp spec fn base32_decoded(s: Seq<char>) -> Option<Seq<u8>>;

pub uninterp spec fn base58_of(b: Seq<u8>) -> Seq<char>;

pub uninterp spec fn base58_decoded(s: Seq<char>) -> Option<Seq<u8>>;

pub uninterp spec fn base64_of(b: Seq<u8>) -> Seq<char>;

pub uninterp spec fn base64_decoded(s: Seq<char>) -> Option<Seq<u8>>;

pub uninterp spec fn base64url_of(b: Seq<u8>) -> Seq<char>;

pub uninterp spec fn base64url_decoded(s: Seq<char>) -> Option<Seq<u8>>;

pub uninterp spec fn utf8_lossy_of(b: Seq<u8>) -> Seq<char>;

/// The bytes of an optional decoding.
pub open spec fn opt_bytes(r: Option<Vec<u8>>) -> Option<Seq<u8>> {
    match r {
        Some(v) => Some(v@),
        None => None,
    }
}

/// The bytes of a successful decoding.
pub open spec fn ok_bytes<E>(r: core::result::Result<Vec<u8>, E>) -> Option<Seq<u8>> {
    match r {
        Ok(v) => Some(v@),
        Err(_) => None,
    }
}

/// Decoding `s` gives `b` back whenever `s` is the base32 encoding of `b`.
pub open spec fn inverts_base32_of(s: Seq<char>, out: Option<Seq<u8>>) -> bool {
    forall|b: Seq<u8>| #[trigger] base32_of(b) == s ==> out == Some(b)
}

/// Decoding `s` gives `b` back whenever `s` is the base58 encoding of `b`.
pub open spec fn inverts_base58_of(s: Seq<char>, out: Option<Seq<u8>>) -> bool {
    forall|b: Seq<u8>| #[trigger] base58_of(b) == s ==> out == Some(b)
}

/// Decoding `s` gives `b` back whenever `s` is the base64 encoding of `b`.
pub open spec fn inverts_base64_of(s: Seq<char>, out: Option<Seq<u8>>) -> bool {
    forall|b: Seq<u8>| #[trigger] base64_of(b) == s ==> out == Some(b)
}

/// Decoding `s` gives `b` back whenever `s` is the URL-safe base64 encoding of `b`.
pub open spec fn inverts_base64url_of(s: Seq<char>, out: Option<Seq<u8>>) -> bool {
    forall|b: Seq<u8>| #[trigger] base64url_of(b) == s ==> out == Some(b)
}

/// Relies on `hex::encode`: two lowercase digits per byte.
#[verifier::external_body]
pub fn encode_hex(bytes: &[u8]) -> (r: String)
    ensures
        r@ == hex_text(bytes@, false),
{
    hex::encode(bytes)
}

/// Relies on `hex::encode_upper`: two uppercase digits per byte.
#[verifier::external_body]
pub fn encode_hex_upper(bytes: &[u8]) -> (r: String)
    ensures
        r@ == hex_text(bytes@, true),
{
    hex::encode_upper(bytes)
}

/// Relies on `hex::decode`: an even number of hex digits, either case,
/// decodes pair by pair; anything else is refused with a message.
#[verifier::external_body]
fn hex_decode(s: &str) -> (r: core::result::Result<Vec<u8>, String>)
    ensures
        r is Ok <==> (s@.len() % 2 == 0 && crate::text::all_hex(s@)),
        r matches Ok(v) ==> v@ == hex_bytes(s@),
{
    hex::decode(s).map_err(|e| e.to_string())
}

pub fn decode_hex(s: &str) -> (r: crate::error::Result<Vec<u8>>)
    ensures
        r is Ok <==> (s@.len() % 2 == 0 && crate::text::all_hex(s@)),
        r matches Ok(v) ==> v@ == hex_bytes(s@),
        r matches Err(e) ==> e is EncodingError,
{
    match hex_decode(s) {
        Ok(v) => Ok(v),
        Err(m) => Err(IdtError::EncodingError(m)),
    }
}

/// Relies on `base32::encode` with the RFC 4648 alphabet and no padding.
#[verifier::external_body]
pub fn encode_base32(bytes: &[u8]) -> (r: String)
    ensures
        r@ == base32_of(bytes@),
{
    base32::encode(base32::Alphabet::Rfc4648 { padding: false }, bytes)
}

/// Relies on `base32::decode` with the RFC 4648 alphabet and no padding; it
/// gives back the bytes of any text that `base32::encode` made.
#[verifier::external_body]
fn base32_decode(s: &str) -> (r: Option<Vec<u8>>)
    ensures
        r is Some <==> base32_decoded(s@) is Some,
        r matches Some(v) ==> base32_decoded(s@) == Some(v@),
        inverts_base32_of(s@, opt_bytes(r)),
{
    base32::decode(base32::Alphabet::Rfc4648 { padding: false }, s)
}

pub fn decode_base32(s: &str) -> (r: crate::error::Result<Vec<u8>>)
    ensures
        r is Ok <==> base32_decoded(s@) is Some,
        r matches Ok(v) ==> base32_decoded(s@) == Some(v@),
        r matches Err(e) ==> e is EncodingError,
        inverts_base32_of(s@, ok_bytes(r)),
{
    match base32_decode(s) {
        Some(v) => Ok(v),
        None => Err(IdtError::EncodingError("Invalid base32".to_string())),
    }
}

/// Relies on `bs58::encode` with the Bitcoin alphabet.
#[verifier::external_body]
pub fn encode_base58(bytes: &[u8]) -> (r: String)
    ensures
        r@ == base58_of(bytes@),
{
    bs58::encode(bytes).into_string()
}

/// Relies on `bs58::decode` with the Bitcoin alphabet; a refusal carries
/// the crate's message. It gives back the bytes of any text `bs58::encode` made.
#[verifier::external_body]
fn base58_decode(s: &str) -> (r: core::result::Result<Vec<u8>, String>)
    ensures
        r is Ok <==> base58_decoded(s@) is Some,
        r matches Ok(v) ==> base58_decoded(s@) == Some(v@),
        inverts_base58_of(s@, ok_bytes(r)),
{
    bs58::decode(s).into_vec().map_err(|e| e.to_string())
}

pub fn decode_base58(s: &str) -> (r: crate::error::Result<Vec<u8>>)
    ensures
        r is Ok <==> base58_decoded(s@) is Some,
        r matches Ok(v) ==> base58_decoded(s@) == Some(v@),
        r matches Err(e) ==> e is EncodingError,
        inverts_base58_of(s@, ok_bytes(r)),
{
    match base58_decode(s) {
        Ok(v) => Ok(v),
        Err(m) => Err(IdtError::EncodingError(m)),
    }
}

/// Relies on base64's `STANDARD` engine (padded).
#[verifier::external_body]
pub fn encode_base64(bytes: &[u8]) -> (r: String)
    ensures
        r@ == base64_of(bytes@),
{
    base64::engine::general_purpose::STANDARD.encode(bytes)
}

/// Relies on base64's `STANDARD` engine; a refusal carries the crate's message.
/// It gives back the bytes of any text the same engine encoded.
#[verifier::external_body]
fn base64_decode(s: &str) -> (r: core::result::Result<Vec<u8>, String>)
    ensures
        r is Ok <==> base64_decoded(s@) is Some,
        r matches Ok(v) ==> base64_decoded(s@) == Some(v@),
        inverts_base64_of(s@, ok_bytes(r)),
{
    base64::engine::general_purpose::STANDARD.decode(s).map_err(|e| e.to_string())
}

pub fn decode_base64(s: &str) -> (r: crate::error::Result<Vec<u8>>)
    ensures
        r is Ok <==> base64_decoded(s@) is Some,
        r matches Ok(v) ==> base64_decoded(s@) == Some(v@),
        r matches Err(e) ==> e is EncodingError,
        inverts_base64_of(s@, ok_bytes(r)),
{
    match base64_decode(s) {
        Ok(v) => Ok(v),
        Err(m) => Err(IdtError::EncodingError(m)),
    }
}

/// Relies on base64's `URL_SAFE_NO_PAD` engine.
#[verifier::external_body]
pub fn encode_base64_url(bytes: &[u8]) -> (r: String)
    ensures
        r@ == base64url_of(bytes@),
{
    base64::engine::general_purpose::URL_SAFE_NO_PAD.encode(bytes)
}

/// Relies on base64's `URL_SAFE_NO_PAD` engine; a refusal carries the crate's
/// message. It gives back the bytes of any text the same engine encoded.
#[verifier::external_body]
fn base64_url_decode(s: &str) -> (r: core::result::Result<Vec<u8>, String>)
    ensures
        r is Ok <==> base64url_decoded(s@) is Some,
        r matches Ok(v) ==> base64url_decoded(s@) == Some(v@),
        inverts_base64url_of(s@, ok_bytes(r)),
{
    base64::engine::general_purpose::URL_SAFE_NO_PAD.decode(s).map_err(|e| e.to_string())
}

pub fn decode_base64_url(s: &str) -> (r: crate::error::Result<Vec<u8>>)
    ensures
        r is Ok <==> base64url_decoded(s@) is Some,
        r matches Ok(v) ==> base64url_decoded(s@) == Some(v@),
        r matches Err(e) ==> e is EncodingError,
        inverts_base64url_of(s@, ok_bytes(r)),
{
    match base64_url_decode(s) {
        Ok(v) => Ok(v),
        Err(m) => Err(IdtError::EncodingError(m)),
    }
}

/// Relies on `String::from_utf8_lossy`, which depends on the bytes alone.
#[verifier::external_body]
fn utf8_lossy(bytes: &[u8]) -> (r: String)
    ensures
        r@ == utf8_lossy_of(bytes@),
{
    String::from_utf8_lossy(bytes).to_string()
}

/// The last `n` digits of `v` in `base`, most significant first.
pub fn digit_values(v: u128, base: u128, n: usize) -> (r: Vec<u8>)
    requires
        2 <= base <= 256,
    ensures
        nats(r@) == digits_of(v as nat, base as nat, n as nat),
        r@.len() == n,
    decreases n,
{
    if n == 0 {
        let r: Vec<u8> = Vec::new();
        assert(nats(r@) =~= digits_of(v as nat, base as nat, 0));
        r
    } else {
        let mut r = digit_values(v / base, base, n - 1);
        let d = (v % base) as u8;
        let ghost before = r@;
        r.push(d);
        assert(nats(r@) =~= nats(before).push(d as nat));
        r
    }
}

/// Where each byte's two digits stand in its lowercase hex rendering.
#[verifier::rlimit(50)]
pub proof fn lemma_hex_text_index(b: Seq<u8>)
    ensures
        hex_text(b, false).len() == 2 * b.len(),
        forall|i: int|
            0 <= i < b.len() ==> #[trigger] hex_text(b, false)[2 * i] == hex_lower(b[i] as nat / 16)
                && hex_text(b, false)[2 * i + 1] == hex_lower(b[i] as nat % 16),
    decreases b.len(),
{
    if b.len() > 0 {
        let d = b.drop_last();
        lemma_hex_text_index(d);
        let t = hex_text(b, false);
        let h = hex_text(d, false);
        let x = b.last() as nat;
        let pair = seq![hex_lower(x / 16), hex_lower(x % 16)];
        assert(t == h + pair);
        assert forall|i: int| 0 <= i < b.len() implies #[trigger] hex_text(b, false)[2 * i]
            == hex_lower(b[i] as nat / 16) && hex_text(b, false)[2 * i + 1] == hex_lower(
            b[i] as nat % 16,
        ) by {
            if i < b.len() - 1 {
                assert(d[i] == b[i]);
                assert(h[2 * i] == hex_lower(d[i] as nat / 16));
                assert(t[2 * i] == h[2 * i]);
                assert(t[2 * i + 1] == h[2 * i + 1]);
            } else {
                assert(b[i] == b.last());
                assert(t[2 * i] == pair[0]);
                assert(t[2 * i + 1] == pair[1]);
            }
        }
        assert(t.len() == 2 * b.len());
    } else {
        assert(hex_text(b, false) =~= Seq::<char>::empty());
    }
}

/// Where each byte's two digits stand in its uppercase hex rendering.
#[verifier::rlimit(50)]
pub proof fn lemma_hex_upper_index(b: Seq<u8>)
    ensures
        hex_text(b, true).len() == 2 * b.len(),
        forall|i: int|
            0 <= i < b.len() ==> #[trigger] hex_text(b, true)[2 * i] == hex_upper(b[i] as nat / 16)
                && hex_text(b, true)[2 * i + 1] == hex_upper(b[i] as nat % 16),
    decreases b.len(),
{
    if b.len() > 0 {
        let d = b.drop_last();
        lemma_hex_upper_index(d);
        let t = hex_text(b, true);
        let h = hex_text(d, true);
        let x = b.last() as nat;
        let pair = seq![hex_upper(x / 16), hex_upper(x % 16)];
        assert(t == h + pair);
        assert forall|i: int| 0 <= i < b.len() implies #[trigger] hex_text(b, true)[2 * i]
            == hex_upper(b[i] as nat / 16) && hex_text(b, true)[2 * i + 1] == hex_upper(
            b[i] as nat % 16,
        ) by {
            if i < b.len() - 1 {
                assert(d[i] == b[i]);
                assert(h[2 * i] == hex_upper(d[i] as nat / 16));
                assert(t[2 * i] == h[2 * i]);
                assert(t[2 * i + 1] == h[2 * i + 1]);
            } else {
                assert(b[i] == b.last());
                assert(t[2 * i] == pair[0]);
                assert(t[2 * i + 1] == pair[1]);
            }
        }
        assert(t.len() == 2 * b.len());
    } else {
        assert(hex_text(b, true) =~= Seq::<char>::empty());
    }
}

/// Hex rendering distributes over concatenation.
pub proof fn lemma_hex_text_concat(a: Seq<u8>, b: Seq<u8>)
    ensures
        hex_text(a + b, false) == hex_text(a, false) + hex_text(b, false),
    decreases b.len(),
{
    if b.len() == 0 {
        assert(a + b =~= a);
        assert(hex_text(b, false) =~= Seq::<char>::empty());
        assert(hex_text(a, false) + hex_text(b, false) =~= hex_text(a, false));
    } else {
        assert((a + b).drop_last() =~= a + b.drop_last());
        assert((a + b).last() == b.last());
        lemma_hex_text_concat(a, b.drop_last());
        let x = b.last() as nat;
        let pair = seq![hex_lower(x / 16), hex_lower(x % 16)];
        assert(hex_text(a + b, false) == hex_text(a + b.drop_last(), false) + pair);
        assert(hex_text(b, false) == hex_text(b.drop_last(), false) + pair);
        assert(hex_text(a + b, false) =~= hex_text(a, false) + hex_text(b, false));
    }
}

/// Lowercase hex text decodes back to its bytes.
pub proof fn lemma_hex_round_trip(b: Seq<u8>)
    ensures
        crate::text::all_hex(hex_text(b, false)),
        hex_text(b, false).len() % 2 == 0,
        hex_bytes(hex_text(b, false)) == b,
{
    lemma_hex_text_index(b);
    let t = hex_text(b, false);
    assert forall|k: int| 0 <= k < t.len() implies #[trigger] crate::text::is_hex_char(t[k]) by {
        let i = k / 2;
        assert(k == 2 * i || k == 2 * i + 1);
        assert(t[2 * i] == hex_lower(b[i] as nat / 16));
    }
    assert forall|i: int| 0 <= i < b.len() implies #[trigger] hex_bytes(t)[i] == b[i] by {
        assert(t[2 * i] == hex_lower(b[i] as nat / 16));
        assert(t[2 * i + 1] == hex_lower(b[i] as nat % 16));
    }
    assert(hex_bytes(t) =~= b);
}

/// Uppercase hex text decodes back to its bytes too.
pub proof fn lemma_hex_upper_round_trip(b: Seq<u8>)
    ensures
        crate::text::all_hex(hex_text(b, true)),
        hex_text(b, true).len() == 2 * b.len(),
        hex_bytes(hex_text(b, true)) == b,
{
    lemma_hex_upper_index(b);
    let t = hex_text(b, true);
    assert forall|k: int| 0 <= k < t.len() implies #[trigger] crate::text::is_hex_char(t[k]) by {
        let i = k / 2;
        assert(k == 2 * i || k == 2 * i + 1);
        assert(t[2 * i] == hex_upper(b[i] as nat / 16));
    }
    assert forall|i: int| 0 <= i < b.len() implies #[trigger] hex_bytes(t)[i] == b[i] by {
        assert(t[2 * i] == hex_upper(b[i] as nat / 16));
        assert(t[2 * i + 1] == hex_upper(b[i] as nat % 16));
    }
    assert(hex_bytes(t) =~= b);
}

/// The last `n` bytes of `v`, big-endian.
pub open spec fn be_bytes_spec(v: nat, n: nat) -> Seq<u8> {
    digits_of(v, 256, n).map_values(|d: nat| d as u8)
}

/// The last `n` bytes of `v`, big-endian.
pub fn be_bytes(v: u128, n: usize) -> (r: Vec<u8>)
    ensures
        r@ == be_bytes_spec(v as nat, n as nat),
        nats(r@) == digits_of(v as nat, 256, n as nat),
        r@.len() == n,
{
    let r = digit_values(v, 256, n);
    proof {
        crate::digits::lemma_digits_shape(v as nat, 256, n as nat);
        let ds = digits_of(v as nat, 256, n as nat);
        assert forall|i: int| 0 <= i < r@.len() implies r@[i] == (#[trigger] ds[i]) as u8 by {
            assert(nats(r@)[i] == r@[i] as nat);
        }
        assert(r@ =~= be_bytes_spec(v as nat, n as nat));
    }
    r
}

fn hex_char(d: u8, upper: bool) -> (r: char)
    requires
        d < 16,
    ensures
        r == (if upper { hex_upper(d as nat) } else { hex_lower(d as nat) }),
{
    if d < 10 {
        (48u8 + d) as char
    } else if upper {
        (55u8 + d) as char
    } else {
        (87u8 + d) as char
    }
}

proof fn lemma_hex_text_push(b: Seq<u8>, x: u8, upper: bool)
    ensures
        hex_text(b.push(x), upper) == hex_text(b, upper) + (if upper {
            seq![hex_upper(x as nat / 16), hex_upper(x as nat % 16)]
        } else {
            seq![hex_lower(x as nat / 16), hex_lower(x as nat % 16)]
        }),
{
    assert(b.push(x).drop_last() =~= b);
}

pub fn encode_bits(bytes: &[u8]) -> (r: String)
    ensures
        r@ == bits_text(bytes@),
{
    let mut out: Vec<char> = Vec::new();
    let mut i: usize = 0;
    while i < bytes.len()
        invariant
            i <= bytes@.len(),
            out@ == bits_text(bytes@.subrange(0, i as int)),
        decreases bytes@.len() - i,
    {
        let ds = digit_values(bytes[i] as u128, 2, 8);
        let ghost before = out@;
        let mut k: usize = 0;
        while k < 8
            invariant
                k <= 8,
                ds@.len() == 8,
                nats(ds@) == digits_of(bytes@[i as int] as nat, 2, 8),
                out@ == before + nats(ds@).subrange(0, k as int).map_values(
                    |d: nat| if d == 0 { '0' } else { '1' },
                ),
            decreases 8 - k,
        {
            out.push(if ds[k] == 0 { '0' } else { '1' });
            assert(nats(ds@).subrange(0, k + 1) =~= nats(ds@).subrange(0, k as int).push(ds@[k as int] as nat));
            k = k + 1;
        }
        assert(nats(ds@).subrange(0, 8) =~= nats(ds@));
        assert(bytes@.subrange(0, i + 1).drop_last() =~= bytes@.subrange(0, i as int));
        i = i + 1;
    }
    assert(bytes@.subrange(0, bytes@.len() as int) =~= bytes@);
    string_of_chars(&out)
}

pub fn encode_bytes_spaced(bytes: &[u8]) -> (r: String)
    ensures
        r@ == spaced_hex_text(bytes@),
{
    let mut out: Vec<char> = Vec::new();
    let mut i: usize = 0;
    while i < bytes.len()
        invariant
            i <= bytes@.len(),
            out@ == spaced_hex_text(bytes@.subrange(0, i as int)),
        decreases bytes@.len() - i,
    {
        let x = bytes[i];
        if i > 0 {
            out.push(' ');
        }
        out.push(hex_char(x / 16, false));
        out.push(hex_char(x % 16, false));
        proof {
            let pre = bytes@.subrange(0, i as int);
            let cur = bytes@.subrange(0, i + 1);
            assert(cur.drop_last() =~= pre);
            lemma_hex_text_push(Seq::empty(), x, false);
            assert(seq![x] =~= Seq::<u8>::empty().push(x));
            assert(hex_text(Seq::<u8>::empty(), false) =~= Seq::<char>::empty());
            if i == 0 {
                assert(cur =~= seq![x]);
            }
        }
        i = i + 1;
    }
    assert(bytes@.subrange(0, bytes@.len() as int) =~= bytes@);
    string_of_chars(&out)
}

/// The big-endian unsigned value of at most sixteen bytes.
pub fn bytes_to_u128(bytes: &[u8]) -> (r: Option<u128>)
    ensures
        r is Some <==> bytes@.len() <= 16,
        r matches Some(n) ==> n as nat == be_value(bytes@),
{
    if bytes.len() > 16 {
        return None;
    }
    let mut acc: u128 = 0;
    let mut i: usize = 0;
    assert(pow(256, 0) == 1) by {
        reveal(pow);
    }
    assert(nats(bytes@.subrange(0, 0)).len() == 0);
    while i < bytes.len()
        invariant
            bytes@.len() <= 16,
            i <= bytes@.len(),
            acc as nat == be_value(bytes@.subrange(0, i as int)),
            (acc as nat) < pow(256, i as nat),
        decreases bytes@.len() - i,
    {
        proof {
            let pre = bytes@.subrange(0, i as int);
            let cur = bytes@.subrange(0, i + 1);
            assert(nats(cur) =~= nats(pre).push(bytes@[i as int] as nat));
            crate::digits::lemma_value_push(nats(pre), bytes@[i as int] as nat, 256);
            if i < 15 {
                vstd::arithmetic::power::lemma_pow_increases(256, i as nat, 15);
            }
            reveal_with_fuel(pow, 16);
            assert(pow(256, (i + 1) as nat) == 256 * pow(256, i as nat));
        }
        acc = acc * 256 + bytes[i] as u128;
        i = i + 1;
    }
    assert(bytes@.subrange(0, bytes@.len() as int) =~= bytes@);
    Some(acc)
}

/// Appends the decimal digits of `n`.
pub fn push_decimal(out: &mut Vec<char>, n: u128)
    ensures
        final(out)@ == old(out)@ + decimal_of(n as nat),
    decreases n,
{
    if n >= 10 {
        push_decimal(out, n / 10);
    }
    let d = (n % 10) as u8;
    out.push((48u8 + d) as char);
}

/// The decimal rendering of `n`.
pub fn decimal_text(n: u128) -> (r: String)
    ensures
        r@ == decimal_of(n as nat),
{
    let mut out: Vec<char> = Vec::new();
    push_decimal(&mut out, n);
    assert(out@ =~= decimal_of(n as nat));
    string_of_chars(&out)
}

/// Renders raw bytes in the given format.
pub fn encode_bytes(bytes: &[u8], format: EncodingFormat) -> (r: String)
    ensures
        r@ == encoded_text(bytes@, format),
{
    match format {
        EncodingFormat::Canonical => encode_hex(bytes),
        EncodingFormat::Hex => encode_hex(bytes),
        EncodingFormat::HexUpper => encode_hex_upper(bytes),
        EncodingFormat::Base32 => encode_base32(bytes),
        EncodingFormat::Base32Hex => encode_base32(bytes),
        EncodingFormat::Base58 => encode_base58(bytes),
        EncodingFormat::Base64 => encode_base64(bytes),
        EncodingFormat::Base64Url => encode_base64_url(bytes),
        EncodingFormat::Binary => utf8_lossy(bytes),
        EncodingFormat::Bits => encode_bits(bytes),
        EncodingFormat::Int => match bytes_to_u128(bytes) {
            Some(n) => decimal_text(n),
            None => {
                let mut m: Vec<char> = Vec::new();
                crate::text::push_str(&mut m, "overflow");
                string_of_chars(&m)
            },
        },
        EncodingFormat::Bytes => encode_bytes_spaced(bytes),
    }
}

} // verus!
