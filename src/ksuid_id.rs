use crate::digits::{
    digits_below, digits_of, lemma_digit_at, lemma_digits_of_value, lemma_digits_shape,
    lemma_prefix_value_le, lemma_value_bound, lemma_value_concat, lemma_value_of_digits,
    lemma_value_push, value_of,
};
use crate::encoding::{
    be_value, decimal_of, decimal_text, encode_base32, encode_base58, encode_base64,
    encode_bytes, encode_hex, encoded_text, hex_text, nats, EncodingFormat,
};
use crate::error::{IdtError, Result};
use crate::id::{current_timestamp_secs, ComponentValue, IdEncodings, InspectionResult, Timestamp, ValidationResult};
use crate::kind::IdKind;
use crate::text::{string_of_chars, trimmed, trimmed_chars};
use vstd::arithmetic::div_mod::{lemma_div_denominator, lemma_fundamental_div_mod_converse};
use vstd::arithmetic::power::{lemma_pow_positive, pow};
use vstd::prelude::*;

verus! {

/// KSUID epoch: 1.4e9 seconds after the Unix epoch (2014-05-13T16:53:20Z).
pub const KSUID_EPOCH: u64 = 1_400_000_000;

/// The base62 symbol of a value below 62: digits, then `A`-`Z`, then `a`-`z`.
pub open spec fn base62_symbol(d: nat) -> char {
    if d < 10 {
        ((48 + d) as u8) as char
    } else if d < 36 {
        ((55 + d) as u8) as char
    } else {
        ((61 + d) as u8) as char
    }
}

pub open spec fn base62_value(c: char) -> Option<nat> {
    if '0' <= c && c <= '9' {
        Some((c as u32 - 48) as nat)
    } else if 'A' <= c && c <= 'Z' {
        Some((c as u32 - 55) as nat)
    } else if 'a' <= c && c <= 'z' {
        Some((c as u32 - 61) as nat)
    } else {
        None
    }
}

pub open spec fn base62_digits(s: Seq<char>) -> Seq<nat> {
    s.map_values(|c: char| crate::crockford::opt_digit(base62_value(c)))
}

/// The canonical 27-symbol base62 rendering of a byte string's value.
pub open spec fn ksuid_text(b: Seq<u8>) -> Seq<char> {
    digits_of(be_value(b), 62, 27).map_values(|d: nat| base62_symbol(d))
}

pub open spec fn ksuid_value(s: Seq<char>) -> nat {
    value_of(base62_digits(s), 62)
}

pub open spec fn two_pow_160() -> nat {
    0x1_0000_0000 * 0x1_0000_0000_0000_0000 * 0x1_0000_0000_0000_0000
}

/// Whether a text decodes as a KSUID: 27 base62 symbols whose value fits in
/// 160 bits.
pub open spec fn ksuid_decodes(s: Seq<char>) -> bool {
    s.len() == 27 && (forall|i: int| 0 <= i < s.len() ==> #[trigger] base62_value(s[i]) is Some)
        && ksuid_value(s) < two_pow_160()
}

proof fn lemma_pow256_20()
    ensures
        pow(256, 20) == two_pow_160(),
{
    reveal_with_fuel(pow, 21);
}

proof fn lemma_nats_prefix_push(s: Seq<u8>, i: int)
    requires
        0 <= i < s.len(),
    ensures
        nats(s.subrange(0, i + 1)) == nats(s.subrange(0, i)).push(s[i] as nat),
{
    assert(nats(s.subrange(0, i + 1)) =~= nats(s.subrange(0, i)).push(s[i] as nat));
}

/// Divides a big-endian number in place by a small divisor, returning the
/// remainder.
pub fn divmod_base62(num: &mut Vec<u8>, divisor: u16) -> (r: u8)
    requires
        2 <= divisor <= 256,
    ensures
        final(num)@.len() == old(num)@.len(),
        be_value(final(num)@) == be_value(old(num)@) / (divisor as nat),
        r as nat == be_value(old(num)@) % (divisor as nat),
{
    let ghost orig = num@;
    let mut rem: u16 = 0;
    let mut i: usize = 0;
    assert(nats(orig.subrange(0, 0)) =~= Seq::<nat>::empty());
    assert(nats(num@.subrange(0, 0)) =~= Seq::<nat>::empty());
    assert(be_value(orig.subrange(0, 0)) == 0);
    assert(be_value(num@.subrange(0, 0)) == 0);
    while i < num.len()
        invariant
            num@.len() == orig.len(),
            i <= num@.len(),
            2 <= divisor <= 256,
            rem < divisor,
            forall|j: int| i <= j < num@.len() ==> #[trigger] num@[j] == orig[j],
            be_value(orig.subrange(0, i as int)) == be_value(num@.subrange(0, i as int)) * (divisor as nat)
                + rem,
        decreases num@.len() - i,
    {
        let b = num[i];
        let acc: u16 = rem * 256 + b as u16;
        let q: u16 = acc / divisor;
        let r2: u16 = acc % divisor;
        assert(q < 256) by (nonlinear_arith)
            requires
                acc == rem * 256 + b,
                rem < divisor,
                b < 256,
                q == acc / divisor,
                divisor >= 2,
        ;
        let ghost before = num@;
        num.set(i, q as u8);
        rem = r2;
        proof {
            lemma_nats_prefix_push(orig, i as int);
            lemma_nats_prefix_push(num@, i as int);
            assert(num@.subrange(0, i as int) =~= before.subrange(0, i as int));
            lemma_value_push(nats(orig.subrange(0, i as int)), b as nat, 256);
            lemma_value_push(nats(num@.subrange(0, i as int)), q as nat, 256);
            let p = be_value(before.subrange(0, i as int)) as int;
            let d = divisor as int;
            let old_rem = (acc as int - b as int) / 256;
            assert(acc as int == q as int * d + r2 as int) by (nonlinear_arith)
                requires
                    q == acc / divisor,
                    r2 == acc % divisor,
                    d == divisor as int,
                    d > 0,
            ;
            assert((p * d + (acc as int - b as int) / 256) * 256 + b as int == (p * 256 + q as int) * d
                + r2 as int) by (nonlinear_arith)
                requires
                    acc as int == q as int * d + r2 as int,
                    (acc as int - b as int) % 256 == 0,
                    acc as int >= b as int,
            ;
        }
        i = i + 1;
    }
    assert(orig.subrange(0, orig.len() as int) =~= orig);
    assert(num@.subrange(0, num@.len() as int) =~= num@);
    proof {
        lemma_fundamental_div_mod_converse(
            be_value(orig) as int,
            divisor as int,
            be_value(num@) as int,
            rem as int,
        );
    }
    rem as u8
}

proof fn lemma_nats_suffix_cons(s: Seq<u8>, j: int)
    requires
        0 <= j < s.len(),
    ensures
        nats(s.subrange(j, s.len() as int)) == seq![s[j] as nat] + nats(s.subrange(j + 1, s.len() as int)),
        value_of(seq![s[j] as nat], 256) == s[j] as nat,
{
    assert(nats(s.subrange(j, s.len() as int)) =~= seq![s[j] as nat] + nats(s.subrange(j + 1, s.len() as int)));
    assert(seq![s[j] as nat].drop_last() =~= Seq::<nat>::empty());
    assert(value_of(Seq::<nat>::empty(), 256) == 0);
    assert(seq![s[j] as nat].last() == s[j] as nat);
}

/// Multiplies a big-endian number in place by `m` and adds `a`, returning the
/// carry out of the top byte.
pub fn mul_add(num: &mut Vec<u8>, m: u16, a: u16) -> (carry: u16)
    requires
        m <= 255,
        a <= 255,
    ensures
        final(num)@.len() == old(num)@.len(),
        be_value(final(num)@) + carry * pow(256, old(num)@.len()) == be_value(old(num)@) * m + a,
{
    let ghost orig = num@;
    let n = num.len();
    let mut carry: u16 = a;
    let mut j: usize = n;
    assert(nats(num@.subrange(n as int, n as int)) =~= Seq::<nat>::empty());
    assert(nats(orig.subrange(n as int, n as int)) =~= Seq::<nat>::empty());
    assert(pow(256, 0) == 1) by {
        reveal(pow);
    }
    assert(be_value(num@.subrange(n as int, n as int)) == 0);
    assert(be_value(orig.subrange(n as int, n as int)) == 0);
    while j > 0
        invariant
            n == num@.len(),
            num@.len() == orig.len(),
            j <= n,
            m <= 255,
            carry <= 255,
            forall|k: int| 0 <= k < j ==> #[trigger] num@[k] == orig[k],
            be_value(num@.subrange(j as int, n as int)) + carry * pow(256, (n - j) as nat) == be_value(
                orig.subrange(j as int, n as int),
            ) * m + a,
        decreases j,
    {
        let b = num[j - 1];
        assert((b as u16) * m <= 65025) by (nonlinear_arith)
            requires
                b <= 255,
                m <= 255,
        ;
        let acc: u16 = (b as u16) * m + carry;
        let ghost before = num@;
        num.set(j - 1, (acc % 256) as u8);
        let new_carry = acc / 256;
        proof {
            let jj = (j - 1) as int;
            lemma_nats_suffix_cons(num@, jj);
            lemma_nats_suffix_cons(orig, jj);
            assert(num@.subrange(j as int, n as int) =~= before.subrange(j as int, n as int));
            lemma_value_concat(seq![num@[jj] as nat], nats(num@.subrange(j as int, n as int)), 256);
            lemma_value_concat(seq![orig[jj] as nat], nats(orig.subrange(j as int, n as int)), 256);
            let p = pow(256, (n - j) as nat);
            reveal(pow);
            assert(pow(256, (n - jj) as nat) == 256 * p);
            let vn = be_value(before.subrange(j as int, n as int)) as int;
            let vo = be_value(orig.subrange(j as int, n as int)) as int;
            assert(orig[jj] == b);
            assert((acc % 256) as int * p + vn + (acc / 256) as int * (256 * p) == (b as int * p + vo) * m
                as int + a as int) by (nonlinear_arith)
                requires
                    vn + carry as int * p == vo * m as int + a as int,
                    acc as int == b as int * m as int + carry as int,
            ;
        }
        carry = new_carry;
        j = j - 1;
    }
    assert(num@.subrange(0, n as int) =~= num@);
    assert(orig.subrange(0, n as int) =~= orig);
    carry
}

fn base62_char(d: u8) -> (r: char)
    requires
        d < 62,
    ensures
        r == base62_symbol(d as nat),
{
    if d < 10 {
        (48u8 + d) as char
    } else if d < 36 {
        (55u8 + d) as char
    } else {
        (61u8 + d) as char
    }
}

pub fn base62_char_value(c: char) -> (r: Option<u8>)
    ensures
        r matches Some(d) ==> base62_value(c) == Some(d as nat) && d < 62,
        r is None <==> base62_value(c) is None,
{
    if '0' <= c && c <= '9' {
        Some((c as u32 - 48) as u8)
    } else if 'A' <= c && c <= 'Z' {
        Some((c as u32 - 55) as u8)
    } else if 'a' <= c && c <= 'z' {
        Some((c as u32 - 61) as u8)
    } else {
        None
    }
}

/// Encodes twenty bytes as 27 base62 symbols.
pub fn encode_base62(bytes: &[u8]) -> (r: String)
    requires
        bytes@.len() == 20,
    ensures
        r@ == ksuid_text(bytes@),
{
    let ghost v = be_value(bytes@);
    let mut num: Vec<u8> = vstd::slice::slice_to_vec(bytes);
    let mut rems: Vec<u8> = Vec::new();
    let mut k: usize = 0;
    assert(pow(62, 0) == 1) by {
        reveal(pow);
    }
    assert(num@ == bytes@);
    assert(v / 1 == v);
    while k < 27
        invariant
            k <= 27,
            be_value(num@) == v / (pow(62, k as nat) as nat),
            rems@.len() == k,
            forall|j: int| 0 <= j < k ==> #[trigger] rems@[j] as nat == (v / (pow(62, j as nat) as nat)) % 62,
            forall|j: int| 0 <= j < k ==> #[trigger] rems@[j] < 62,
        decreases 27 - k,
    {
        let r = divmod_base62(&mut num, 62);
        proof {
            lemma_pow_positive(62, k as nat);
            lemma_div_denominator(v as int, pow(62, k as nat), 62);
            reveal(pow);
            assert(pow(62, (k + 1) as nat) == 62 * pow(62, k as nat));
        }
        rems.push(r);
        k = k + 1;
    }
    let mut out: Vec<char> = Vec::new();
    let mut i: usize = 0;
    let ghost ds = digits_of(v, 62, 27);
    while i < 27
        invariant
            i <= 27,
            rems@.len() == 27,
            forall|j: int| 0 <= j < 27 ==> #[trigger] rems@[j] as nat == (v / (pow(62, j as nat) as nat)) % 62,
            forall|j: int| 0 <= j < 27 ==> #[trigger] rems@[j] < 62,
            ds == digits_of(v, 62, 27),
            out@ == ds.map_values(|d: nat| base62_symbol(d)).subrange(0, i as int),
        decreases 27 - i,
    {
        proof {
            lemma_digits_shape(v, 62, 27);
            lemma_digit_at(v, 62, 27, i as int);
        }
        out.push(base62_char(rems[26 - i]));
        i = i + 1;
        assert(out@ =~= ds.map_values(|d: nat| base62_symbol(d)).subrange(0, i as int));
    }
    proof {
        lemma_digits_shape(v, 62, 27);
    }
    assert(out@ =~= ksuid_text(bytes@));
    string_of_chars(&out)
}

/// Decodes 27 base62 symbols into twenty bytes; fails on a wrong length, a
/// foreign symbol, or a value of 160 bits or more.
pub fn decode_base62(s: &Vec<char>) -> (r: Result<Vec<u8>>)
    ensures
        r is Ok <==> ksuid_decodes(s@),
        r matches Ok(b) ==> b@.len() == 20 && be_value(b@) == ksuid_value(s@),
        r matches Err(e) ==> e is ParseError,
{
    if s.len() != 27 {
        return Err(IdtError::ParseError("KSUID must be 27 characters".to_owned()));
    }
    let mut num: Vec<u8> = vec![0u8; 20];
    assert(nats(num@) =~= Seq::new(20, |i: int| 0nat));
    proof {
        lemma_zero_value(20);
        assert(base62_digits(s@).subrange(0, 0) =~= Seq::<nat>::empty());
    }
    let mut i: usize = 0;
    while i < 27
        invariant
            s@.len() == 27,
            i <= 27,
            num@.len() == 20,
            be_value(num@) == value_of(base62_digits(s@).subrange(0, i as int), 62),
            forall|j: int| 0 <= j < i ==> #[trigger] base62_value(s@[j]) is Some,
        decreases 27 - i,
    {
        let val = match base62_char_value(s[i]) {
            Some(d) => d,
            None => {
                return Err(IdtError::ParseError("Invalid base62 character".to_owned()));
            },
        };
        let ghost pre = base62_digits(s@).subrange(0, i as int);
        let ghost cur = base62_digits(s@).subrange(0, i + 1);
        proof {
            assert(cur =~= pre.push(val as nat));
            lemma_value_push(pre, val as nat, 62);
            lemma_pow256_20();
        }
        let carry = mul_add(&mut num, 62, val as u16);
        if carry != 0 {
            proof {
                assert(value_of(cur, 62) >= two_pow_160()) by (nonlinear_arith)
                    requires
                        value_of(cur, 62) == be_value(num@) + carry * two_pow_160(),
                        carry >= 1,
                ;
                lemma_prefix_value_le(base62_digits(s@), 62, i + 1);
            }
            return Err(IdtError::ParseError("KSUID value does not fit in 160 bits".to_owned()));
        }
        i = i + 1;
    }
    assert(base62_digits(s@).subrange(0, 27) =~= base62_digits(s@));
    proof {
        lemma_nats_below(num@);
        lemma_value_bound(nats(num@), 256);
        lemma_pow256_20();
    }
    Ok(num)
}

proof fn lemma_zero_value(k: nat)
    ensures
        value_of(Seq::new(k, |i: int| 0nat), 256) == 0,
    decreases k,
{
    if k > 0 {
        assert(Seq::new(k, |i: int| 0nat).drop_last() =~= Seq::new((k - 1) as nat, |i: int| 0nat));
        lemma_zero_value((k - 1) as nat);
    }
}

pub proof fn lemma_nats_below(b: Seq<u8>)
    ensures
        digits_below(nats(b), 256),
        nats(b).len() == b.len(),
{
}

/// Equal-length byte strings with equal values are equal.
pub proof fn lemma_be_value_injective(a: Seq<u8>, b: Seq<u8>)
    requires
        a.len() == b.len(),
        be_value(a) == be_value(b),
    ensures
        a == b,
{
    lemma_nats_below(a);
    lemma_nats_below(b);
    lemma_digits_of_value(nats(a), 256);
    lemma_digits_of_value(nats(b), 256);
    assert forall|i: int| 0 <= i < a.len() implies a[i] == b[i] by {
        assert(nats(a)[i] == nats(b)[i]);
    }
    assert(a =~= b);
}

/// Every twenty-byte string survives a base62 encode and decode.
pub proof fn lemma_ksuid_round_trip(b: Seq<u8>)
    requires
        b.len() == 20,
    ensures
        ksuid_decodes(ksuid_text(b)),
        ksuid_value(ksuid_text(b)) == be_value(b),
{
    let v = be_value(b);
    lemma_nats_below(b);
    lemma_value_bound(nats(b), 256);
    lemma_pow256_20();
    let ds = digits_of(v, 62, 27);
    lemma_digits_shape(v, 62, 27);
    assert(base62_digits(ksuid_text(b)) =~= ds);
    lemma_value_of_digits(v, 62, 27);
    assert(pow(62, 27) > two_pow_160()) by {
        reveal_with_fuel(pow, 28);
    }
    vstd::arithmetic::div_mod::lemma_small_mod(v, pow(62, 27) as nat);
}

/// The KSUID layout: four bytes of seconds since the KSUID epoch, then
/// sixteen bytes of payload.
pub open spec fn ksuid_layout(offset: nat, payload: Seq<u8>) -> Seq<u8> {
    let t = offset % 0x1_0000_0000;
    seq![(t / 0x100_0000) as u8, ((t / 0x1_0000) % 256) as u8, ((t / 0x100) % 256) as u8, (t % 256) as u8]
        + payload
}

/// KSUID generator.
#[derive(Debug)]
pub struct KsuidGenerator;

impl KsuidGenerator {
    pub fn new() -> (r: KsuidGenerator) {
        KsuidGenerator
    }

    /// The KSUID for a clock reading in seconds and a sixteen-byte payload;
    /// times before the KSUID epoch count as the epoch itself.
    pub fn generate_at(&self, now_secs: u64, payload: &Vec<u8>) -> (r: String)
        requires
            payload@.len() == 16,
        ensures
            r@ == ksuid_text(
                ksuid_layout(if now_secs >= KSUID_EPOCH { (now_secs - KSUID_EPOCH) as nat } else { 0 }, payload@),
            ),
    {
        let offset: u64 = if now_secs >= KSUID_EPOCH {
            now_secs - KSUID_EPOCH
        } else {
            0
        };
        let t = offset % 0x1_0000_0000;
        let mut bytes: Vec<u8> = vec![
            (t / 0x100_0000) as u8,
            ((t / 0x1_0000) % 256) as u8,
            ((t / 0x100) % 256) as u8,
            (t % 256) as u8,
        ];
        let mut i: usize = 0;
        let ghost head = bytes@;
        while i < 16
            invariant
                payload@.len() == 16,
                i <= 16,
                bytes@ == head + payload@.subrange(0, i as int),
            decreases 16 - i,
        {
            bytes.push(payload[i]);
            i = i + 1;
        }
        assert(bytes@ =~= ksuid_layout(offset as nat, payload@));
        encode_base62(bytes.as_slice())
    }

    pub fn generate(&self) -> (r: Result<String>)
        ensures
            r is Ok,
            r matches Ok(s) ==> exists|t: nat, p: Seq<u8>| p.len() == 16 && s@ == ksuid_text(ksuid_layout(t, p)),
    {
        let now = current_timestamp_secs();
        let payload = crate::random::random_bytes(16);
        Ok(self.generate_at(now, &payload))
    }
}

/// What a KSUID renders as in each re-encoding format; its integer form is
/// the value modulo 2^128.
pub open spec fn ksuid_encoded(b: Seq<u8>, f: EncodingFormat) -> Seq<char> {
    if f == EncodingFormat::Canonical {
        ksuid_text(b)
    } else if f == EncodingFormat::Int {
        decimal_of(be_value(b) % (0x1_0000_0000_0000_0000 * 0x1_0000_0000_0000_0000) as nat)
    } else {
        encoded_text(b, f)
    }
}

pub open spec fn ksuid_offset(b: Seq<u8>) -> nat {
    (b[0] as nat) * 0x100_0000 + (b[1] as nat) * 0x1_0000 + (b[2] as nat) * 0x100 + b[3] as nat
}

/// The value of the last sixteen bytes is the whole value modulo 2^128.
pub proof fn lemma_low_bytes(b: Seq<u8>)
    requires
        b.len() == 20,
    ensures
        be_value(b.subrange(4, 20)) == be_value(b) % ((0x1_0000_0000_0000_0000 * 0x1_0000_0000_0000_0000) as nat),
        b.subrange(4, 20).len() <= 16,
{
    let hi = b.subrange(0, 4);
    let lo = b.subrange(4, 20);
    assert(nats(b) =~= nats(hi) + nats(lo));
    lemma_value_concat(nats(hi), nats(lo), 256);
    lemma_nats_below(lo);
    lemma_value_bound(nats(lo), 256);
    assert(pow(256, 16) == 0x1_0000_0000_0000_0000 * 0x1_0000_0000_0000_0000) by {
        reveal_with_fuel(pow, 17);
    }
    lemma_fundamental_div_mod_converse(
        be_value(b) as int,
        pow(256, 16),
        be_value(hi) as int,
        be_value(lo) as int,
    );
}

/// A parsed KSUID.
#[derive(Debug)]
pub struct ParsedKsuid {
    pub bytes: Vec<u8>,
    pub input: String,
}

impl ParsedKsuid {
    pub fn parse(input: &str) -> (r: Result<ParsedKsuid>)
        ensures
            r is Ok <==> ksuid_decodes(trimmed(input@)),
            r matches Ok(p) ==> (p.bytes@.len() == 20 && be_value(p.bytes@) == ksuid_value(
                trimmed(input@),
            ) && p.input@ == trimmed(input@)),
            r matches Err(e) ==> e is ParseError,
    {
        let t = trimmed_chars(input);
        let bytes = decode_base62(&t)?;
        Ok(ParsedKsuid { bytes, input: string_of_chars(&t) })
    }

    pub fn timestamp_offset(&self) -> (r: u32)
        requires
            self.bytes@.len() == 20,
        ensures
            r as nat == ksuid_offset(self.bytes@),
    {
        let b = &self.bytes;
        (b[0] as u32) * 0x100_0000 + (b[1] as u32) * 0x1_0000 + (b[2] as u32) * 0x100 + b[3] as u32
    }

    pub fn unix_timestamp_secs(&self) -> (r: u64)
        requires
            self.bytes@.len() == 20,
        ensures
            r as nat == ksuid_offset(self.bytes@) + KSUID_EPOCH,
    {
        self.timestamp_offset() as u64 + KSUID_EPOCH
    }

    pub fn kind(&self) -> (r: IdKind)
        ensures
            r == IdKind::Ksuid,
    {
        IdKind::Ksuid
    }

    pub fn canonical(&self) -> (r: String)
        requires
            self.bytes@.len() == 20,
        ensures
            r@ == ksuid_text(self.bytes@),
    {
        encode_base62(self.bytes.as_slice())
    }

    pub fn as_bytes(&self) -> (r: Vec<u8>)
        ensures
            r@ == self.bytes@,
    {
        self.bytes.clone()
    }

    pub fn timestamp(&self) -> (r: Option<Timestamp>)
        requires
            self.bytes@.len() == 20,
        ensures
            r == Some(Timestamp { millis: ((ksuid_offset(self.bytes@) + KSUID_EPOCH) * 1000) as u64 }),
    {
        Some(Timestamp::from_secs(self.unix_timestamp_secs()))
    }

    pub fn validate(&self) -> (r: ValidationResult)
        ensures
            r.valid,
            r.id_type matches Some(t) && t@ == "ksuid"@,
    {
        ValidationResult::valid("ksuid")
    }

    pub fn encode(&self, format: EncodingFormat) -> (r: String)
        requires
            self.bytes@.len() == 20,
        ensures
            r@ == ksuid_encoded(self.bytes@, format),
    {
        if format == EncodingFormat::Canonical {
            self.canonical()
        } else if format == EncodingFormat::Int {
            let mut low: Vec<u8> = Vec::new();
            let mut i: usize = 4;
            while i < 20
                invariant
                    self.bytes@.len() == 20,
                    4 <= i <= 20,
                    low@ == self.bytes@.subrange(4, i as int),
                decreases 20 - i,
            {
                low.push(self.bytes[i]);
                i = i + 1;
            }
            proof {
                lemma_low_bytes(self.bytes@);
            }
            match crate::encoding::bytes_to_u128(low.as_slice()) {
                Some(n) => decimal_text(n),
                None => decimal_text(0),
            }
        } else {
            encode_bytes(self.bytes.as_slice(), format)
        }
    }

    pub fn inspect(&self) -> (r: InspectionResult)
        requires
            self.bytes@.len() == 20,
        ensures
            r.id_type@ == "ksuid"@,
            r.canonical@ == ksuid_text(self.bytes@),
            r.input == self.input,
            r.valid,
            r.timestamp == Some(Timestamp { millis: ((ksuid_offset(self.bytes@) + KSUID_EPOCH) * 1000) as u64 }),
            r.random_bits == Some(128u32),
            r.encodings.hex@ == hex_text(self.bytes@, false),
            r.encodings.base32@ == crate::encoding::base32_of(self.bytes@),
            r.encodings.base58@ == crate::encoding::base58_of(self.bytes@),
            r.encodings.base64@ == crate::encoding::base64_of(self.bytes@),
            r.encodings.int is None,
            r.timestamp is None ==> r.timestamp_iso is None,
            r.timestamp matches Some(t) ==> (r.timestamp_iso matches Some(x) && x@ == crate::id::iso_text(t.millis)),
    {
        let bytes = self.as_bytes();
        let ts = Timestamp::from_secs(self.unix_timestamp_secs());
        let mut payload: Vec<u8> = Vec::new();
        let mut i: usize = 4;
        while i < 20
            invariant
                bytes@.len() == 20,
                4 <= i <= 20,
            decreases 20 - i,
        {
            payload.push(bytes[i]);
            i = i + 1;
        }
        let mut components: Vec<(String, ComponentValue)> = Vec::new();
        components.push(("timestamp_secs".to_owned(), ComponentValue::Number(self.unix_timestamp_secs() as u128)));
        components.push(("ksuid_epoch_offset".to_owned(), ComponentValue::Number(self.timestamp_offset() as u128)));
        components.push(("payload_hex".to_owned(), ComponentValue::Text(encode_hex(payload.as_slice()))));
        InspectionResult {
            id_type: "ksuid".to_owned(),
            input: self.input.clone(),
            canonical: self.canonical(),
            valid: true,
            timestamp: Some(ts),
            timestamp_iso: Some(ts.to_iso8601()),
            timestamp_local_iso: None,
            version: None,
            variant: None,
            random_bits: Some(128),
            components: Some(components),
            encodings: IdEncodings {
                hex: encode_hex(bytes.as_slice()),
                base32: encode_base32(bytes.as_slice()),
                base58: encode_base58(bytes.as_slice()),
                base64: encode_base64(bytes.as_slice()),
                int: None,
            },
        }
    }
}

/// Whether a text parses as a KSUID.
pub fn is_ksuid(input: &str) -> (r: bool)
    ensures
        r == ksuid_decodes(trimmed(input@)),
{
    ParsedKsuid::parse(input).is_ok()
}

} // verus!
