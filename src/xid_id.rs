use crate::encoding::{encode_base32, encode_base58, encode_base64, encode_bytes, encode_hex, encoded_text, hex_text, EncodingFormat};
use crate::error::{IdtError, Result};
use crate::id::{not_ahead, current_timestamp_secs, ComponentValue, IdEncodings, InspectionResult, Timestamp, ValidationResult};
use crate::kind::IdKind;
use crate::text::{string_of_chars, trimmed, trimmed_chars};
use vstd::prelude::*;

verus! {

/// The base32hex symbol of a value below 32.
pub open spec fn xid_symbol(d: u8) -> char {
    if d < 10 {
        ((48 + d) as u8) as char
    } else {
        ((87 + d) as u8) as char
    }
}

/// The value of a base32hex symbol (`0`-`9`, `a`-`v`).
pub open spec fn xid_value(c: char) -> Option<u8> {
    if '0' <= c && c <= '9' {
        Some((c as u32 - 48) as u8)
    } else if 'a' <= c && c <= 'v' {
        Some((c as u32 - 87) as u8)
    } else {
        None
    }
}

/// The twenty 5-bit groups of the Xid interleave, most significant first.
pub open spec fn xid_digits(b: Seq<u8>) -> Seq<u8> {
    seq![
        b[0] >> 7,
        (b[0] >> 2) & 0x1f,
        ((b[1] >> 5) | (b[0] << 3)) & 0x1f,
        b[1] & 0x1f,
        (b[2] >> 3) & 0x1f,
        ((b[3] >> 6) | (b[2] << 2)) & 0x1f,
        (b[3] >> 1) & 0x1f,
        ((b[4] >> 4) | (b[3] << 4)) & 0x1f,
        ((b[5] >> 7) | (b[4] << 1)) & 0x1f,
        (b[5] >> 2) & 0x1f,
        ((b[6] >> 5) | (b[5] << 3)) & 0x1f,
        b[6] & 0x1f,
        (b[7] >> 3) & 0x1f,
        ((b[8] >> 6) | (b[7] << 2)) & 0x1f,
        (b[8] >> 1) & 0x1f,
        ((b[9] >> 4) | (b[8] << 4)) & 0x1f,
        ((b[10] >> 7) | (b[9] << 1)) & 0x1f,
        (b[10] >> 2) & 0x1f,
        ((b[11] >> 5) | (b[10] << 3)) & 0x1f,
        b[11] & 0x1f,
    ]
}

/// The twelve bytes that twenty 5-bit groups pack into.
pub open spec fn xid_bytes(s: Seq<u8>) -> Seq<u8> {
    seq![
        (s[2] >> 3) | (s[1] << 2) | (s[0] << 7),
        s[3] | (s[2] << 5),
        (s[5] >> 2) | (s[4] << 3),
        (s[7] >> 4) | (s[6] << 1) | (s[5] << 6),
        (s[8] >> 1) | (s[7] << 4),
        (s[10] >> 3) | (s[9] << 2) | (s[8] << 7),
        s[11] | (s[10] << 5),
        (s[13] >> 2) | (s[12] << 3),
        (s[15] >> 4) | (s[14] << 1) | (s[13] << 6),
        (s[16] >> 1) | (s[15] << 4),
        (s[18] >> 3) | (s[17] << 2) | (s[16] << 7),
        s[19] | (s[18] << 5),
    ]
}

/// The canonical 20-symbol rendering of twelve bytes.
pub open spec fn xid_text(b: Seq<u8>) -> Seq<char> {
    xid_digits(b).map_values(|d: u8| xid_symbol(d))
}

pub open spec fn xid_symbol_values(s: Seq<char>) -> Seq<u8> {
    s.map_values(|c: char| match xid_value(c) {
        Some(d) => d,
        None => 0u8,
    })
}

/// Whether a text has the Xid shape: 20 base32hex symbols.
pub open spec fn xid_shape(s: Seq<char>) -> bool {
    s.len() == 20 && forall|i: int| 0 <= i < s.len() ==> #[trigger] xid_value(s[i]) is Some
}

/// Whether a text decodes as an Xid: the Xid shape, with a first symbol of
/// `0` or `1`, since that position carries a single bit.
pub open spec fn xid_decodes(s: Seq<char>) -> bool {
    xid_shape(s) && (s[0] == '0' || s[0] == '1')
}

/// The twelve bytes of a decodable Xid text.
pub open spec fn xid_decoded(s: Seq<char>) -> Seq<u8> {
    xid_bytes(xid_symbol_values(s))
}

/// Every group of the interleave is below 32.
pub proof fn lemma_xid_digit_bounds(b: Seq<u8>)
    requires
        b.len() == 12,
    ensures
        forall|i: int| 0 <= i < 20 ==> #[trigger] xid_digits(b)[i] < 32,
{
    let b0 = b[0];
    let b1 = b[1];
    let b2 = b[2];
    let b3 = b[3];
    let b4 = b[4];
    let b5 = b[5];
    let b6 = b[6];
    let b7 = b[7];
    let b8 = b[8];
    let b9 = b[9];
    let b10 = b[10];
    let b11 = b[11];
    assert((b0 >> 7) < 32 &&
        ((b0 >> 2) & 0x1f) < 32 &&
        (((b1 >> 5) | (b0 << 3)) & 0x1f) < 32 &&
        (b1 & 0x1f) < 32 &&
        ((b2 >> 3) & 0x1f) < 32 &&
        (((b3 >> 6) | (b2 << 2)) & 0x1f) < 32 &&
        ((b3 >> 1) & 0x1f) < 32 &&
        (((b4 >> 4) | (b3 << 4)) & 0x1f) < 32 &&
        (((b5 >> 7) | (b4 << 1)) & 0x1f) < 32 &&
        ((b5 >> 2) & 0x1f) < 32 &&
        (((b6 >> 5) | (b5 << 3)) & 0x1f) < 32 &&
        (b6 & 0x1f) < 32 &&
        ((b7 >> 3) & 0x1f) < 32 &&
        (((b8 >> 6) | (b7 << 2)) & 0x1f) < 32 &&
        ((b8 >> 1) & 0x1f) < 32 &&
        (((b9 >> 4) | (b8 << 4)) & 0x1f) < 32 &&
        (((b10 >> 7) | (b9 << 1)) & 0x1f) < 32 &&
        ((b10 >> 2) & 0x1f) < 32 &&
        (((b11 >> 5) | (b10 << 3)) & 0x1f) < 32 &&
        (b11 & 0x1f) < 32) by (bit_vector);
    assert forall|i: int| 0 <= i < 20 implies #[trigger] xid_digits(b)[i] < 32 by {
        let d = xid_digits(b);
        if i == 0 { assert(d[0] == b0 >> 7); }
    }
}

/// Packing the groups of the interleave gives the bytes back.
pub proof fn lemma_xid_bytes_digits(b: Seq<u8>)
    requires
        b.len() == 12,
    ensures
        xid_bytes(xid_digits(b)) == b,
{
    let b0 = b[0];
    let b1 = b[1];
    let b2 = b[2];
    let b3 = b[3];
    let b4 = b[4];
    let b5 = b[5];
    let b6 = b[6];
    let b7 = b[7];
    let b8 = b[8];
    let b9 = b[9];
    let b10 = b[10];
    let b11 = b[11];
    assert((((((b1 >> 5) | (b0 << 3)) & 0x1f) >> 3) | (((b0 >> 2) & 0x1f) << 2) | ((b0 >> 7) << 7)) == b0 &&
        ((b1 & 0x1f) | ((((b1 >> 5) | (b0 << 3)) & 0x1f) << 5)) == b1 &&
        (((((b3 >> 6) | (b2 << 2)) & 0x1f) >> 2) | (((b2 >> 3) & 0x1f) << 3)) == b2 &&
        (((((b4 >> 4) | (b3 << 4)) & 0x1f) >> 4) | (((b3 >> 1) & 0x1f) << 1) | ((((b3 >> 6) | (b2 << 2)) & 0x1f) << 6)) == b3 &&
        (((((b5 >> 7) | (b4 << 1)) & 0x1f) >> 1) | ((((b4 >> 4) | (b3 << 4)) & 0x1f) << 4)) == b4 &&
        (((((b6 >> 5) | (b5 << 3)) & 0x1f) >> 3) | (((b5 >> 2) & 0x1f) << 2) | ((((b5 >> 7) | (b4 << 1)) & 0x1f) << 7)) == b5 &&
        ((b6 & 0x1f) | ((((b6 >> 5) | (b5 << 3)) & 0x1f) << 5)) == b6 &&
        (((((b8 >> 6) | (b7 << 2)) & 0x1f) >> 2) | (((b7 >> 3) & 0x1f) << 3)) == b7 &&
        (((((b9 >> 4) | (b8 << 4)) & 0x1f) >> 4) | (((b8 >> 1) & 0x1f) << 1) | ((((b8 >> 6) | (b7 << 2)) & 0x1f) << 6)) == b8 &&
        (((((b10 >> 7) | (b9 << 1)) & 0x1f) >> 1) | ((((b9 >> 4) | (b8 << 4)) & 0x1f) << 4)) == b9 &&
        (((((b11 >> 5) | (b10 << 3)) & 0x1f) >> 3) | (((b10 >> 2) & 0x1f) << 2) | ((((b10 >> 7) | (b9 << 1)) & 0x1f) << 7)) == b10 &&
        ((b11 & 0x1f) | ((((b11 >> 5) | (b10 << 3)) & 0x1f) << 5)) == b11) by (bit_vector);
    assert(xid_bytes(xid_digits(b)) =~= b);
}

fn xid_char(d: u8) -> (r: char)
    requires
        d < 32,
    ensures
        r == xid_symbol(d),
        xid_value(r) == Some(d),
{
    if d < 10 {
        (48u8 + d) as char
    } else {
        (87u8 + d) as char
    }
}

pub fn xid_char_value(c: char) -> (r: Option<u8>)
    ensures
        r == xid_value(c),
{
    if '0' <= c && c <= '9' {
        Some((c as u32 - 48) as u8)
    } else if 'a' <= c && c <= 'v' {
        Some((c as u32 - 87) as u8)
    } else {
        None
    }
}

/// Encodes twelve bytes with the Xid bit interleave.
pub fn xid_encode(bytes: &[u8; 12]) -> (r: String)
    ensures
        r@ == xid_text(bytes@),
{
    let b = bytes;
    let ds: [u8; 20] = [
        b[0] >> 7,
        (b[0] >> 2) & 0x1f,
        ((b[1] >> 5) | (b[0] << 3)) & 0x1f,
        b[1] & 0x1f,
        (b[2] >> 3) & 0x1f,
        ((b[3] >> 6) | (b[2] << 2)) & 0x1f,
        (b[3] >> 1) & 0x1f,
        ((b[4] >> 4) | (b[3] << 4)) & 0x1f,
        ((b[5] >> 7) | (b[4] << 1)) & 0x1f,
        (b[5] >> 2) & 0x1f,
        ((b[6] >> 5) | (b[5] << 3)) & 0x1f,
        b[6] & 0x1f,
        (b[7] >> 3) & 0x1f,
        ((b[8] >> 6) | (b[7] << 2)) & 0x1f,
        (b[8] >> 1) & 0x1f,
        ((b[9] >> 4) | (b[8] << 4)) & 0x1f,
        ((b[10] >> 7) | (b[9] << 1)) & 0x1f,
        (b[10] >> 2) & 0x1f,
        ((b[11] >> 5) | (b[10] << 3)) & 0x1f,
        b[11] & 0x1f,
    ];
    assert(ds@ =~= xid_digits(bytes@));
    proof {
        lemma_xid_digit_bounds(bytes@);
    }
    let mut out: Vec<char> = Vec::new();
    let mut i: usize = 0;
    while i < 20
        invariant
            i <= 20,
            ds@ == xid_digits(bytes@),
            forall|j: int| 0 <= j < 20 ==> #[trigger] ds@[j] < 32,
            out@ == xid_text(bytes@).subrange(0, i as int),
        decreases 20 - i,
    {
        out.push(xid_char(ds[i]));
        i = i + 1;
        assert(out@ =~= xid_text(bytes@).subrange(0, i as int));
    }
    assert(out@ =~= xid_text(bytes@));
    string_of_chars(&out)
}

/// Decodes 20 base32hex symbols into twelve bytes.
pub fn xid_decode(s: &Vec<char>) -> (r: Result<[u8; 12]>)
    ensures
        r is Ok <==> xid_decodes(s@),
        r matches Ok(b) ==> b@ == xid_decoded(s@),
        r matches Err(e) ==> e is ParseError,
{
    if s.len() != 20 {
        return Err(IdtError::ParseError("Xid must be 20 characters".to_owned()));
    }
    if s[0] != '0' && s[0] != '1' {
        return Err(IdtError::ParseError("Xid must start with 0 or 1".to_owned()));
    }
    let mut src: Vec<u8> = Vec::new();
    let mut i: usize = 0;
    while i < 20
        invariant
            s@.len() == 20,
            s@[0] == '0' || s@[0] == '1',
            i <= 20,
            src@ == xid_symbol_values(s@).subrange(0, i as int),
            forall|j: int| 0 <= j < i ==> #[trigger] xid_value(s@[j]) is Some,
        decreases 20 - i,
    {
        match xid_char_value(s[i]) {
            Some(d) => src.push(d),
            None => {
                return Err(IdtError::ParseError("Invalid xid character".to_owned()));
            },
        }
        i = i + 1;
        assert(src@ =~= xid_symbol_values(s@).subrange(0, i as int));
    }
    assert(src@ =~= xid_symbol_values(s@));
    let bytes: [u8; 12] = [
        (src[2] >> 3) | (src[1] << 2) | (src[0] << 7),
        src[3] | (src[2] << 5),
        (src[5] >> 2) | (src[4] << 3),
        (src[7] >> 4) | (src[6] << 1) | (src[5] << 6),
        (src[8] >> 1) | (src[7] << 4),
        (src[10] >> 3) | (src[9] << 2) | (src[8] << 7),
        src[11] | (src[10] << 5),
        (src[13] >> 2) | (src[12] << 3),
        (src[15] >> 4) | (src[14] << 1) | (src[13] << 6),
        (src[16] >> 1) | (src[15] << 4),
        (src[18] >> 3) | (src[17] << 2) | (src[16] << 7),
        src[19] | (src[18] << 5),
    ];
    assert(bytes@ =~= xid_decoded(s@));
    Ok(bytes)
}

/// Any twelve bytes come back unchanged from an Xid encode and decode.
pub proof fn lemma_xid_round_trip(b: Seq<u8>)
    requires
        b.len() == 12,
    ensures
        xid_decodes(xid_text(b)),
        xid_decoded(xid_text(b)) == b,
{
    lemma_xid_digit_bounds(b);
    let b0 = b[0];
    assert(b0 >> 7 <= 1) by (bit_vector);
    assert(xid_symbol_values(xid_text(b)) =~= xid_digits(b));
    lemma_xid_bytes_digits(b);
}

/// The twelve-byte Xid layout: four bytes of seconds, three of machine id,
/// two of process id, and the low 24 bits of the counter.
pub open spec fn xid_layout(secs: nat, machine: Seq<u8>, pid: u16, counter: nat) -> Seq<u8> {
    let t = secs % 0x1_0000_0000;
    let c = counter % 0x100_0000;
    seq![
        (t / 0x100_0000) as u8,
        ((t / 0x1_0000) % 256) as u8,
        ((t / 0x100) % 256) as u8,
        (t % 256) as u8,
        machine[0],
        machine[1],
        machine[2],
        (pid / 256) as u8,
        (pid % 256) as u8,
        (c / 0x1_0000) as u8,
        ((c / 0x100) % 256) as u8,
        (c % 256) as u8,
    ]
}

/// Xid generator: a machine id and process id fixed per generator, and a
/// counter that is seeded at random and advances by one per identifier.
#[derive(Debug)]
pub struct XidGenerator {
    pub machine_id: [u8; 3],
    pub process_id: u16,
    pub counter: u32,
}

impl XidGenerator {
    pub fn new() -> (r: XidGenerator)
        ensures
            r.process_id == 0,
            r.counter < 0x100_0000,
    {
        let m = crate::random::random_bytes(3);
        let machine_id: [u8; 3] = [m[0], m[1], m[2]];
        let counter = (crate::random::random_u64() % 0x100_0000) as u32;
        XidGenerator { machine_id, process_id: 0, counter }
    }

    pub fn with_process_id(self, pid: u16) -> (r: XidGenerator)
        ensures
            r.process_id == pid,
            r.machine_id == self.machine_id,
            r.counter == self.counter,
    {
        XidGenerator { process_id: pid, ..self }
    }

    /// The next counter value (24 bits); the counter wraps at 2^32.
    pub fn next_counter(&mut self) -> (r: u32)
        ensures
            r == old(self).counter % 0x100_0000,
            final(self).counter as nat == (old(self).counter as nat + 1) % 0x1_0000_0000,
            final(self).machine_id == old(self).machine_id,
            final(self).process_id == old(self).process_id,
    {
        let c = self.counter;
        self.counter = if c == u32::MAX {
            0
        } else {
            c + 1
        };
        c % 0x100_0000
    }

    /// The Xid for a clock reading in seconds.
    pub fn generate_at(&mut self, now_secs: u64) -> (r: String)
        ensures
            r@ == xid_text(
                xid_layout(now_secs as nat, old(self).machine_id@, old(self).process_id, old(self).counter as nat),
            ),
            final(self).counter as nat == (old(self).counter as nat + 1) % 0x1_0000_0000,
            final(self).machine_id == old(self).machine_id,
            final(self).process_id == old(self).process_id,
    {
        let t = now_secs % 0x1_0000_0000;
        let counter = self.next_counter();
        let pid = self.process_id;
        let m = self.machine_id;
        let bytes: [u8; 12] = [
            (t / 0x100_0000) as u8,
            ((t / 0x1_0000) % 256) as u8,
            ((t / 0x100) % 256) as u8,
            (t % 256) as u8,
            m[0],
            m[1],
            m[2],
            (pid / 256) as u8,
            (pid % 256) as u8,
            (counter / 0x1_0000) as u8,
            ((counter / 0x100) % 256) as u8,
            (counter % 256) as u8,
        ];
        proof {
            assert((counter as nat) % 0x100_0000 == counter as nat);
        }
        assert(bytes@ =~= xid_layout(now_secs as nat, old(self).machine_id@, old(self).process_id, old(self).counter as nat));
        xid_encode(&bytes)
    }

    pub fn generate(&mut self) -> (r: Result<String>)
        ensures
            r matches Ok(s) ==> exists|t: nat| s@ == xid_text(
                xid_layout(t, old(self).machine_id@, old(self).process_id, old(self).counter as nat),
            ),
            final(self).counter as nat == (old(self).counter as nat + 1) % 0x1_0000_0000,
            final(self).machine_id == old(self).machine_id,
            final(self).process_id == old(self).process_id,
            r is Ok,
    {
        let now = current_timestamp_secs();
        Ok(self.generate_at(now))
    }
}

/// What an Xid renders as in each re-encoding format.
pub open spec fn xid_encoded(b: Seq<u8>, f: EncodingFormat) -> Seq<char> {
    if f == EncodingFormat::Canonical {
        xid_text(b)
    } else {
        encoded_text(b, f)
    }
}

pub open spec fn seconds_of(b: Seq<u8>) -> nat {
    (b[0] as nat) * 0x100_0000 + (b[1] as nat) * 0x1_0000 + (b[2] as nat) * 0x100 + b[3] as nat
}

/// A parsed Xid.
#[derive(Debug)]
pub struct ParsedXid {
    pub bytes: [u8; 12],
    pub input: String,
}

impl ParsedXid {
    pub fn parse(input: &str) -> (r: Result<ParsedXid>)
        ensures
            r is Ok <==> xid_decodes(trimmed(input@)),
            r matches Ok(p) ==> (p.bytes@ == xid_decoded(trimmed(input@)) && p.input@ == trimmed(
                input@,
            )),
            r matches Err(e) ==> e is ParseError,
    {
        let t = trimmed_chars(input);
        let bytes = xid_decode(&t)?;
        Ok(ParsedXid { bytes, input: string_of_chars(&t) })
    }

    pub fn timestamp_secs(&self) -> (r: u32)
        ensures
            r as nat == seconds_of(self.bytes@),
    {
        let b = &self.bytes;
        (b[0] as u32) * 0x100_0000 + (b[1] as u32) * 0x1_0000 + (b[2] as u32) * 0x100 + b[3] as u32
    }

    pub fn process_id(&self) -> (r: u16)
        ensures
            r as nat == (self.bytes@[7] as nat) * 256 + self.bytes@[8] as nat,
    {
        (self.bytes[7] as u16) * 256 + self.bytes[8] as u16
    }

    pub fn counter(&self) -> (r: u32)
        ensures
            r as nat == (self.bytes@[9] as nat) * 0x1_0000 + (self.bytes@[10] as nat) * 0x100
                + self.bytes@[11] as nat,
    {
        (self.bytes[9] as u32) * 0x1_0000 + (self.bytes[10] as u32) * 0x100 + self.bytes[11] as u32
    }

    pub fn kind(&self) -> (r: IdKind)
        ensures
            r == IdKind::Xid,
    {
        IdKind::Xid
    }

    pub fn canonical(&self) -> (r: String)
        ensures
            r@ == xid_text(self.bytes@),
    {
        xid_encode(&self.bytes)
    }

    pub fn as_bytes(&self) -> (r: Vec<u8>)
        ensures
            r@ == self.bytes@,
    {
        let mut v: Vec<u8> = Vec::new();
        let mut i: usize = 0;
        while i < 12
            invariant
                self.bytes@.len() == 12,
                i <= 12,
                v@ == self.bytes@.subrange(0, i as int),
            decreases 12 - i,
        {
            v.push(self.bytes[i]);
            i = i + 1;
        }
        assert(v@ =~= self.bytes@);
        v
    }

    pub fn timestamp(&self) -> (r: Option<Timestamp>)
        ensures
            r == Some(Timestamp { millis: (seconds_of(self.bytes@) * 1000) as u64 }),
    {
        Some(Timestamp::from_secs(self.timestamp_secs() as u64))
    }

    /// Valid unless the embedded time is more than a day after `now_secs`.
    pub fn validate_at(&self, now_secs: u64) -> (r: ValidationResult)
        ensures
            r.valid == not_ahead(seconds_of(self.bytes@), (now_secs % 0x1_0000_0000) as nat, 86400),
            r.valid ==> (r.id_type matches Some(t) && t@ == "xid"@),
            !r.valid ==> (r.error matches Some(t) && t@ == "Timestamp is in the future"@),
    {
        let ts = self.timestamp_secs() as u64;
        if ts > (now_secs % 0x1_0000_0000) + 86400 {
            ValidationResult::invalid("Timestamp is in the future")
        } else {
            ValidationResult::valid("xid")
        }
    }

    pub fn validate(&self) -> (r: ValidationResult)
        ensures
            exists|now: u64| r.valid == #[trigger] not_ahead(seconds_of(self.bytes@), (now % 0x1_0000_0000) as nat, 86400),
            r.valid ==> (r.id_type matches Some(t) && t@ == "xid"@),
            !r.valid ==> (r.error matches Some(t) && t@ == "Timestamp is in the future"@),
    {
        self.validate_at(current_timestamp_secs())
    }

    pub fn encode(&self, format: EncodingFormat) -> (r: String)
        ensures
            r@ == xid_encoded(self.bytes@, format),
    {
        if format == EncodingFormat::Canonical {
            self.canonical()
        } else {
            let bytes = self.as_bytes();
            encode_bytes(bytes.as_slice(), format)
        }
    }

    pub fn inspect(&self) -> (r: InspectionResult)
        ensures
            r.id_type@ == "xid"@,
            r.canonical@ == xid_text(self.bytes@),
            r.input == self.input,
            r.valid,
            r.timestamp == Some(Timestamp { millis: (seconds_of(self.bytes@) * 1000) as u64 }),
            r.random_bits is None,
            r.encodings.hex@ == hex_text(self.bytes@, false),
            r.encodings.base32@ == crate::encoding::base32_of(self.bytes@),
            r.encodings.base58@ == crate::encoding::base58_of(self.bytes@),
            r.encodings.base64@ == crate::encoding::base64_of(self.bytes@),
            r.encodings.int is None,
            r.timestamp is None ==> r.timestamp_iso is None,
            r.timestamp matches Some(t) ==> (r.timestamp_iso matches Some(x) && x@ == crate::id::iso_text(t.millis)),
    {
        let bytes = self.as_bytes();
        let ts = Timestamp::from_secs(self.timestamp_secs() as u64);
        let machine: Vec<u8> = vec![self.bytes[4], self.bytes[5], self.bytes[6]];
        let mut components: Vec<(String, ComponentValue)> = Vec::new();
        components.push(("timestamp_secs".to_owned(), ComponentValue::Number(self.timestamp_secs() as u128)));
        components.push(("machine_id_hex".to_owned(), ComponentValue::Text(encode_hex(machine.as_slice()))));
        components.push(("process_id".to_owned(), ComponentValue::Number(self.process_id() as u128)));
        components.push(("counter".to_owned(), ComponentValue::Number(self.counter() as u128)));
        InspectionResult {
            id_type: "xid".to_owned(),
            input: self.input.clone(),
            canonical: self.canonical(),
            valid: true,
            timestamp: Some(ts),
            timestamp_iso: Some(ts.to_iso8601()),
            timestamp_local_iso: None,
            version: None,
            variant: None,
            random_bits: None,
            components: Some(components),
            encodings: IdEncodings {
                hex: encode_hex(bytes.as_slice()),
                base32: encode_base32(bytes.as_slice()),
                base58: encode_base58(bytes.as_slice()),
                base64: encode_base64(bytes.as_slice()),
                int: None,
            },
        }
    }
}

/// Whether a text parses as an Xid.
pub fn is_xid(input: &str) -> (r: bool)
    ensures
        r == xid_decodes(trimmed(input@)),
{
    ParsedXid::parse(input).is_ok()
}

/// Xids of one second, machine and process whose counters differ in their
/// low 24 bits are different texts.
pub proof fn lemma_xid_counters_distinct(secs: nat, machine: Seq<u8>, pid: u16, c1: nat, c2: nat)
    requires
        machine.len() == 3,
        c1 % 0x100_0000 != c2 % 0x100_0000,
    ensures
        xid_text(xid_layout(secs, machine, pid, c1)) != xid_text(xid_layout(secs, machine, pid, c2)),
{
    let l1 = xid_layout(secs, machine, pid, c1);
    let l2 = xid_layout(secs, machine, pid, c2);
    let a = c1 % 0x100_0000;
    let b = c2 % 0x100_0000;
    assert(a == (a / 0x1_0000) * 0x1_0000 + ((a / 0x100) % 256) * 0x100 + a % 256);
    assert(b == (b / 0x1_0000) * 0x1_0000 + ((b / 0x100) % 256) * 0x100 + b % 256);
    assert(l1 != l2) by {
        if l1 == l2 {
            assert(l1[9] == l2[9] && l1[10] == l2[10] && l1[11] == l2[11]);
        }
    }
    lemma_xid_round_trip(l1);
    lemma_xid_round_trip(l2);
}

} // verus!
