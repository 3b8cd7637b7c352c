use crate::digits::{lemma_prefix_value_le, lemma_value_push, value_of};
use crate::encoding::{
    be_bytes, be_bytes_spec, bits_text, decimal_of, decimal_text, encode_base64, encode_bits,
    encode_hex, hex_text, base64_of, EncodingFormat,
};
use crate::error::{IdtError, Result};
use crate::id::{not_ahead, current_timestamp_ms, ComponentValue, IdEncodings, InspectionResult, Timestamp, ValidationResult};
use crate::kind::IdKind;
use crate::text::{all_digits, chars_of, is_digit, lower_of, push_str, same_text, string_of_chars, to_lower, trimmed, trimmed_chars};
use vstd::prelude::*;

verus! {

/// Twitter's Snowflake epoch (2010-11-04T01:42:54.657Z) in milliseconds.
pub const TWITTER_EPOCH: u64 = 1288834974657;

/// Discord's Snowflake epoch (2015-01-01T00:00:00Z) in milliseconds.
pub const DISCORD_EPOCH: u64 = 1420070400000;

/// The default epoch: the Unix epoch.
pub const DEFAULT_EPOCH: u64 = 0;

/// The digits of a decimal text, after an optional leading '+'.
pub open spec fn unsigned_digits(s: Seq<char>) -> Seq<char> {
    if s.len() > 0 && s[0] == '+' {
        s.subrange(1, s.len() as int)
    } else {
        s
    }
}

pub open spec fn decimal_digit_values(s: Seq<char>) -> Seq<nat> {
    s.map_values(|c: char| (c as u32 - 48) as nat)
}

/// Whether a text is a `u64` in decimal, as `u64::from_str` reads it.
pub open spec fn u64_text_ok(s: Seq<char>) -> bool {
    let d = unsigned_digits(s);
    d.len() > 0 && crate::text::all_digits(d) && value_of(decimal_digit_values(d), 10)
        < 0x1_0000_0000_0000_0000
}

pub open spec fn u64_text_value(s: Seq<char>) -> nat {
    value_of(decimal_digit_values(unsigned_digits(s)), 10)
}

/// Reads a `u64` in decimal with an optional leading '+'.
pub fn parse_u64_decimal(s: &Vec<char>) -> (r: Option<u64>)
    ensures
        r is Some <==> u64_text_ok(s@),
        r matches Some(v) ==> v as nat == u64_text_value(s@),
{
    let start: usize = if s.len() > 0 && s[0] == '+' {
        1
    } else {
        0
    };
    let ghost d = unsigned_digits(s@);
    assert(d =~= s@.subrange(start as int, s@.len() as int));
    if start >= s.len() {
        return None;
    }
    let mut value: u64 = 0;
    let mut i: usize = start;
    while i < s.len()
        invariant
            start <= i <= s@.len(),
            d == unsigned_digits(s@),
            d == s@.subrange(start as int, s@.len() as int),
            value as nat == value_of(decimal_digit_values(d).subrange(0, i - start), 10),
            forall|j: int| 0 <= j < i - start ==> #[trigger] is_digit(d[j]),
        decreases s@.len() - i,
    {
        let c = s[i];
        assert(d[i - start] == s@[i as int]);
        if !('0' <= c && c <= '9') {
            assert(!is_digit(d[i - start]));
            return None;
        }
        let dv = (c as u32 - 48) as u64;
        let ghost pre = decimal_digit_values(d).subrange(0, i - start);
        let ghost cur = decimal_digit_values(d).subrange(0, i - start + 1);
        proof {
            assert(cur =~= pre.push(dv as nat));
            lemma_value_push(pre, dv as nat, 10);
        }
        if value > (u64::MAX - dv) / 10 {
            proof {
                let m = (u64::MAX - dv) as int;
                let v = value as int;
                assert(v * 10 + dv > u64::MAX) by (nonlinear_arith)
                    requires
                        v > m / 10,
                        m == u64::MAX - dv,
                        0 <= dv <= 9,
                ;
                lemma_prefix_value_le(decimal_digit_values(d), 10, i - start + 1);
                assert(value_of(cur, 10) == v * 10 + dv);
                assert(value_of(decimal_digit_values(d), 10) >= value_of(cur, 10));
                assert(!u64_text_ok(s@));
            }
            return None;
        }
        value = value * 10 + dv;
        i = i + 1;
    }
    assert(decimal_digit_values(d).subrange(0, d.len() as int) =~= decimal_digit_values(d));
    Some(value)
}

/// The Snowflake for a time offset, datacenter, machine and sequence: the low
/// 42 bits of the time, five bits of each id, and twelve bits of sequence.
pub open spec fn snowflake_compose(ts: nat, datacenter: nat, machine: nat, sequence: nat) -> nat {
    (ts % 0x400_0000_0000) * 0x40_0000 + (datacenter % 32) * 0x2_0000 + (machine % 32) * 0x1000
        + sequence % 0x1000
}

/// One generation step at clock reading `now`: the id it yields and the
/// generator state it leaves.
pub open spec fn snowflake_step(g: SnowflakeGenerator, now: u64, next: SnowflakeGenerator, id: u64) -> bool {
    let ts = (now - g.epoch) as nat;
    let seq = if ts == g.last_timestamp {
        g.sequence % 0x1000
    } else {
        0
    };
    &&& now >= g.epoch
    &&& id as nat == snowflake_compose(ts, g.datacenter_id as nat, g.machine_id as nat, seq as nat)
    &&& next.last_timestamp as nat == ts
    &&& ts == g.last_timestamp ==> next.sequence as nat == (g.sequence as nat + 1) % 0x1_0000_0000_0000_0000
    &&& ts != g.last_timestamp ==> next.sequence == 1
    &&& next.epoch == g.epoch
    &&& next.machine_id == g.machine_id
    &&& next.datacenter_id == g.datacenter_id
}

/// The fields of a composed Snowflake read back: time (low 42 bits),
/// datacenter, machine and sequence.
pub proof fn lemma_snowflake_fields(ts: nat, datacenter: nat, machine: nat, sequence: nat)
    ensures
        ({
            let id = snowflake_compose(ts, datacenter, machine, sequence);
            &&& id / 0x40_0000 == ts % 0x400_0000_0000
            &&& (id / 0x2_0000) % 32 == datacenter % 32
            &&& (id / 0x1000) % 32 == machine % 32
            &&& id % 0x1000 == sequence % 0x1000
        }),
{
    let t = ts % 0x400_0000_0000;
    let d = datacenter % 32;
    let m = machine % 32;
    let q = sequence % 0x1000;
    let id = snowflake_compose(ts, datacenter, machine, sequence);
    let low = d * 0x2_0000 + m * 0x1000 + q;
    assert(low < 0x40_0000);
    vstd::arithmetic::div_mod::lemma_fundamental_div_mod_converse(id as int, 0x40_0000, t as int, low as int);
    let a = t * 32 + d;
    assert(id == a * 0x2_0000 + (m * 0x1000 + q));
    vstd::arithmetic::div_mod::lemma_fundamental_div_mod_converse(id as int, 0x2_0000, a as int, (m * 0x1000 + q) as int);
    vstd::arithmetic::div_mod::lemma_fundamental_div_mod_converse(a as int, 32, t as int, d as int);
    let c = a * 32 + m;
    assert(id == c * 0x1000 + q);
    vstd::arithmetic::div_mod::lemma_fundamental_div_mod_converse(id as int, 0x1000, c as int, q as int);
    vstd::arithmetic::div_mod::lemma_fundamental_div_mod_converse(c as int, 32, a as int, m as int);
}

/// Snowflake generator. The last millisecond seen and the running sequence
/// are owned by the generator.
#[derive(Debug)]
pub struct SnowflakeGenerator {
    pub epoch: u64,
    pub machine_id: u16,
    pub datacenter_id: u16,
    pub last_timestamp: u64,
    pub sequence: u64,
}

impl SnowflakeGenerator {
    pub fn new() -> (r: SnowflakeGenerator)
        ensures
            r.epoch == DEFAULT_EPOCH,
            r.machine_id == 0,
            r.datacenter_id == 0,
            r.last_timestamp == 0,
            r.sequence == 0,
    {
        SnowflakeGenerator { epoch: DEFAULT_EPOCH, machine_id: 0, datacenter_id: 0, last_timestamp: 0, sequence: 0 }
    }

    pub fn twitter() -> (r: SnowflakeGenerator)
        ensures
            r.epoch == TWITTER_EPOCH,
            r.machine_id == 0,
            r.datacenter_id == 0,
            r.last_timestamp == 0,
            r.sequence == 0,
    {
        SnowflakeGenerator { epoch: TWITTER_EPOCH, ..Self::new() }
    }

    pub fn discord() -> (r: SnowflakeGenerator)
        ensures
            r.epoch == DISCORD_EPOCH,
            r.machine_id == 0,
            r.datacenter_id == 0,
            r.last_timestamp == 0,
            r.sequence == 0,
    {
        SnowflakeGenerator { epoch: DISCORD_EPOCH, ..Self::new() }
    }

    pub fn with_epoch(self, epoch: u64) -> (r: SnowflakeGenerator)
        ensures
            r == (SnowflakeGenerator { epoch, ..self }),
    {
        SnowflakeGenerator { epoch, ..self }
    }

    /// Keeps the low five bits of `machine_id`.
    pub fn with_machine_id(self, machine_id: u16) -> (r: SnowflakeGenerator)
        ensures
            r == (SnowflakeGenerator { machine_id: machine_id % 32, ..self }),
    {
        SnowflakeGenerator { machine_id: machine_id % 32, ..self }
    }

    /// Keeps the low five bits of `datacenter_id`.
    pub fn with_datacenter_id(self, datacenter_id: u16) -> (r: SnowflakeGenerator)
        ensures
            r == (SnowflakeGenerator { datacenter_id: datacenter_id % 32, ..self }),
    {
        SnowflakeGenerator { datacenter_id: datacenter_id % 32, ..self }
    }

    /// The sequence for a time offset: within the millisecond last seen it is
    /// the running count (twelve bits); a new millisecond restarts it at 0.
    pub fn next_sequence(&mut self, timestamp: u64) -> (r: u64)
        ensures
            timestamp == old(self).last_timestamp ==> r == old(self).sequence % 0x1000
                && final(self).sequence as nat == (old(self).sequence as nat + 1)
                % 0x1_0000_0000_0000_0000,
            timestamp != old(self).last_timestamp ==> r == 0 && final(self).sequence == 1,
            final(self).last_timestamp == timestamp,
            final(self).epoch == old(self).epoch,
            final(self).machine_id == old(self).machine_id,
            final(self).datacenter_id == old(self).datacenter_id,
    {
        let last = self.last_timestamp;
        self.last_timestamp = timestamp;
        if timestamp == last {
            let s = self.sequence;
            self.sequence = if s == u64::MAX {
                0
            } else {
                s + 1
            };
            s % 0x1000
        } else {
            self.sequence = 1;
            0
        }
    }

    /// The Snowflake for a clock reading in milliseconds since the Unix epoch;
    /// refused when the clock reads before the generator's epoch.
    pub fn generate_at(&mut self, now_ms: u64) -> (r: Result<u64>)
        ensures
            r is Ok <==> now_ms >= old(self).epoch,
            r matches Ok(id) ==> snowflake_step(*old(self), now_ms, *final(self), id),
            r is Err ==> *final(self) == *old(self),
            r matches Err(e) ==> e is GenerationError,
            final(self).epoch == old(self).epoch,
            final(self).machine_id == old(self).machine_id,
            final(self).datacenter_id == old(self).datacenter_id,
    {
        if now_ms < self.epoch {
            return Err(IdtError::GenerationError("Clock reads before the Snowflake epoch".to_owned()));
        }
        let timestamp = now_ms - self.epoch;
        let sequence = self.next_sequence(timestamp);
        let id: u64 = (timestamp % 0x400_0000_0000) * 0x40_0000 + ((self.datacenter_id % 32) as u64)
            * 0x2_0000 + ((self.machine_id % 32) as u64) * 0x1000 + sequence % 0x1000;
        Ok(id)
    }

    /// A Snowflake for the current clock reading: what `generate_at` gives
    /// for some reading at or after the epoch; nothing changes on failure.
    pub fn generate(&mut self) -> (r: Result<String>)
        ensures
            r matches Ok(s) ==> exists|now: u64, id: u64| snowflake_step(*old(self), now, *final(self), id)
                && s@ == decimal_of(id as nat),
            r is Err ==> *final(self) == *old(self),
            r matches Err(e) ==> e is GenerationError,
    {
        let now = current_timestamp_ms();
        let id = self.generate_at(now)?;
        Ok(decimal_text(id as u128))
    }
}

/// Snowflakes of one millisecond and one machine grow with the sequence.
pub proof fn lemma_sequence_orders_ids(ts: nat, datacenter: nat, machine: nat, a: nat, b: nat)
    requires
        a < b < 0x1000,
    ensures
        snowflake_compose(ts, datacenter, machine, a) < snowflake_compose(ts, datacenter, machine, b),
{
}

/// The sequence values of `n` further calls in the millisecond last seen.
pub open spec fn same_millisecond_sequences(sequence: nat, n: nat) -> Seq<nat>
    decreases n,
{
    if n == 0 {
        Seq::empty()
    } else {
        seq![sequence % 0x1000] + same_millisecond_sequences(
            (sequence + 1) % 0x1_0000_0000_0000_0000,
            (n - 1) as nat,
        )
    }
}

/// After a new millisecond has started the sequence at 0 (leaving the running
/// count at 1), the next `n` calls in that millisecond, `n` at most 4095,
/// carry the sequences 1, 2, ..., n: strictly increasing, hence distinct ids.
pub proof fn lemma_same_millisecond_run(start: nat, n: nat)
    requires
        1 <= start,
        start + n <= 0x1000,
    ensures
        same_millisecond_sequences(start, n).len() == n,
        forall|i: int| 0 <= i < n ==> #[trigger] same_millisecond_sequences(start, n)[i] == start + i,
    decreases n,
{
    if n > 0 {
        lemma_same_millisecond_run(start + 1, (n - 1) as nat);
        let rest = same_millisecond_sequences(start + 1, (n - 1) as nat);
        assert((start + 1) % 0x1_0000_0000_0000_0000 == start + 1);
        assert(start % 0x1000 == start);
        assert forall|i: int| 0 <= i < n implies #[trigger] same_millisecond_sequences(start, n)[i]
            == start + i by {
            if i > 0 {
                assert(same_millisecond_sequences(start, n)[i] == rest[i - 1]);
            }
        }
    }
}

/// What a Snowflake renders as in each re-encoding format.
pub open spec fn snowflake_encoded(id: u64, f: EncodingFormat) -> Seq<char> {
    let b = be_bytes_spec(id as nat, 8);
    match f {
        EncodingFormat::Hex => hex_text(b, false),
        EncodingFormat::Base64 => base64_of(b),
        EncodingFormat::Bits => bits_text(b),
        _ => decimal_of(id as nat),
    }
}

/// The embedded time in milliseconds since the Unix epoch, saturating.
pub open spec fn snowflake_millis(id: u64, epoch: u64) -> nat {
    let t = id as nat / 0x40_0000 + epoch as nat;
    if t > u64::MAX {
        u64::MAX as nat
    } else {
        t
    }
}

/// A parsed Snowflake together with the epoch it is read against.
#[derive(Debug)]
pub struct ParsedSnowflake {
    pub id: u64,
    pub epoch: u64,
    pub input: String,
}

impl ParsedSnowflake {
    pub fn parse(input: &str) -> (r: Result<ParsedSnowflake>)
        ensures
            r is Ok <==> u64_text_ok(trimmed(input@)),
            r matches Ok(p) ==> (p.id as nat == u64_text_value(trimmed(input@)) && p.epoch
                == DEFAULT_EPOCH && p.input@ == trimmed(input@)),
            r matches Err(e) ==> e is ParseError,
    {
        Self::parse_with_epoch(input, DEFAULT_EPOCH)
    }

    pub fn parse_twitter(input: &str) -> (r: Result<ParsedSnowflake>)
        ensures
            r is Ok <==> u64_text_ok(trimmed(input@)),
            r matches Ok(p) ==> (p.id as nat == u64_text_value(trimmed(input@)) && p.epoch
                == TWITTER_EPOCH && p.input@ == trimmed(input@)),
            r matches Err(e) ==> e is ParseError,
    {
        Self::parse_with_epoch(input, TWITTER_EPOCH)
    }

    pub fn parse_discord(input: &str) -> (r: Result<ParsedSnowflake>)
        ensures
            r is Ok <==> u64_text_ok(trimmed(input@)),
            r matches Ok(p) ==> (p.id as nat == u64_text_value(trimmed(input@)) && p.epoch
                == DISCORD_EPOCH && p.input@ == trimmed(input@)),
            r matches Err(e) ==> e is ParseError,
    {
        Self::parse_with_epoch(input, DISCORD_EPOCH)
    }

    pub fn parse_with_epoch(input: &str, epoch: u64) -> (r: Result<ParsedSnowflake>)
        ensures
            r is Ok <==> u64_text_ok(trimmed(input@)),
            r matches Ok(p) ==> (p.id as nat == u64_text_value(trimmed(input@)) && p.epoch == epoch
                && p.input@ == trimmed(input@)),
            r matches Err(e) ==> e is ParseError,
    {
        let t = trimmed_chars(input);
        match parse_u64_decimal(&t) {
            Some(id) => Ok(ParsedSnowflake { id, epoch, input: string_of_chars(&t) }),
            None => Err(IdtError::ParseError("Invalid Snowflake ID".to_owned())),
        }
    }

    pub fn timestamp_ms(&self) -> (r: u64)
        ensures
            r as nat == snowflake_millis(self.id, self.epoch),
    {
        let t = (self.id / 0x40_0000) as u128 + self.epoch as u128;
        if t > u64::MAX as u128 {
            u64::MAX
        } else {
            t as u64
        }
    }

    pub fn datacenter_id(&self) -> (r: u16)
        ensures
            r as nat == (self.id as nat / 0x2_0000) % 32,
    {
        ((self.id / 0x2_0000) % 32) as u16
    }

    pub fn machine_id(&self) -> (r: u16)
        ensures
            r as nat == (self.id as nat / 0x1000) % 32,
    {
        ((self.id / 0x1000) % 32) as u16
    }

    pub fn sequence(&self) -> (r: u16)
        ensures
            r as nat == self.id as nat % 0x1000,
    {
        (self.id % 0x1000) as u16
    }

    pub fn kind(&self) -> (r: IdKind)
        ensures
            r == IdKind::Snowflake,
    {
        IdKind::Snowflake
    }

    pub fn canonical(&self) -> (r: String)
        ensures
            r@ == decimal_of(self.id as nat),
    {
        decimal_text(self.id as u128)
    }

    pub fn as_bytes(&self) -> (r: Vec<u8>)
        ensures
            r@ == be_bytes_spec(self.id as nat, 8),
    {
        be_bytes(self.id as u128, 8)
    }

    pub fn timestamp(&self) -> (r: Option<Timestamp>)
        ensures
            r matches Some(t) && t.millis as nat == snowflake_millis(self.id, self.epoch),
    {
        Some(Timestamp::new(self.timestamp_ms()))
    }

    /// Valid unless the embedded time is more than a day after `now_ms`.
    pub fn validate_at(&self, now_ms: u64) -> (r: ValidationResult)
        ensures
            r.valid == not_ahead(snowflake_millis(self.id, self.epoch), now_ms as nat, 86_400_000),
            r.valid ==> (r.id_type matches Some(t) && t@ == "snowflake"@),
            !r.valid ==> (r.error matches Some(t) && t@ == "Timestamp is in the future"@),
    {
        let ts = self.timestamp_ms();
        if now_ms <= u64::MAX - 86_400_000 && ts > now_ms + 86_400_000 {
            ValidationResult::invalid("Timestamp is in the future")
        } else {
            ValidationResult::valid("snowflake")
        }
    }

    pub fn validate(&self) -> (r: ValidationResult)
        ensures
            exists|now: u64| r.valid == #[trigger] not_ahead(snowflake_millis(self.id, self.epoch), now as nat, 86_400_000),
            r.valid ==> (r.id_type matches Some(t) && t@ == "snowflake"@),
            !r.valid ==> (r.error matches Some(t) && t@ == "Timestamp is in the future"@),
    {
        self.validate_at(current_timestamp_ms())
    }

    pub fn encode(&self, format: EncodingFormat) -> (r: String)
        ensures
            r@ == snowflake_encoded(self.id, format),
    {
        let bytes = self.as_bytes();
        match format {
            EncodingFormat::Hex => encode_hex(bytes.as_slice()),
            EncodingFormat::Base64 => encode_base64(bytes.as_slice()),
            EncodingFormat::Bits => encode_bits(bytes.as_slice()),
            _ => self.canonical(),
        }
    }

    pub fn inspect(&self) -> (r: InspectionResult)
        ensures
            r.id_type@ == "snowflake"@,
            r.canonical@ == decimal_of(self.id as nat),
            r.input == self.input,
            r.valid,
            r.timestamp matches Some(t) && t.millis as nat == snowflake_millis(self.id, self.epoch),
            r.random_bits is None,
            r.variant matches Some(v) && v@ == (if self.epoch == TWITTER_EPOCH {
                "Twitter"@
            } else if self.epoch == DISCORD_EPOCH {
                "Discord"@
            } else {
                "Custom"@
            }),
            r.encodings.hex@ == hex_text(be_bytes_spec(self.id as nat, 8), false),
            r.encodings.base32@.len() == 0,
            r.encodings.base58@.len() == 0,
            r.encodings.base64@ == crate::encoding::base64_of(be_bytes_spec(self.id as nat, 8)),
            r.encodings.int matches Some(t) && t@ == decimal_of(self.id as nat),
            r.timestamp is None ==> r.timestamp_iso is None,
            r.timestamp matches Some(t) ==> (r.timestamp_iso matches Some(x) && x@ == crate::id::iso_text(t.millis)),
    {
        let bytes = self.as_bytes();
        let ts = Timestamp::new(self.timestamp_ms());
        let mut components: Vec<(String, ComponentValue)> = Vec::new();
        components.push(("timestamp_ms".to_owned(), ComponentValue::Number(ts.millis as u128)));
        components.push(("datacenter_id".to_owned(), ComponentValue::Number(self.datacenter_id() as u128)));
        components.push(("machine_id".to_owned(), ComponentValue::Number(self.machine_id() as u128)));
        components.push(("sequence".to_owned(), ComponentValue::Number(self.sequence() as u128)));
        components.push(("epoch".to_owned(), ComponentValue::Number(self.epoch as u128)));
        let variant = if self.epoch == TWITTER_EPOCH {
            "Twitter".to_owned()
        } else if self.epoch == DISCORD_EPOCH {
            "Discord".to_owned()
        } else {
            "Custom".to_owned()
        };
        InspectionResult {
            id_type: "snowflake".to_owned(),
            input: self.input.clone(),
            canonical: self.canonical(),
            valid: true,
            timestamp: Some(ts),
            timestamp_iso: Some(ts.to_iso8601()),
            timestamp_local_iso: None,
            version: None,
            variant: Some(variant),
            random_bits: None,
            components: Some(components),
            encodings: IdEncodings {
                hex: encode_hex(bytes.as_slice()),
                base32: String::new(),
                base58: String::new(),
                base64: encode_base64(bytes.as_slice()),
                int: Some(self.canonical()),
            },
        }
    }
}

/// Whether a text looks like a Snowflake: 15 to 19 decimal digits that fit
/// in 64 bits.
pub open spec fn snowflake_shape(s: Seq<char>) -> bool {
    15 <= s.len() <= 19 && crate::text::all_digits(s) && u64_text_ok(s)
}

pub fn is_snowflake(input: &str) -> (r: bool)
    ensures
        r == snowflake_shape(trimmed(input@)),
{
    let t = trimmed_chars(input);
    if t.len() < 15 || t.len() > 19 {
        return false;
    }
    if !crate::text::all_digit_chars(&t) {
        return false;
    }
    parse_u64_decimal(&t).is_some()
}

/// The epoch that a name or number selects: `twitter` and `discord` (any
/// case) name the fixed epochs; anything else must be a decimal number of
/// milliseconds.
pub fn resolve_epoch(s: &str) -> (r: Result<u64>)
    ensures
        lower_of(s@) == "twitter"@ ==> r == Ok::<u64, IdtError>(TWITTER_EPOCH),
        lower_of(s@) != "twitter"@ && lower_of(s@) == "discord"@ ==> r == Ok::<u64, IdtError>(
            DISCORD_EPOCH,
        ),
        (lower_of(s@) != "twitter"@ && lower_of(s@) != "discord"@ && u64_text_ok(s@)) ==> (r matches Ok(v)
            && v as nat == u64_text_value(s@)),
        (lower_of(s@) != "twitter"@ && lower_of(s@) != "discord"@ && !u64_text_ok(s@)) ==> (r matches Err(e)
            && e is InvalidArgument),
{
    let low = to_lower(s);
    let t = chars_of(low.as_str());
    if same_text(&t, "twitter") {
        Ok(TWITTER_EPOCH)
    } else if same_text(&t, "discord") {
        Ok(DISCORD_EPOCH)
    } else {
        let cs = chars_of(s);
        match parse_u64_decimal(&cs) {
            Some(v) => Ok(v),
            None => {
                let mut m: Vec<char> = Vec::new();
                push_str(&mut m, "Invalid epoch: ");
                push_str(&mut m, s);
                Err(IdtError::InvalidArgument(string_of_chars(&m)))
            },
        }
    }
}

proof fn lemma_decimal_digits(n: nat)
    ensures
        decimal_of(n).len() > 0,
        all_digits(decimal_of(n)),
        value_of(decimal_digit_values(decimal_of(n)), 10) == n,
    decreases n,
{
    if n < 10 {
        let s = decimal_of(n);
        assert(decimal_digit_values(s) =~= seq![n]);
        assert(seq![n].drop_last() =~= Seq::<nat>::empty());
        assert(value_of(Seq::<nat>::empty(), 10) == 0);
        assert(value_of(seq![n], 10) == n);
    } else {
        lemma_decimal_digits(n / 10);
        let s = decimal_of(n);
        let p = decimal_of(n / 10);
        let c = ((48 + n % 10) as u8) as char;
        assert(s == p.push(c));
        assert(decimal_digit_values(s) =~= decimal_digit_values(p).push((n % 10) as nat));
        lemma_value_push(decimal_digit_values(p), (n % 10) as nat, 10);
        assert((n / 10) * 10 + n % 10 == n);
        assert forall|i: int| 0 <= i < s.len() implies #[trigger] is_digit(s[i]) by {
            if i < p.len() {
                assert(s[i] == p[i]);
            }
        }
    }
}

/// Every 64-bit value comes back from its decimal rendering.
pub proof fn lemma_snowflake_round_trip(v: u64)
    ensures
        u64_text_ok(decimal_of(v as nat)),
        u64_text_value(decimal_of(v as nat)) == v,
{
    lemma_decimal_digits(v as nat);
    let s = decimal_of(v as nat);
    assert(is_digit(s[0]));
    assert(unsigned_digits(s) == s);
}

} // verus!
