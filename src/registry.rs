use crate::cuid2_id::{cuid2_shape, Cuid2Generator, ParsedCuid2};
use crate::cuid_id::{cuid_shape, CuidGenerator, ParsedCuid};
use crate::detection::{candidates, detect_id_type, ranked, DetectionResult};
use crate::digits::digits_of;
use crate::encoding::{be_bytes_spec, decimal_of, hex_bytes, hex_text, EncodingFormat};
use crate::error::{IdtError, Result};
use crate::id::{InspectionResult, Timestamp, ValidationResult};
use crate::kind::IdKind;
use crate::ksuid_id::{base62_symbol, ksuid_decodes, ksuid_value, KsuidGenerator, ParsedKsuid};
use crate::nanoid_id::{NanoIdGenerator, ParsedNanoId};
use crate::objectid_id::{objectid_decodes, ObjectIdGenerator, ParsedObjectId};
use crate::snowflake_id::{u64_text_ok, u64_text_value, ParsedSnowflake, SnowflakeGenerator};
use crate::text::trimmed;
use crate::tsid_id::{tsid_decodes, tsid_text, tsid_value, ParsedTsid, TsidGenerator};
use crate::typeid_id::{suffix_value, typeid_parses, typeid_prefix, typeid_suffix, typeid_text, ParsedTypeId, TypeIdGenerator};
use crate::ulid_id::{ulid_decodes, ulid_text, ulid_value, ParsedUlid, UlidGenerator};
use crate::uuid_id::{uuid_bytes_of, uuid_text, ParsedUuid, UuidGenerator};
use crate::xid_id::{xid_decoded, xid_decodes, xid_text, ParsedXid, XidGenerator};
use vstd::prelude::*;

verus! {

/// Whether the codec for `k` accepts the (trimmed) text.
pub open spec fn accepts(k: IdKind, t: Seq<char>) -> bool {
    match k {
        IdKind::Ulid => ulid_decodes(t),
        IdKind::NanoId => t.len() > 0,
        IdKind::Snowflake => u64_text_ok(t),
        IdKind::ObjectId => objectid_decodes(t),
        IdKind::Ksuid => ksuid_decodes(t),
        IdKind::Xid => xid_decodes(t),
        IdKind::Tsid => tsid_decodes(t),
        IdKind::Cuid => cuid_shape(t),
        IdKind::Cuid2 => cuid2_shape(t),
        IdKind::TypeId => typeid_parses(t),
        _ => uuid_bytes_of(t) is Some,
    }
}

/// The canonical text that the codec for `k` gives an accepted text.
pub open spec fn canonical_text(k: IdKind, t: Seq<char>) -> Seq<char> {
    match k {
        IdKind::Ulid => ulid_text(ulid_value(t)),
        IdKind::NanoId => t,
        IdKind::Snowflake => decimal_of(u64_text_value(t)),
        IdKind::ObjectId => hex_text(hex_bytes(t), false),
        IdKind::Ksuid => digits_of(ksuid_value(t), 62, 27).map_values(|d: nat| base62_symbol(d)),
        IdKind::Xid => xid_text(xid_decoded(t)),
        IdKind::Tsid => tsid_text(tsid_value(t)),
        IdKind::Cuid => t,
        IdKind::Cuid2 => t,
        IdKind::TypeId => typeid_text(typeid_prefix(t), suffix_value(typeid_suffix(t))),
        _ => match uuid_bytes_of(t) {
            Some(b) => uuid_text(b),
            None => Seq::empty(),
        },
    }
}

/// `p` is exactly what the codec for `k` makes of the trimmed text `t`.
pub open spec fn parsed_as(p: ParsedIdentifier, k: IdKind, t: Seq<char>) -> bool {
    match k {
        IdKind::Ulid => (p matches ParsedIdentifier::Ulid(q) && q.value as nat == ulid_value(t) && q.input@ == t),
        IdKind::NanoId => (p matches ParsedIdentifier::NanoId(q) && q.value@ == t && q.input@ == t),
        IdKind::Snowflake => (p matches ParsedIdentifier::Snowflake(q) && q.id as nat == u64_text_value(t)
            && q.epoch == crate::snowflake_id::DEFAULT_EPOCH && q.input@ == t),
        IdKind::ObjectId => (p matches ParsedIdentifier::ObjectId(q) && q.bytes@ == hex_bytes(t) && q.input@ == t),
        IdKind::Ksuid => (p matches ParsedIdentifier::Ksuid(q) && q.bytes@.len() == 20 && crate::encoding::be_value(
            q.bytes@,
        ) == ksuid_value(t) && q.input@ == t),
        IdKind::Xid => (p matches ParsedIdentifier::Xid(q) && q.bytes@ == xid_decoded(t) && q.input@ == t),
        IdKind::Tsid => (p matches ParsedIdentifier::Tsid(q) && q.value as nat == tsid_value(t) && q.input@ == t),
        IdKind::Cuid => (p matches ParsedIdentifier::Cuid(q) && q.value@ == t && q.input@ == t),
        IdKind::Cuid2 => (p matches ParsedIdentifier::Cuid2(q) && q.value@ == t && q.input@ == t),
        IdKind::TypeId => (p matches ParsedIdentifier::TypeId(q) && q.prefix@ == typeid_prefix(t) && q.value as nat
            == suffix_value(typeid_suffix(t)) && q.input@ == t),
        _ => (p matches ParsedIdentifier::Uuid(q) && uuid_bytes_of(t) == Some(q.bytes@) && q.input@ == t),
    }
}

/// A parsed identifier of any format.
#[derive(Debug)]
pub enum ParsedIdentifier {
    Uuid(ParsedUuid),
    Ulid(ParsedUlid),
    NanoId(ParsedNanoId),
    Snowflake(ParsedSnowflake),
    ObjectId(ParsedObjectId),
    Ksuid(ParsedKsuid),
    Xid(ParsedXid),
    Tsid(ParsedTsid),
    Cuid(ParsedCuid),
    Cuid2(ParsedCuid2),
    TypeId(ParsedTypeId),
}

impl ParsedIdentifier {
    /// The byte and text lengths that parsing guarantees.
    pub open spec fn wf(&self) -> bool {
        match self {
            ParsedIdentifier::ObjectId(p) => p.bytes@.len() == 12,
            ParsedIdentifier::Ksuid(p) => p.bytes@.len() == 20,
            ParsedIdentifier::Cuid(p) => p.value@.len() == 25,
            _ => true,
        }
    }

    /// The canonical text of the identifier.
    pub open spec fn canonical_view(&self) -> Seq<char> {
        match self {
            ParsedIdentifier::Uuid(p) => uuid_text(p.bytes@),
            ParsedIdentifier::Ulid(p) => ulid_text(p.value as nat),
            ParsedIdentifier::NanoId(p) => p.value@,
            ParsedIdentifier::Snowflake(p) => decimal_of(p.id as nat),
            ParsedIdentifier::ObjectId(p) => hex_text(p.bytes@, false),
            ParsedIdentifier::Ksuid(p) => crate::ksuid_id::ksuid_text(p.bytes@),
            ParsedIdentifier::Xid(p) => xid_text(p.bytes@),
            ParsedIdentifier::Tsid(p) => tsid_text(p.value as nat),
            ParsedIdentifier::Cuid(p) => p.value@,
            ParsedIdentifier::Cuid2(p) => p.value@,
            ParsedIdentifier::TypeId(p) => typeid_text(p.prefix@, p.value as nat),
        }
    }

    /// The kind of the identifier.
    pub open spec fn kind_view(&self) -> IdKind {
        match self {
            ParsedIdentifier::Uuid(p) => crate::uuid_id::version_kind(crate::uuid_id::uuid_version(p.bytes@)),
            ParsedIdentifier::Ulid(_) => IdKind::Ulid,
            ParsedIdentifier::NanoId(_) => IdKind::NanoId,
            ParsedIdentifier::Snowflake(_) => IdKind::Snowflake,
            ParsedIdentifier::ObjectId(_) => IdKind::ObjectId,
            ParsedIdentifier::Ksuid(_) => IdKind::Ksuid,
            ParsedIdentifier::Xid(_) => IdKind::Xid,
            ParsedIdentifier::Tsid(_) => IdKind::Tsid,
            ParsedIdentifier::Cuid(_) => IdKind::Cuid,
            ParsedIdentifier::Cuid2(_) => IdKind::Cuid2,
            ParsedIdentifier::TypeId(_) => IdKind::TypeId,
        }
    }

    /// The raw bytes of the identifier.
    pub open spec fn bytes_view(&self) -> Seq<u8> {
        match self {
            ParsedIdentifier::Uuid(p) => p.bytes@,
            ParsedIdentifier::Ulid(p) => be_bytes_spec(p.value as nat, 16),
            ParsedIdentifier::NanoId(p) => vstd::utf8::encode_utf8(p.value@),
            ParsedIdentifier::Snowflake(p) => be_bytes_spec(p.id as nat, 8),
            ParsedIdentifier::ObjectId(p) => p.bytes@,
            ParsedIdentifier::Ksuid(p) => p.bytes@,
            ParsedIdentifier::Xid(p) => p.bytes@,
            ParsedIdentifier::Tsid(p) => be_bytes_spec(p.value as nat, 8),
            ParsedIdentifier::Cuid(p) => vstd::utf8::encode_utf8(p.value@),
            ParsedIdentifier::Cuid2(p) => vstd::utf8::encode_utf8(p.value@),
            ParsedIdentifier::TypeId(p) => be_bytes_spec(p.value as nat, 16),
        }
    }

    /// The embedded time in milliseconds since the Unix epoch, if any.
    pub open spec fn timestamp_view(&self) -> Option<nat> {
        match self {
            ParsedIdentifier::Uuid(p) => crate::uuid_id::uuid_timestamp(p.bytes@),
            ParsedIdentifier::Ulid(p) => Some(p.value as nat / 0x1_0000_0000_0000_0000_0000),
            ParsedIdentifier::NanoId(_) => None,
            ParsedIdentifier::Snowflake(p) => Some(crate::snowflake_id::snowflake_millis(p.id, p.epoch)),
            ParsedIdentifier::ObjectId(p) => Some(((crate::objectid_id::oid_seconds(p.bytes@) * 1000) as u64) as nat),
            ParsedIdentifier::Ksuid(p) => Some(
                (((crate::ksuid_id::ksuid_offset(p.bytes@) + crate::ksuid_id::KSUID_EPOCH) * 1000) as u64) as nat,
            ),
            ParsedIdentifier::Xid(p) => Some(((crate::xid_id::seconds_of(p.bytes@) * 1000) as u64) as nat),
            ParsedIdentifier::Tsid(p) => Some(p.value as nat / 0x40_0000),
            ParsedIdentifier::Cuid(p) => {
                let t = p.value@.subrange(1, 9);
                let v = crate::digits::value_of(crate::cuid_id::base36_digits(t), 36);
                if crate::text::all_lower_or_digit(t) && v < 0x1_0000_0000_0000_0000 {
                    Some(v)
                } else {
                    None
                }
            },
            ParsedIdentifier::Cuid2(_) => None,
            ParsedIdentifier::TypeId(p) => if crate::typeid_id::embedded_version(p.value as nat) == 7 {
                Some(p.value as nat / 0x1_0000_0000_0000_0000_0000)
            } else {
                None
            },
        }
    }

    pub fn kind(&self) -> (r: IdKind)
        ensures
            r == self.kind_view(),
    {
        match self {
            ParsedIdentifier::Uuid(p) => p.kind(),
            ParsedIdentifier::Ulid(p) => p.kind(),
            ParsedIdentifier::NanoId(p) => p.kind(),
            ParsedIdentifier::Snowflake(p) => p.kind(),
            ParsedIdentifier::ObjectId(p) => p.kind(),
            ParsedIdentifier::Ksuid(p) => p.kind(),
            ParsedIdentifier::Xid(p) => p.kind(),
            ParsedIdentifier::Tsid(p) => p.kind(),
            ParsedIdentifier::Cuid(p) => p.kind(),
            ParsedIdentifier::Cuid2(p) => p.kind(),
            ParsedIdentifier::TypeId(p) => p.kind(),
        }
    }

    pub fn canonical(&self) -> (r: String)
        requires
            self.wf(),
        ensures
            r@ == self.canonical_view(),
    {
        match self {
            ParsedIdentifier::Uuid(p) => p.canonical(),
            ParsedIdentifier::Ulid(p) => p.canonical(),
            ParsedIdentifier::NanoId(p) => p.canonical(),
            ParsedIdentifier::Snowflake(p) => p.canonical(),
            ParsedIdentifier::ObjectId(p) => p.canonical(),
            ParsedIdentifier::Ksuid(p) => p.canonical(),
            ParsedIdentifier::Xid(p) => p.canonical(),
            ParsedIdentifier::Tsid(p) => p.canonical(),
            ParsedIdentifier::Cuid(p) => p.canonical(),
            ParsedIdentifier::Cuid2(p) => p.canonical(),
            ParsedIdentifier::TypeId(p) => p.canonical(),
        }
    }

    pub fn as_bytes(&self) -> (r: Vec<u8>)
        ensures
            r@ == self.bytes_view(),
    {
        match self {
            ParsedIdentifier::Uuid(p) => p.as_bytes(),
            ParsedIdentifier::Ulid(p) => p.as_bytes(),
            ParsedIdentifier::NanoId(p) => p.as_bytes(),
            ParsedIdentifier::Snowflake(p) => p.as_bytes(),
            ParsedIdentifier::ObjectId(p) => p.as_bytes(),
            ParsedIdentifier::Ksuid(p) => p.as_bytes(),
            ParsedIdentifier::Xid(p) => p.as_bytes(),
            ParsedIdentifier::Tsid(p) => p.as_bytes(),
            ParsedIdentifier::Cuid(p) => p.as_bytes(),
            ParsedIdentifier::Cuid2(p) => p.as_bytes(),
            ParsedIdentifier::TypeId(p) => p.as_bytes(),
        }
    }

    pub fn timestamp(&self) -> (r: Option<Timestamp>)
        requires
            self.wf(),
        ensures
            r is None <==> self.timestamp_view() is None,
            r matches Some(t) ==> self.timestamp_view() == Some(t.millis as nat),
    {
        match self {
            ParsedIdentifier::Uuid(p) => p.timestamp(),
            ParsedIdentifier::Ulid(p) => p.timestamp(),
            ParsedIdentifier::NanoId(p) => p.timestamp(),
            ParsedIdentifier::Snowflake(p) => p.timestamp(),
            ParsedIdentifier::ObjectId(p) => p.timestamp(),
            ParsedIdentifier::Ksuid(p) => p.timestamp(),
            ParsedIdentifier::Xid(p) => p.timestamp(),
            ParsedIdentifier::Tsid(p) => p.timestamp(),
            ParsedIdentifier::Cuid(p) => p.timestamp(),
            ParsedIdentifier::Cuid2(p) => p.timestamp(),
            ParsedIdentifier::TypeId(p) => p.timestamp(),
        }
    }

    /// Formats without a clock check are always valid; the others are valid
    /// unless their time lies more than a day ahead of the clock.
    pub fn validate(&self) -> (r: ValidationResult)
        requires
            self.wf(),
        ensures
            !(self is ObjectId || self is Snowflake || self is Xid || self is Tsid) ==> r.valid,
            !r.valid ==> (r.error matches Some(t) && t@ == "Timestamp is in the future"@),
    {
        match self {
            ParsedIdentifier::Uuid(p) => p.validate(),
            ParsedIdentifier::Ulid(p) => p.validate(),
            ParsedIdentifier::NanoId(p) => p.validate(),
            ParsedIdentifier::Snowflake(p) => p.validate(),
            ParsedIdentifier::ObjectId(p) => p.validate(),
            ParsedIdentifier::Ksuid(p) => p.validate(),
            ParsedIdentifier::Xid(p) => p.validate(),
            ParsedIdentifier::Tsid(p) => p.validate(),
            ParsedIdentifier::Cuid(p) => p.validate(),
            ParsedIdentifier::Cuid2(p) => p.validate(),
            ParsedIdentifier::TypeId(p) => p.validate(),
        }
    }

    /// What the identifier renders as in a format.
    pub open spec fn encoded_view(&self, f: EncodingFormat) -> Seq<char> {
        match self {
            ParsedIdentifier::Uuid(p) => crate::uuid_id::uuid_encoded(p.bytes@, f),
            ParsedIdentifier::Ulid(p) => crate::ulid_id::ulid_encoded(p.value, f),
            ParsedIdentifier::NanoId(p) => crate::cuid_id::text_encoded(p.value@, f),
            ParsedIdentifier::Snowflake(p) => crate::snowflake_id::snowflake_encoded(p.id, f),
            ParsedIdentifier::ObjectId(p) => crate::objectid_id::objectid_encoded(p.bytes@, f),
            ParsedIdentifier::Ksuid(p) => crate::ksuid_id::ksuid_encoded(p.bytes@, f),
            ParsedIdentifier::Xid(p) => crate::xid_id::xid_encoded(p.bytes@, f),
            ParsedIdentifier::Tsid(p) => crate::tsid_id::tsid_encoded(p.value, f),
            ParsedIdentifier::Cuid(p) => crate::cuid_id::text_encoded(p.value@, f),
            ParsedIdentifier::Cuid2(p) => crate::cuid_id::text_encoded(p.value@, f),
            ParsedIdentifier::TypeId(p) => crate::typeid_id::typeid_encoded(p.prefix@, p.value, f),
        }
    }

    pub fn encode(&self, format: EncodingFormat) -> (r: String)
        requires
            self.wf(),
        ensures
            r@ == self.encoded_view(format),
            format == EncodingFormat::Canonical ==> r@ == self.canonical_view(),
    {
        match self {
            ParsedIdentifier::Uuid(p) => p.encode(format),
            ParsedIdentifier::Ulid(p) => p.encode(format),
            ParsedIdentifier::NanoId(p) => p.encode(format),
            ParsedIdentifier::Snowflake(p) => p.encode(format),
            ParsedIdentifier::ObjectId(p) => p.encode(format),
            ParsedIdentifier::Ksuid(p) => p.encode(format),
            ParsedIdentifier::Xid(p) => p.encode(format),
            ParsedIdentifier::Tsid(p) => p.encode(format),
            ParsedIdentifier::Cuid(p) => p.encode(format),
            ParsedIdentifier::Cuid2(p) => p.encode(format),
            ParsedIdentifier::TypeId(p) => p.encode(format),
        }
    }

    pub fn inspect(&self) -> (r: InspectionResult)
        requires
            self.wf(),
        ensures
            r.canonical@ == self.canonical_view(),
            r.valid,
            r.timestamp is None <==> self.timestamp_view() is None,
            r.timestamp matches Some(t) ==> self.timestamp_view() == Some(t.millis as nat),
            r.encodings.hex@ == hex_text(self.bytes_view(), false),
            r.encodings.base64@ == crate::encoding::base64_of(self.bytes_view()),
            r.timestamp is None ==> r.timestamp_iso is None,
            r.timestamp matches Some(t) ==> (r.timestamp_iso matches Some(x) && x@ == crate::id::iso_text(t.millis)),
    {
        match self {
            ParsedIdentifier::Uuid(p) => p.inspect(),
            ParsedIdentifier::Ulid(p) => p.inspect(),
            ParsedIdentifier::NanoId(p) => p.inspect(),
            ParsedIdentifier::Snowflake(p) => p.inspect(),
            ParsedIdentifier::ObjectId(p) => p.inspect(),
            ParsedIdentifier::Ksuid(p) => p.inspect(),
            ParsedIdentifier::Xid(p) => p.inspect(),
            ParsedIdentifier::Tsid(p) => p.inspect(),
            ParsedIdentifier::Cuid(p) => p.inspect(),
            ParsedIdentifier::Cuid2(p) => p.inspect(),
            ParsedIdentifier::TypeId(p) => p.inspect(),
        }
    }
}

/// Parses with the codec of one kind (every UUID kind uses the UUID codec).
pub fn parse_as_type(input: &str, kind: IdKind) -> (r: Result<ParsedIdentifier>)
    ensures
        r is Ok <==> accepts(kind, trimmed(input@)),
        r matches Ok(p) ==> (p.wf() && p.canonical_view() == canonical_text(kind, trimmed(input@))),
        r matches Ok(p) ==> parsed_as(p, kind, trimmed(input@)),
        r matches Err(e) ==> e is ParseError,
{
    match kind {
        IdKind::Ulid => Ok(ParsedIdentifier::Ulid(ParsedUlid::parse(input)?)),
        IdKind::NanoId => Ok(ParsedIdentifier::NanoId(ParsedNanoId::parse(input)?)),
        IdKind::Snowflake => Ok(ParsedIdentifier::Snowflake(ParsedSnowflake::parse(input)?)),
        IdKind::ObjectId => {
            let p = ParsedObjectId::parse(input)?;
            Ok(ParsedIdentifier::ObjectId(p))
        },
        IdKind::Ksuid => {
            let p = ParsedKsuid::parse(input)?;
            Ok(ParsedIdentifier::Ksuid(p))
        },
        IdKind::Xid => Ok(ParsedIdentifier::Xid(ParsedXid::parse(input)?)),
        IdKind::Tsid => Ok(ParsedIdentifier::Tsid(ParsedTsid::parse(input)?)),
        IdKind::Cuid => Ok(ParsedIdentifier::Cuid(ParsedCuid::parse(input)?)),
        IdKind::Cuid2 => Ok(ParsedIdentifier::Cuid2(ParsedCuid2::parse(input)?)),
        IdKind::TypeId => Ok(ParsedIdentifier::TypeId(ParsedTypeId::parse(input)?)),
        _ => Ok(ParsedIdentifier::Uuid(ParsedUuid::parse(input)?)),
    }
}

/// The kind of the first candidate whose codec accepts the text.
pub open spec fn first_accepted(c: Seq<DetectionResult>, t: Seq<char>) -> Option<IdKind>
    decreases c.len(),
{
    if c.len() == 0 {
        None
    } else if accepts(c[0].kind, t) {
        Some(c[0].kind)
    } else {
        first_accepted(c.subrange(1, c.len() as int), t)
    }
}

proof fn lemma_ranked_empty(c: Seq<DetectionResult>)
    requires
        c.len() == 0,
    ensures
        ranked(c).len() == 0,
{
    reveal_with_fuel(crate::detection::ranked_upto, 10);
    assert(crate::detection::at_level(c, 100).len() == 0);
    assert forall|l: u8| #[trigger] crate::detection::at_level(c, l).len() == 0 by {}
}

/// Parses an identifier: with a hint, by that codec alone (its error passes
/// through); without, by the first ranked detection candidate whose codec
/// accepts the text, else `DetectionFailed`.
pub fn parse_id(input: &str, hint: Option<IdKind>) -> (r: Result<ParsedIdentifier>)
    ensures
        hint is Some ==> (r is Ok <==> accepts(hint->0, trimmed(input@))),
        hint is Some ==> (r matches Ok(p) ==> (p.wf() && p.canonical_view() == canonical_text(
            hint->0,
            trimmed(input@),
        ))),
        hint is Some ==> (r matches Err(e) ==> e is ParseError),
        hint is Some ==> (r matches Ok(p) ==> parsed_as(p, hint->0, trimmed(input@))),
        hint is None ==> (r matches Ok(p) ==> (first_accepted(ranked(candidates(trimmed(input@))), trimmed(input@))
            matches Some(k) && parsed_as(p, k, trimmed(input@)))),
        hint is None ==> (r is Ok <==> first_accepted(ranked(candidates(trimmed(input@))), trimmed(input@)) is Some),
        hint is None ==> (r matches Ok(p) ==> (p.wf() && (first_accepted(
            ranked(candidates(trimmed(input@))),
            trimmed(input@),
        ) matches Some(k) && p.canonical_view() == canonical_text(k, trimmed(input@))))),
        hint is None ==> (r matches Err(e) ==> e is DetectionFailed),
{
    match hint {
        Some(kind) => parse_as_type(input, kind),
        None => {
            let detections = match detect_id_type(input) {
                Ok(v) => v,
                Err(e) => {
                    proof {
                        lemma_ranked_empty(candidates(trimmed(input@)));
                    }
                    return Err(e);
                },
            };
            let ghost c = detections@;
            let mut i: usize = 0;
            assert(c.subrange(0, c.len() as int) =~= c);
            while i < detections.len()
                invariant
                    hint is None,
                    c == detections@,
                    c == ranked(candidates(trimmed(input@))),
                    i <= c.len(),
                    first_accepted(c, trimmed(input@)) == first_accepted(c.subrange(i as int, c.len() as int), trimmed(input@)),
                decreases c.len() - i,
            {
                let ghost rest = c.subrange(i as int, c.len() as int);
                assert(rest.subrange(1, rest.len() as int) =~= c.subrange(i + 1, c.len() as int));
                match parse_as_type(input, detections[i].kind) {
                    Ok(p) => {
                        return Ok(p);
                    },
                    Err(_) => {},
                }
                i = i + 1;
            }
            assert(c.subrange(c.len() as int, c.len() as int).len() == 0);
            Err(IdtError::DetectionFailed)
        },
    }
}

/// A generator of any format.
#[derive(Debug)]
pub enum Generator {
    Uuid(UuidGenerator),
    Ulid(UlidGenerator),
    NanoId(NanoIdGenerator),
    Snowflake(SnowflakeGenerator),
    ObjectId(ObjectIdGenerator),
    Ksuid(KsuidGenerator),
    Xid(XidGenerator),
    Tsid(TsidGenerator),
    Cuid(CuidGenerator),
    Cuid2(Cuid2Generator),
    TypeId(TypeIdGenerator),
}

/// Kinds without a generator: the name-based UUID versions.
pub open spec fn has_generator(k: IdKind) -> bool {
    k != IdKind::UuidV3 && k != IdKind::UuidV5
}

/// Whether a generator succeeds whatever the clock and randomness give:
/// all but a UUID generator of an unsupported version, a NanoID generator
/// with unusable settings, and a Snowflake generator (its clock may read
/// before the epoch).
pub open spec fn always_succeeds(g: Generator) -> bool {
    match g {
        Generator::Uuid(u) => u.version == 0 || u.version == 1 || u.version == 3 || u.version == 4
            || u.version == 5 || u.version == 6 || u.version == 7 || u.version == 255,
        Generator::NanoId(n) => crate::nanoid_id::generation_ok(n.alphabet@, n.length as nat),
        Generator::Snowflake(_) => false,
        _ => true,
    }
}

/// A text that a generator in state `g` may produce.
pub open spec fn produced(g: Generator, s: Seq<char>) -> bool {
    match g {
        Generator::Uuid(u) => exists|b: Seq<u8>|
            crate::uuid_id::uuid_generated(u.version, u.hash_inputs().0, u.hash_inputs().1, b) && s == uuid_text(b),
        Generator::Ulid(_) => exists|v: u128| s == ulid_text(v as nat),
        Generator::NanoId(n) => crate::nanoid_id::generation_ok(n.alphabet@, n.length as nat) && s.len()
            == n.length && forall|i: int| 0 <= i < s.len() ==> n.alphabet@.contains(#[trigger] s[i]),
        Generator::Snowflake(g) => exists|now: u64, id: u64, next: SnowflakeGenerator|
            crate::snowflake_id::snowflake_step(g, now, next, id) && s == decimal_of(id as nat),
        Generator::ObjectId(o) => exists|t: nat|
            s == hex_text(crate::objectid_id::objectid_layout(t, o.process_random@, o.counter as nat), false),
        Generator::Ksuid(_) => exists|t: nat, p: Seq<u8>|
            p.len() == 16 && s == crate::ksuid_id::ksuid_text(crate::ksuid_id::ksuid_layout(t, p)),
        Generator::Xid(x) => exists|t: nat|
            s == xid_text(crate::xid_id::xid_layout(t, x.machine_id@, x.process_id, x.counter as nat)),
        Generator::Tsid(_) => exists|t: nat, x: nat| s == tsid_text(crate::tsid_id::tsid_compose(t, x)),
        Generator::Cuid(c) => exists|t: nat, x: nat|
            s == crate::cuid_id::cuid_text(t, c.counter as nat, c.process_id as nat, x),
        Generator::Cuid2(c) => s.len() == c.length && crate::text::all_lower_or_digit(s) && (c.length > 0
            ==> cuid2_shape(s)),
        Generator::TypeId(t) => exists|b: Seq<u8>|
            b.len() == 16 && b[6] / 16 == 7 && s == typeid_text(t.prefix@, crate::encoding::be_value(b)),
    }
}

/// The settings that generation leaves alone.
pub open spec fn same_settings(a: Generator, b: Generator) -> bool {
    match (a, b) {
        (Generator::Uuid(x), Generator::Uuid(y)) => x == y,
        (Generator::Ulid(_), Generator::Ulid(_)) => true,
        (Generator::NanoId(x), Generator::NanoId(y)) => x == y,
        (Generator::Snowflake(x), Generator::Snowflake(y)) => x.epoch == y.epoch && x.machine_id
            == y.machine_id && x.datacenter_id == y.datacenter_id,
        (Generator::ObjectId(x), Generator::ObjectId(y)) => x.process_random == y.process_random,
        (Generator::Ksuid(_), Generator::Ksuid(_)) => true,
        (Generator::Xid(x), Generator::Xid(y)) => x.machine_id == y.machine_id && x.process_id == y.process_id,
        (Generator::Tsid(_), Generator::Tsid(_)) => true,
        (Generator::Cuid(x), Generator::Cuid(y)) => x.process_id == y.process_id,
        (Generator::Cuid2(x), Generator::Cuid2(y)) => x.length == y.length && x.process_id == y.process_id,
        (Generator::TypeId(x), Generator::TypeId(y)) => x.prefix == y.prefix,
        _ => false,
    }
}

proof fn lemma_settings_keep_success(a: Generator, b: Generator)
    requires
        same_settings(a, b),
    ensures
        always_succeeds(a) ==> always_succeeds(b),
{
    match (a, b) {
        (Generator::Uuid(x), Generator::Uuid(y)) => {},
        (Generator::NanoId(x), Generator::NanoId(y)) => {},
        _ => {},
    }
}

impl Generator {
    /// One fresh identifier from the wrapped generator.
    pub fn generate(&mut self) -> (r: Result<String>)
        ensures
            always_succeeds(*old(self)) ==> r is Ok,
            r matches Ok(s) ==> produced(*old(self), s@),
            same_settings(*old(self), *final(self)),
    {
        match self {
            Generator::Uuid(g) => g.generate(),
            Generator::Ulid(g) => g.generate(),
            Generator::NanoId(g) => g.generate(),
            Generator::Snowflake(g) => g.generate(),
            Generator::ObjectId(g) => g.generate(),
            Generator::Ksuid(g) => g.generate(),
            Generator::Xid(g) => g.generate(),
            Generator::Tsid(g) => g.generate(),
            Generator::Cuid(g) => g.generate(),
            Generator::Cuid2(g) => g.generate(),
            Generator::TypeId(g) => g.generate(),
        }
    }

    /// `count` identifiers, stopping at the first failure; never failing for
    /// a generator that always succeeds.
    pub fn generate_many(&mut self, count: usize) -> (r: Result<Vec<String>>)
        ensures
            always_succeeds(*old(self)) ==> r is Ok,
            r matches Ok(v) ==> v@.len() == count,
    {
        let ghost start = *self;
        let mut out: Vec<String> = Vec::new();
        let mut i: usize = 0;
        while i < count
            invariant
                i <= count,
                out@.len() == i,
                start == *old(self),
                always_succeeds(start) ==> always_succeeds(*self),
            decreases count - i,
        {
            let ghost before = *self;
            let s = Generator::generate(self)?;
            proof {
                lemma_settings_keep_success(before, *self);
            }
            out.push(s);
            i = i + 1;
        }
        Ok(out)
    }
}

/// Minting identifiers of one format.
pub trait IdGenerator {
    fn generate(&mut self) -> Result<String>;
}

impl IdGenerator for Generator {
    fn generate(&mut self) -> (r: Result<String>) {
        Generator::generate(self)
    }
}

/// The generator that `create_generator` gives for a kind.
pub open spec fn generator_fits(kind: IdKind, g: Generator) -> bool {
    match g {
        Generator::Uuid(u) => u.namespace is None && u.name is None && match kind {
            IdKind::Uuid => u.version == 4,
            IdKind::UuidV4 => u.version == 4,
            IdKind::UuidV1 => u.version == 1,
            IdKind::UuidV6 => u.version == 6,
            IdKind::UuidV7 => u.version == 7,
            IdKind::UuidNil => u.version == 0,
            IdKind::UuidMax => u.version == 255,
            _ => false,
        },
        Generator::Ulid(_) => kind == IdKind::Ulid,
        Generator::NanoId(n) => kind == IdKind::NanoId && n.length == crate::nanoid_id::DEFAULT_LENGTH
            && n.alphabet@ == crate::nanoid_id::default_alphabet(),
        Generator::Snowflake(_) => kind == IdKind::Snowflake,
        Generator::ObjectId(_) => kind == IdKind::ObjectId,
        Generator::Ksuid(_) => kind == IdKind::Ksuid,
        Generator::Xid(_) => kind == IdKind::Xid,
        Generator::Tsid(_) => kind == IdKind::Tsid,
        Generator::Cuid(_) => kind == IdKind::Cuid,
        Generator::Cuid2(c) => kind == IdKind::Cuid2 && c.length == crate::cuid2_id::DEFAULT_LENGTH,
        Generator::TypeId(t) => kind == IdKind::TypeId && t.prefix@.len() == 0,
    }
}

/// Every text that a generator made by `create_generator` may produce is
/// accepted by the codec of its kind and is its own canonical form.
#[verifier::rlimit(100)]
pub proof fn lemma_generated_accepted(kind: IdKind, g: Generator, s: Seq<char>)
    requires
        generator_fits(kind, g),
        produced(g, s),
    ensures
        accepts(kind, s),
        canonical_text(kind, s) == s,
{
    match g {
        Generator::Uuid(u) => {
            let b = choose|b: Seq<u8>|
                crate::uuid_id::uuid_generated(u.version, u.hash_inputs().0, u.hash_inputs().1, b) && s
                    == uuid_text(b);
            crate::uuid_id::lemma_uuid_round_trip(b);
        },
        Generator::Ulid(_) => {
            let v = choose|v: u128| s == ulid_text(v as nat);
            crate::ulid_id::lemma_ulid_round_trip(v);
        },
        Generator::NanoId(_) => {},
        Generator::Snowflake(sg) => {
            let (now, id, next) = choose|now: u64, id: u64, next: SnowflakeGenerator|
                crate::snowflake_id::snowflake_step(sg, now, next, id) && s == decimal_of(id as nat);
            crate::snowflake_id::lemma_snowflake_round_trip(id);
        },
        Generator::ObjectId(o) => {
            let t = choose|t: nat|
                s == hex_text(crate::objectid_id::objectid_layout(t, o.process_random@, o.counter as nat), false);
            let l = crate::objectid_id::objectid_layout(t, o.process_random@, o.counter as nat);
            crate::encoding::lemma_hex_round_trip(l);
            crate::encoding::lemma_hex_text_index(l);
        },
        Generator::Ksuid(_) => {
            let (t, p) = choose|t: nat, p: Seq<u8>|
                p.len() == 16 && s == crate::ksuid_id::ksuid_text(crate::ksuid_id::ksuid_layout(t, p));
            crate::ksuid_id::lemma_ksuid_round_trip(crate::ksuid_id::ksuid_layout(t, p));
        },
        Generator::Xid(x) => {
            let t = choose|t: nat|
                s == xid_text(crate::xid_id::xid_layout(t, x.machine_id@, x.process_id, x.counter as nat));
            crate::xid_id::lemma_xid_round_trip(crate::xid_id::xid_layout(t, x.machine_id@, x.process_id, x.counter as nat));
        },
        Generator::Tsid(_) => {
            let (t, x) = choose|t: nat, x: nat| s == tsid_text(crate::tsid_id::tsid_compose(t, x));
            let c = crate::tsid_id::tsid_compose(t, x);
            let hi = t % 0x400_0000_0000;
            let lo = x % 0x40_0000;
            assert(hi * 0x40_0000 + lo < 0x1_0000_0000_0000_0000) by (nonlinear_arith)
                requires
                    hi < 0x400_0000_0000,
                    lo < 0x40_0000,
            ;
            crate::tsid_id::lemma_tsid_round_trip(c as u64);
        },
        Generator::Cuid(c) => {
            let (t, x) = choose|t: nat, x: nat| s == crate::cuid_id::cuid_text(t, c.counter as nat, c.process_id as nat, x);
            crate::cuid_id::lemma_cuid_text_shape(t, c.counter as nat, c.process_id as nat, x);
        },
        Generator::Cuid2(_) => {},
        Generator::TypeId(tg) => {
            let b = choose|b: Seq<u8>|
                b.len() == 16 && b[6] / 16 == 7 && s == typeid_text(tg.prefix@, crate::encoding::be_value(b));
            let v = crate::encoding::be_value(b);
            crate::ksuid_id::lemma_nats_below(b);
            crate::digits::lemma_value_bound(crate::encoding::nats(b), 256);
            assert(vstd::arithmetic::power::pow(256, 16) == 0x1_0000_0000_0000_0000 * 0x1_0000_0000_0000_0000) by {
                reveal_with_fuel(vstd::arithmetic::power::pow, 17);
            }
            crate::typeid_id::lemma_bare_suffix_parses(v as u128);
        },
    }
}

/// The generator for a kind; the name-based UUID versions have none.
pub fn create_generator(kind: IdKind) -> (r: Result<Generator>)
    ensures
        r is Ok <==> has_generator(kind),
        r matches Err(e) ==> e is GenerationError,
        r matches Ok(g) ==> generator_fits(kind, g),
{
    if kind == IdKind::Uuid || kind == IdKind::UuidV4 {
        let g = UuidGenerator::v4();
        return Ok(Generator::Uuid(g));
    }
    match kind {
        IdKind::UuidV1 => Ok(Generator::Uuid(UuidGenerator::v1())),
        IdKind::UuidV6 => Ok(Generator::Uuid(UuidGenerator::v6())),
        IdKind::UuidV7 => Ok(Generator::Uuid(UuidGenerator::v7())),
        IdKind::UuidNil => Ok(Generator::Uuid(UuidGenerator::nil())),
        IdKind::UuidMax => Ok(Generator::Uuid(UuidGenerator::max())),
        IdKind::Ulid => Ok(Generator::Ulid(UlidGenerator::new())),
        IdKind::NanoId => Ok(Generator::NanoId(NanoIdGenerator::new())),
        IdKind::Snowflake => Ok(Generator::Snowflake(SnowflakeGenerator::new())),
        IdKind::ObjectId => Ok(Generator::ObjectId(ObjectIdGenerator::new())),
        IdKind::Ksuid => Ok(Generator::Ksuid(KsuidGenerator::new())),
        IdKind::Xid => Ok(Generator::Xid(XidGenerator::new())),
        IdKind::Tsid => Ok(Generator::Tsid(TsidGenerator::new())),
        IdKind::Cuid => Ok(Generator::Cuid(CuidGenerator::new())),
        IdKind::Cuid2 => Ok(Generator::Cuid2(Cuid2Generator::new())),
        IdKind::TypeId => {
            proof {
                reveal_strlit("");
            }
            Ok(Generator::TypeId(TypeIdGenerator::new("")))
        },
        _ => {
            let mut m: Vec<char> = Vec::new();
            crate::text::push_str(&mut m, "Generation not supported for: ");
            crate::text::push_str(&mut m, kind.name());
            Err(IdtError::GenerationError(crate::text::string_of_chars(&m)))
        },
    }
}

/// The kind whose codec `parse_id` ends up using, if any.
pub open spec fn chosen_kind(t: Seq<char>, hint: Option<IdKind>) -> Option<IdKind> {
    match hint {
        Some(k) => if accepts(k, t) {
            Some(k)
        } else {
            None
        },
        None => first_accepted(ranked(candidates(t)), t),
    }
}

/// The repair hint offered for a text that does not parse.
pub open spec fn repair_hint(s: Seq<char>) -> Option<Seq<char>> {
    if s.len() == 32 && crate::text::all_hex(s) {
        Some("Looks like UUID without dashes. Try adding dashes."@)
    } else if s.len() == 36 && s.contains('-') {
        Some("Check for invalid characters in UUID."@)
    } else {
        None
    }
}

fn contains_dash(s: &Vec<char>) -> (r: bool)
    ensures
        r == s@.contains('-'),
{
    let mut i: usize = 0;
    while i < s.len()
        invariant
            i <= s@.len(),
            forall|j: int| 0 <= j < i ==> s@[j] != '-',
        decreases s@.len() - i,
    {
        if s[i] == '-' {
            return true;
        }
        i = i + 1;
    }
    false
}

/// Validates a text: parsed as `parse_id` does, then judged by its codec;
/// with `strict`, a valid identifier must also be written in canonical
/// form. A text that does not parse is invalid, with the parse error and,
/// for UUID look-alikes, a repair hint.
pub fn validate_text(id: &str, hint: Option<IdKind>, strict: bool) -> (r: ValidationResult)
    ensures
        chosen_kind(trimmed(id@), hint) is None ==> (!r.valid && r.error is Some && (match repair_hint(id@) {
            Some(h) => (r.hint matches Some(x) && x@ == h),
            None => r.hint is None,
        })),
        (chosen_kind(trimmed(id@), hint) matches Some(k) && strict && canonical_text(k, trimmed(id@)) != id@)
            ==> !r.valid,
        r.valid ==> (chosen_kind(trimmed(id@), hint) matches Some(k) && (!strict || canonical_text(
            k,
            trimmed(id@),
        ) == id@)),
{
    match parse_id(id, hint) {
        Ok(p) => {
            let mut result = p.validate();
            if strict && result.valid {
                let canonical = p.canonical();
                let cs = crate::text::chars_of(canonical.as_str());
                if !crate::text::same_text(&cs, id) {
                    let mut h: Vec<char> = Vec::new();
                    crate::text::push_str(&mut h, "Canonical form: ");
                    crate::text::push_str(&mut h, canonical.as_str());
                    result = ValidationResult {
                        valid: false,
                        id_type: result.id_type,
                        error: Some("Non-canonical form".to_owned()),
                        hint: Some(crate::text::string_of_chars(&h)),
                    };
                }
            }
            result
        },
        Err(e) => {
            let m = e.message();
            let mut result = ValidationResult::invalid(m.as_str());
            let cs = crate::text::chars_of(id);
            if cs.len() == 32 && crate::text::all_hex_chars(&cs) {
                result.hint = Some("Looks like UUID without dashes. Try adding dashes.".to_owned());
            } else if cs.len() == 36 && contains_dash(&cs) {
                result.hint = Some("Check for invalid characters in UUID.".to_owned());
            }
            result
        },
    }
}

} // verus!
