use crate::crockford::{all_strict_lower, typeid_char_value};
use crate::cuid2_id::cuid2_shape;
use crate::cuid_id::cuid_shape;
use crate::encoding::hex_value;
use crate::error::{IdtError, Result};
use crate::kind::IdKind;
use crate::nanoid_id::default_shape;
use crate::objectid_id::objectid_decodes;
use crate::text::{all_alnum, all_digits, all_hex, is_lower, trimmed, trimmed_chars};
use crate::typeid_id::{last_underscore, prefix_chars_ok, typeid_prefix, typeid_suffix};
use crate::ulid_id::{all_ulid_chars, ulid_decodes};
use crate::uuid_id::hyphenated_digits;
use crate::xid_id::xid_shape;
use vstd::prelude::*;

verus! {

/// A candidate format with its confidence in percent.
#[derive(Debug, Clone, Copy, PartialEq, Eq, Structural)]
pub struct DetectionResult {
    pub kind: IdKind,
    pub confidence: u8,
}

impl DetectionResult {
    pub fn new(kind: IdKind, confidence: u8) -> (r: DetectionResult)
        ensures
            r.kind == kind,
            r.confidence == confidence,
    {
        DetectionResult { kind, confidence }
    }
}

pub open spec fn all_chars_are(s: Seq<char>, c: char) -> bool {
    forall|i: int| 0 <= i < s.len() ==> #[trigger] s[i] == c
}

pub open spec fn all_f(s: Seq<char>) -> bool {
    forall|i: int| 0 <= i < s.len() ==> #[trigger] s[i] == 'f' || s[i] == 'F'
}

/// The kind that a hyphenated UUID's digits announce.
pub open spec fn uuid_digits_kind(d: Seq<char>) -> IdKind {
    if all_chars_are(d, '0') {
        IdKind::UuidNil
    } else if all_f(d) {
        IdKind::UuidMax
    } else if hex_value(d[16]) < 8 || hex_value(d[16]) > 11 {
        IdKind::Uuid
    } else {
        let v = hex_value(d[12]);
        if v == 1 {
            IdKind::UuidV1
        } else if v == 3 {
            IdKind::UuidV3
        } else if v == 4 {
            IdKind::UuidV4
        } else if v == 5 {
            IdKind::UuidV5
        } else if v == 6 {
            IdKind::UuidV6
        } else if v == 7 {
            IdKind::UuidV7
        } else {
            IdKind::Uuid
        }
    }
}

/// The TypeID shape: a non-empty prefix of lowercase letters and
/// underscores starting with a letter, `_`, and 26 lowercase symbols.
pub open spec fn typeid_shape(s: Seq<char>) -> bool {
    let p = typeid_prefix(s);
    let x = typeid_suffix(s);
    last_underscore(s) >= 0 && p.len() > 0 && is_lower(p[0]) && prefix_chars_ok(p) && x.len() == 26
        && all_strict_lower(x)
}

pub open spec fn snowflake_text_shape(s: Seq<char>) -> bool {
    15 <= s.len() <= 19 && all_digits(s)
}

pub open spec fn tsid_text_shape(s: Seq<char>) -> bool {
    s.len() == 13 && all_ulid_chars(s)
}

pub open spec fn ksuid_text_shape(s: Seq<char>) -> bool {
    s.len() == 27 && all_alnum(s)
}

pub open spec fn cuid2_text_shape(s: Seq<char>) -> bool {
    s.len() == 24 && cuid2_shape(s)
}

pub open spec fn one_if(b: bool, d: DetectionResult) -> Seq<DetectionResult> {
    if b {
        seq![d]
    } else {
        Seq::empty()
    }
}

/// Every format whose structural test the text passes, in the order the
/// tests run.
pub open spec fn candidates(s: Seq<char>) -> Seq<DetectionResult> {
    (match hyphenated_digits(s) {
        Some(d) => {
            let k = uuid_digits_kind(d);
            seq![DetectionResult { kind: k, confidence: if k == IdKind::Uuid { 90u8 } else { 100u8 } }]
        },
        None => Seq::empty(),
    }) + one_if(s.len() == 32 && all_hex(s), DetectionResult { kind: IdKind::Uuid, confidence: 70 })
        + one_if(ulid_decodes(s), DetectionResult { kind: IdKind::Ulid, confidence: 95 }) + one_if(
        typeid_shape(s),
        DetectionResult { kind: IdKind::TypeId, confidence: 95 },
    ) + one_if(objectid_decodes(s), DetectionResult { kind: IdKind::ObjectId, confidence: 85 })
        + one_if(ksuid_text_shape(s), DetectionResult { kind: IdKind::Ksuid, confidence: 80 })
        + one_if(xid_shape(s), DetectionResult { kind: IdKind::Xid, confidence: 80 }) + one_if(
        snowflake_text_shape(s),
        DetectionResult { kind: IdKind::Snowflake, confidence: 80 },
    ) + one_if(tsid_text_shape(s), DetectionResult { kind: IdKind::Tsid, confidence: 75 })
        + one_if(cuid_shape(s), DetectionResult { kind: IdKind::Cuid, confidence: 75 }) + one_if(
        default_shape(s),
        DetectionResult { kind: IdKind::NanoId, confidence: 60 },
    ) + one_if(cuid2_text_shape(s), DetectionResult { kind: IdKind::Cuid2, confidence: 40 })
}

/// The candidates of one confidence, in their order.
pub open spec fn at_level(c: Seq<DetectionResult>, level: u8) -> Seq<DetectionResult>
    decreases c.len(),
{
    if c.len() == 0 {
        Seq::empty()
    } else {
        at_level(c.drop_last(), level) + one_if(c.last().confidence == level, c.last())
    }
}

/// The confidences in use, highest first.
pub open spec fn levels() -> Seq<u8> {
    seq![100u8, 95, 90, 85, 80, 75, 70, 60, 40]
}

/// The candidates of the first `n` levels.
pub open spec fn ranked_upto(c: Seq<DetectionResult>, n: nat) -> Seq<DetectionResult>
    decreases n,
{
    if n == 0 {
        Seq::empty()
    } else {
        ranked_upto(c, (n - 1) as nat) + at_level(c, levels()[n - 1])
    }
}

/// The candidates ordered by descending confidence, ties in test order.
pub open spec fn ranked(c: Seq<DetectionResult>) -> Seq<DetectionResult> {
    ranked_upto(c, 9)
}

/// Confidences never increase along the sequence.
pub open spec fn descending(c: Seq<DetectionResult>) -> bool {
    forall|i: int, j: int| 0 <= i < j < c.len() ==> #[trigger] c[i].confidence >= #[trigger] c[j].confidence
}

proof fn lemma_at_level_confidence(c: Seq<DetectionResult>, level: u8)
    ensures
        forall|i: int| 0 <= i < at_level(c, level).len() ==> #[trigger] at_level(c, level)[i].confidence == level,
    decreases c.len(),
{
    if c.len() > 0 {
        lemma_at_level_confidence(c.drop_last(), level);
        let prev = at_level(c.drop_last(), level);
        let tail = one_if(c.last().confidence == level, c.last());
        assert forall|i: int| 0 <= i < at_level(c, level).len() implies #[trigger] at_level(c, level)[i].confidence
            == level by {
            if i < prev.len() {
                assert(at_level(c, level)[i] == prev[i]);
            } else {
                assert(at_level(c, level)[i] == tail[i - prev.len()]);
            }
        }
    }
}

proof fn lemma_levels_decrease(k: int)
    requires
        0 <= k < 8,
    ensures
        levels()[k] > levels()[k + 1],
{
    if k == 0 {
    } else if k == 1 {
    } else if k == 2 {
    } else if k == 3 {
    } else if k == 4 {
    } else if k == 5 {
    } else if k == 6 {
    } else {
    }
}

proof fn lemma_ranked_upto_descending(c: Seq<DetectionResult>, n: nat)
    requires
        n <= 9,
    ensures
        descending(ranked_upto(c, n)),
        n > 0 ==> forall|i: int| 0 <= i < ranked_upto(c, n).len() ==> #[trigger] ranked_upto(c, n)[i].confidence
            >= levels()[n - 1],
    decreases n,
{
    if n > 0 {
        lemma_ranked_upto_descending(c, (n - 1) as nat);
        let prev = ranked_upto(c, (n - 1) as nat);
        let lvl = levels()[n - 1];
        let cur = at_level(c, lvl);
        lemma_at_level_confidence(c, lvl);
        let r = ranked_upto(c, n);
        assert(r == prev + cur);
        if n > 1 {
            lemma_levels_decrease(n - 2);
        }
        assert forall|i: int| 0 <= i < r.len() implies #[trigger] r[i].confidence >= lvl by {
            if i < prev.len() {
                assert(r[i] == prev[i]);
            } else {
                assert(r[i] == cur[i - prev.len()]);
            }
        }
        assert forall|i: int, j: int| 0 <= i < j < r.len() implies #[trigger] r[i].confidence >= #[trigger] r[j].confidence by {
            if j < prev.len() {
                assert(r[i] == prev[i] && r[j] == prev[j]);
            } else if i >= prev.len() {
                assert(r[i] == cur[i - prev.len()] && r[j] == cur[j - prev.len()]);
            } else {
                assert(r[i] == prev[i] && r[j] == cur[j - prev.len()]);
            }
        }
    }
}

/// Detection output is ordered by non-increasing confidence.
pub proof fn lemma_ranking_descending(c: Seq<DetectionResult>)
    ensures
        descending(ranked(c)),
{
    lemma_ranked_upto_descending(c, 9);
}

fn push_if(out: &mut Vec<DetectionResult>, b: bool, d: DetectionResult)
    ensures
        final(out)@ == old(out)@ + one_if(b, d),
{
    if b {
        out.push(d);
    }
    assert(final(out)@ =~= old(out)@ + one_if(b, d));
}

fn all_same(s: &Vec<char>, c: char, alt: char) -> (r: bool)
    ensures
        r == forall|i: int| 0 <= i < s@.len() ==> #[trigger] s@[i] == c || s@[i] == alt,
{
    let mut i: usize = 0;
    while i < s.len()
        invariant
            i <= s@.len(),
            forall|j: int| 0 <= j < i ==> #[trigger] s@[j] == c || s@[j] == alt,
        decreases s@.len() - i,
    {
        if s[i] != c && s[i] != alt {
            return false;
        }
        i = i + 1;
    }
    true
}

fn hex_digit_value(c: char) -> (r: u32)
    requires
        crate::text::is_hex_char(c),
    ensures
        r as nat == hex_value(c),
{
    if '0' <= c && c <= '9' {
        c as u32 - 48
    } else if 'a' <= c && c <= 'f' {
        c as u32 - 87
    } else {
        c as u32 - 55
    }
}

/// The hyphenated digits, when the text is a hyphenated UUID.
fn hyphenated(s: &Vec<char>) -> (r: Option<Vec<char>>)
    ensures
        r is Some <==> hyphenated_digits(s@) is Some,
        r matches Some(d) ==> hyphenated_digits(s@) == Some(d@),
{
    if s.len() != 36 || s[8] != '-' || s[13] != '-' || s[18] != '-' || s[23] != '-' {
        return None;
    }
    let mut d: Vec<char> = Vec::new();
    let mut i: usize = 0;
    while i < 36
        invariant
            s@.len() == 36,
            s@[8] == '-' && s@[13] == '-' && s@[18] == '-' && s@[23] == '-',
            i <= 36,
            d@ == (s@.subrange(0, 8) + s@.subrange(9, 13) + s@.subrange(14, 18) + s@.subrange(19, 23)
                + s@.subrange(24, 36)).subrange(
                0,
                if i <= 8 {
                    i as int
                } else if i <= 13 {
                    i - 1
                } else if i <= 18 {
                    i - 2
                } else if i <= 23 {
                    i - 3
                } else {
                    i - 4
                },
            ),
        decreases 36 - i,
    {
        if i != 8 && i != 13 && i != 18 && i != 23 {
            d.push(s[i]);
        }
        i = i + 1;
        assert(d@ =~= (s@.subrange(0, 8) + s@.subrange(9, 13) + s@.subrange(14, 18) + s@.subrange(19, 23)
            + s@.subrange(24, 36)).subrange(
            0,
            if i <= 8 {
                i as int
            } else if i <= 13 {
                i - 1
            } else if i <= 18 {
                i - 2
            } else if i <= 23 {
                i - 3
            } else {
                i - 4
            },
        ));
    }
    assert(d@ =~= s@.subrange(0, 8) + s@.subrange(9, 13) + s@.subrange(14, 18) + s@.subrange(19, 23)
        + s@.subrange(24, 36));
    if crate::text::all_hex_chars(&d) {
        Some(d)
    } else {
        None
    }
}

fn uuid_kind_of_digits(d: &Vec<char>) -> (r: IdKind)
    requires
        d@.len() == 32,
        all_hex(d@),
    ensures
        r == uuid_digits_kind(d@),
{
    if all_same(d, '0', '0') {
        return IdKind::UuidNil;
    }
    if all_same(d, 'f', 'F') {
        return IdKind::UuidMax;
    }
    let variant = hex_digit_value(d[16]);
    if variant < 8 || variant > 11 {
        return IdKind::Uuid;
    }
    match hex_digit_value(d[12]) {
        1 => IdKind::UuidV1,
        3 => IdKind::UuidV3,
        4 => IdKind::UuidV4,
        5 => IdKind::UuidV5,
        6 => IdKind::UuidV6,
        7 => IdKind::UuidV7,
        _ => IdKind::Uuid,
    }
}

pub fn is_ksuid_format(s: &Vec<char>) -> (r: bool)
    ensures
        r == ksuid_text_shape(s@),
{
    s.len() == 27 && crate::text::all_alnum_chars(s)
}

pub fn is_snowflake_format(s: &Vec<char>) -> (r: bool)
    ensures
        r == snowflake_text_shape(s@),
{
    s.len() >= 15 && s.len() <= 19 && crate::text::all_digit_chars(s)
}

fn all_ulid_symbols(s: &Vec<char>) -> (r: bool)
    ensures
        r == all_ulid_chars(s@),
{
    let mut i: usize = 0;
    while i < s.len()
        invariant
            i <= s@.len(),
            forall|j: int| 0 <= j < i ==> #[trigger] crate::ulid_id::ulid_char_value(s@[j]) is Some,
        decreases s@.len() - i,
    {
        let c = s[i];
        let low = if 'A' <= c && c <= 'Z' {
            ((c as u32 + 32) as u8) as char
        } else {
            c
        };
        if typeid_char_value(low).is_none() {
            assert(crate::ulid_id::ulid_char_value(s@[i as int]) is None);
            return false;
        }
        i = i + 1;
    }
    true
}

pub fn is_tsid_format(s: &Vec<char>) -> (r: bool)
    ensures
        r == tsid_text_shape(s@),
{
    s.len() == 13 && all_ulid_symbols(s)
}

pub fn is_ulid_format(s: &Vec<char>) -> (r: bool)
    ensures
        r == ulid_decodes(s@),
{
    if s.len() != 26 || !all_ulid_symbols(s) {
        return false;
    }
    let c = s[0];
    let low = if 'A' <= c && c <= 'Z' {
        ((c as u32 + 32) as u8) as char
    } else {
        c
    };
    match typeid_char_value(low) {
        Some(d) => d <= 7,
        None => false,
    }
}

pub fn is_cuid_format(s: &Vec<char>) -> (r: bool)
    ensures
        r == cuid_shape(s@),
{
    s.len() == 25 && s[0] == 'c' && crate::text::all_lower_or_digit_chars(s)
}

pub fn is_cuid2_format(s: &Vec<char>) -> (r: bool)
    ensures
        r == cuid2_text_shape(s@),
{
    s.len() == 24 && crate::text::is_lower_char(s[0]) && crate::text::all_lower_or_digit_chars(s)
}

pub fn is_xid_format(s: &Vec<char>) -> (r: bool)
    ensures
        r == xid_shape(s@),
{
    if s.len() != 20 {
        return false;
    }
    let mut i: usize = 0;
    while i < 20
        invariant
            s@.len() == 20,
            i <= 20,
            forall|j: int| 0 <= j < i ==> #[trigger] crate::xid_id::xid_value(s@[j]) is Some,
        decreases 20 - i,
    {
        if crate::xid_id::xid_char_value(s[i]).is_none() {
            return false;
        }
        i = i + 1;
    }
    true
}

pub fn is_objectid_format(s: &Vec<char>) -> (r: bool)
    ensures
        r == objectid_decodes(s@),
{
    s.len() == 24 && crate::text::all_hex_chars(s)
}

pub fn is_nanoid_format(s: &Vec<char>) -> (r: bool)
    ensures
        r == default_shape(s@),
{
    let t = crate::text::string_of_chars(s);
    crate::nanoid_id::ParsedNanoId::is_default_format(t.as_str())
}

fn all_strict_lower_chars(s: &Vec<char>) -> (r: bool)
    ensures
        r == all_strict_lower(s@),
{
    let mut i: usize = 0;
    while i < s.len()
        invariant
            i <= s@.len(),
            forall|j: int| 0 <= j < i ==> #[trigger] crate::crockford::strict_lower_value(s@[j]) is Some,
        decreases s@.len() - i,
    {
        if typeid_char_value(s[i]).is_none() {
            return false;
        }
        i = i + 1;
    }
    true
}

pub fn is_typeid_format(s: &Vec<char>) -> (r: bool)
    ensures
        r == typeid_shape(s@),
{
    let n = s.len();
    match crate::typeid_id::find_last_underscore(s) {
        Some(k) => {
            let p = crate::typeid_id::slice_chars(s, 0, k);
            let x = crate::typeid_id::slice_chars(s, k + 1, n);
            assert(p@ =~= typeid_prefix(s@));
            assert(x@ =~= typeid_suffix(s@));
            p.len() > 0 && crate::text::is_lower_char(p[0]) && crate::typeid_id::prefix_ok(&p) && x.len() == 26
                && all_strict_lower_chars(&x)
        },
        None => false,
    }
}

/// The structural candidates of a (trimmed) text, in test order.
pub fn candidates_of(s: &Vec<char>) -> (r: Vec<DetectionResult>)
    ensures
        r@ == candidates(s@),
{
    let mut out: Vec<DetectionResult> = Vec::new();
    match hyphenated(s) {
        Some(d) => {
            let k = uuid_kind_of_digits(&d);
            let conf: u8 = if k == IdKind::Uuid {
                90
            } else {
                100
            };
            out.push(DetectionResult::new(k, conf));
        },
        None => {},
    }
    push_if(&mut out, s.len() == 32 && crate::text::all_hex_chars(s), DetectionResult::new(IdKind::Uuid, 70));
    push_if(&mut out, is_ulid_format(s), DetectionResult::new(IdKind::Ulid, 95));
    push_if(&mut out, is_typeid_format(s), DetectionResult::new(IdKind::TypeId, 95));
    push_if(&mut out, is_objectid_format(s), DetectionResult::new(IdKind::ObjectId, 85));
    push_if(&mut out, is_ksuid_format(s), DetectionResult::new(IdKind::Ksuid, 80));
    push_if(&mut out, is_xid_format(s), DetectionResult::new(IdKind::Xid, 80));
    push_if(&mut out, is_snowflake_format(s), DetectionResult::new(IdKind::Snowflake, 80));
    push_if(&mut out, is_tsid_format(s), DetectionResult::new(IdKind::Tsid, 75));
    push_if(&mut out, is_cuid_format(s), DetectionResult::new(IdKind::Cuid, 75));
    push_if(&mut out, is_nanoid_format(s), DetectionResult::new(IdKind::NanoId, 60));
    push_if(&mut out, is_cuid2_format(s), DetectionResult::new(IdKind::Cuid2, 40));
    assert(out@ =~= candidates(s@));
    out
}

fn push_level(out: &mut Vec<DetectionResult>, c: &Vec<DetectionResult>, level: u8)
    ensures
        final(out)@ == old(out)@ + at_level(c@, level),
{
    let ghost start = out@;
    let mut i: usize = 0;
    assert(c@.subrange(0, 0) =~= Seq::<DetectionResult>::empty());
    while i < c.len()
        invariant
            i <= c@.len(),
            out@ == start + at_level(c@.subrange(0, i as int), level),
        decreases c@.len() - i,
    {
        assert(c@.subrange(0, i + 1).drop_last() =~= c@.subrange(0, i as int));
        if c[i].confidence == level {
            out.push(c[i]);
        }
        i = i + 1;
        assert(out@ =~= start + at_level(c@.subrange(0, i as int), level));
    }
    assert(c@.subrange(0, c@.len() as int) =~= c@);
}

/// Orders candidates by descending confidence, keeping test order on ties.
pub fn rank(c: &Vec<DetectionResult>) -> (r: Vec<DetectionResult>)
    ensures
        r@ == ranked(c@),
{
    let table: [u8; 9] = [100, 95, 90, 85, 80, 75, 70, 60, 40];
    assert(table@ =~= levels());
    let mut out: Vec<DetectionResult> = Vec::new();
    let mut k: usize = 0;
    while k < 9
        invariant
            k <= 9,
            table@ == levels(),
            out@ == ranked_upto(c@, k as nat),
        decreases 9 - k,
    {
        push_level(&mut out, c, table[k]);
        k = k + 1;
    }
    out
}

/// Guesses the format of an identifier: every format whose structural test
/// the trimmed text passes, ranked by descending confidence; none is
/// `DetectionFailed`.
pub fn detect_id_type(input: &str) -> (r: Result<Vec<DetectionResult>>)
    ensures
        r is Err <==> candidates(trimmed(input@)).len() == 0,
        r matches Ok(v) ==> v@ == ranked(candidates(trimmed(input@))),
        r matches Err(e) ==> e is DetectionFailed,
{
    let t = trimmed_chars(input);
    let c = candidates_of(&t);
    if c.len() == 0 {
        return Err(IdtError::DetectionFailed);
    }
    Ok(rank(&c))
}

} // verus!
