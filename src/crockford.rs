use crate::encoding::nats;
use vstd::prelude::*;

verus! {

/// Crockford Base32 symbol of a value below 32, uppercase.
pub open spec fn crockford_upper(d: nat) -> char {
    if d < 10 {
        ((48 + d) as u8) as char
    } else if d < 18 {
        ((55 + d) as u8) as char
    } else if d < 20 {
        ((56 + d) as u8) as char
    } else if d < 22 {
        ((57 + d) as u8) as char
    } else if d < 27 {
        ((58 + d) as u8) as char
    } else {
        ((59 + d) as u8) as char
    }
}

/// Crockford Base32 symbol of a value below 32, lowercase.
pub open spec fn crockford_lower(d: nat) -> char {
    if d < 10 {
        crockford_upper(d)
    } else {
        ((crockford_upper(d) as u32 + 32) as u8) as char
    }
}

/// The value of a Crockford Base32 symbol, case-insensitively, folding the
/// look-alikes `O` to 0 and `I`, `L` to 1.
pub open spec fn crockford_value(c: char) -> Option<nat> {
    let u: int = if 'a' <= c && c <= 'z' {
        c as u32 - 32
    } else {
        c as u32 as int
    };
    if 48 <= u <= 57 {
        Some((u - 48) as nat)
    } else if u == 79 {
        Some(0)
    } else if u == 73 || u == 76 {
        Some(1)
    } else if 65 <= u <= 72 {
        Some((u - 55) as nat)
    } else if u == 74 || u == 75 {
        Some((u - 56) as nat)
    } else if u == 77 || u == 78 {
        Some((u - 57) as nat)
    } else if 80 <= u <= 84 {
        Some((u - 58) as nat)
    } else if 86 <= u <= 90 {
        Some((u - 59) as nat)
    } else {
        None
    }
}

/// The value of a lowercase Crockford Base32 symbol, with no folding.
pub open spec fn strict_lower_value(c: char) -> Option<nat> {
    let u = c as u32 as int;
    if 48 <= u <= 57 {
        Some((u - 48) as nat)
    } else if 97 <= u <= 104 {
        Some((u - 87) as nat)
    } else if u == 106 || u == 107 {
        Some((u - 88) as nat)
    } else if u == 109 || u == 110 {
        Some((u - 89) as nat)
    } else if 112 <= u <= 116 {
        Some((u - 90) as nat)
    } else if 118 <= u <= 122 {
        Some((u - 91) as nat)
    } else {
        None
    }
}

pub open spec fn opt_digit(o: Option<nat>) -> nat {
    match o {
        Some(d) => d,
        None => 0,
    }
}

/// The folded Crockford values of a text.
pub open spec fn crockford_digits(s: Seq<char>) -> Seq<nat> {
    s.map_values(|c: char| opt_digit(crockford_value(c)))
}

pub open spec fn all_crockford(s: Seq<char>) -> bool {
    forall|i: int| 0 <= i < s.len() ==> #[trigger] crockford_value(s[i]) is Some
}

/// The strict lowercase values of a text.
pub open spec fn strict_lower_digits(s: Seq<char>) -> Seq<nat> {
    s.map_values(|c: char| opt_digit(strict_lower_value(c)))
}

pub open spec fn all_strict_lower(s: Seq<char>) -> bool {
    forall|i: int| 0 <= i < s.len() ==> #[trigger] strict_lower_value(s[i]) is Some
}

pub open spec fn upper_text(ds: Seq<nat>) -> Seq<char> {
    ds.map_values(|d: nat| crockford_upper(d))
}

pub open spec fn lower_text(ds: Seq<nat>) -> Seq<char> {
    ds.map_values(|d: nat| crockford_lower(d))
}

pub proof fn lemma_symbol_values(d: nat)
    requires
        d < 32,
    ensures
        crockford_value(crockford_upper(d)) == Some(d),
        crockford_value(crockford_lower(d)) == Some(d),
        strict_lower_value(crockford_lower(d)) == Some(d),
{
}

/// Folded decoding undoes uppercase encoding.
pub proof fn lemma_upper_text_digits(ds: Seq<nat>)
    requires
        crate::digits::digits_below(ds, 32),
    ensures
        crockford_digits(upper_text(ds)) == ds,
        all_crockford(upper_text(ds)),
{
    assert forall|i: int| 0 <= i < ds.len() implies #[trigger] crockford_value(
        upper_text(ds)[i],
    ) == Some(ds[i]) by {
        lemma_symbol_values(ds[i]);
    }
    assert(crockford_digits(upper_text(ds)) =~= ds);
}

/// Strict decoding undoes lowercase encoding.
pub proof fn lemma_lower_text_digits(ds: Seq<nat>)
    requires
        crate::digits::digits_below(ds, 32),
    ensures
        strict_lower_digits(lower_text(ds)) == ds,
        all_strict_lower(lower_text(ds)),
{
    assert forall|i: int| 0 <= i < ds.len() implies #[trigger] strict_lower_value(
        lower_text(ds)[i],
    ) == Some(ds[i]) by {
        lemma_symbol_values(ds[i]);
    }
    assert(strict_lower_digits(lower_text(ds)) =~= ds);
}

pub fn crockford_char(d: u8, upper: bool) -> (r: char)
    requires
        d < 32,
    ensures
        r == (if upper { crockford_upper(d as nat) } else { crockford_lower(d as nat) }),
{
    let c: u8 = if d < 10 {
        48 + d
    } else if d < 18 {
        55 + d
    } else if d < 20 {
        56 + d
    } else if d < 22 {
        57 + d
    } else if d < 27 {
        58 + d
    } else {
        59 + d
    };
    if upper || d < 10 {
        c as char
    } else {
        (c + 32) as char
    }
}

/// Maps digit values below 32 to their symbols.
pub fn crockford_symbols(ds: &Vec<u8>, upper: bool) -> (r: Vec<char>)
    requires
        forall|i: int| 0 <= i < ds@.len() ==> #[trigger] ds@[i] < 32,
    ensures
        r@ == (if upper { upper_text(nats(ds@)) } else { lower_text(nats(ds@)) }),
{
    let mut out: Vec<char> = Vec::new();
    let mut i: usize = 0;
    while i < ds.len()
        invariant
            i <= ds@.len(),
            forall|k: int| 0 <= k < ds@.len() ==> #[trigger] ds@[k] < 32,
            out@ == (if upper {
                upper_text(nats(ds@)).subrange(0, i as int)
            } else {
                lower_text(nats(ds@)).subrange(0, i as int)
            }),
        decreases ds@.len() - i,
    {
        out.push(crockford_char(ds[i], upper));
        i = i + 1;
        assert(out@ =~= (if upper {
            upper_text(nats(ds@)).subrange(0, i as int)
        } else {
            lower_text(nats(ds@)).subrange(0, i as int)
        }));
    }
    assert(out@ =~= (if upper { upper_text(nats(ds@)) } else { lower_text(nats(ds@)) }));
    out
}

/// Folded Crockford value of a symbol, either case.
pub fn crockford_char_value(c: char) -> (r: Option<u8>)
    ensures
        r matches Some(d) ==> crockford_value(c) == Some(d as nat) && d < 32,
        r is None <==> crockford_value(c) is None,
{
    let u: u32 = if 'a' <= c && c <= 'z' {
        c as u32 - 32
    } else {
        c as u32
    };
    if 48 <= u && u <= 57 {
        Some((u - 48) as u8)
    } else if u == 79 {
        Some(0)
    } else if u == 73 || u == 76 {
        Some(1)
    } else if 65 <= u && u <= 72 {
        Some((u - 55) as u8)
    } else if u == 74 || u == 75 {
        Some((u - 56) as u8)
    } else if u == 77 || u == 78 {
        Some((u - 57) as u8)
    } else if 80 <= u && u <= 84 {
        Some((u - 58) as u8)
    } else if 86 <= u && u <= 90 {
        Some((u - 59) as u8)
    } else {
        None
    }
}

/// Strict lowercase Crockford value of a symbol.
pub fn typeid_char_value(c: char) -> (r: Option<u8>)
    ensures
        r matches Some(d) ==> strict_lower_value(c) == Some(d as nat) && d < 32,
        r is None <==> strict_lower_value(c) is None,
{
    let u = c as u32;
    if 48 <= u && u <= 57 {
        Some((u - 48) as u8)
    } else if 97 <= u && u <= 104 {
        Some((u - 87) as u8)
    } else if u == 106 || u == 107 {
        Some((u - 88) as u8)
    } else if u == 109 || u == 110 {
        Some((u - 89) as u8)
    } else if 112 <= u && u <= 116 {
        Some((u - 90) as u8)
    } else if 118 <= u && u <= 122 {
        Some((u - 91) as u8)
    } else {
        None
    }
}

} // verus!
