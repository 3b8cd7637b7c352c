use vstd::arithmetic::div_mod::{lemma_div_denominator, lemma_fundamental_div_mod_converse, lemma_mod_breakdown};
use vstd::arithmetic::power::{lemma_pow_positive, pow};
use vstd::prelude::*;

verus! {

/// The last `n` digits of `v` in `base`, most significant first.
pub open spec fn digits_of(v: nat, base: nat, n: nat) -> Seq<nat>
    decreases n,
{
    if n == 0 {
        Seq::empty()
    } else {
        digits_of((v / base) as nat, base, (n - 1) as nat).push((v % base) as nat)
    }
}

/// The number that a digit sequence, most significant first, denotes in `base`.
pub open spec fn value_of(ds: Seq<nat>, base: nat) -> nat
    decreases ds.len(),
{
    if ds.len() == 0 {
        0
    } else {
        value_of(ds.drop_last(), base) * base + ds.last()
    }
}

pub open spec fn digits_below(ds: Seq<nat>, base: nat) -> bool {
    forall|i: int| 0 <= i < ds.len() ==> #[trigger] ds[i] < base
}

pub proof fn lemma_digits_shape(v: nat, base: nat, n: nat)
    requires
        base > 0,
    ensures
        digits_of(v, base, n).len() == n,
        digits_below(digits_of(v, base, n), base),
    decreases n,
{
    if n > 0 {
        lemma_digits_shape((v / base) as nat, base, (n - 1) as nat);
        let ds = digits_of(v, base, n);
        assert forall|i: int| 0 <= i < ds.len() implies #[trigger] ds[i] < base by {
            if i < n - 1 {
                assert(ds[i] == digits_of((v / base) as nat, base, (n - 1) as nat)[i]);
            }
        }
    }
}

/// Reading back the last `n` digits of `v` gives `v` modulo `base^n`.
pub proof fn lemma_value_of_digits(v: nat, base: nat, n: nat)
    requires
        base > 0,
    ensures
        value_of(digits_of(v, base, n), base) == v % (pow(base as int, n) as nat),
    decreases n,
{
    reveal(pow);
    lemma_pow_positive(base as int, n);
    if n == 0 {
        assert(pow(base as int, 0) == 1);
        assert(v % 1 == 0);
    } else {
        let rest = digits_of((v / base) as nat, base, (n - 1) as nat);
        let ds = digits_of(v, base, n);
        assert(ds.drop_last() =~= rest);
        lemma_value_of_digits((v / base) as nat, base, (n - 1) as nat);
        lemma_pow_positive(base as int, (n - 1) as nat);
        let p = pow(base as int, (n - 1) as nat);
        assert(pow(base as int, n) == base * p);
        lemma_mod_breakdown(v as int, base as int, p);
        let x = value_of(ds, base) as int;
        let y = value_of(rest, base) as int;
        let b = base as int;
        let q = v as int / b;
        let r = v as int % b;
        assert(x == y * b + r);
        assert(y == q % p);
        assert(x == b * (q % p) + r) by (nonlinear_arith)
            requires
                x == y * b + r,
                y == q % p,
        ;
    }
}

/// Writing the value of a digit sequence back out gives the same digits.
pub proof fn lemma_digits_of_value(ds: Seq<nat>, base: nat)
    requires
        base > 0,
        digits_below(ds, base),
    ensures
        digits_of(value_of(ds, base), base, ds.len()) == ds,
    decreases ds.len(),
{
    if ds.len() > 0 {
        let dl = ds.drop_last();
        assert(digits_below(dl, base)) by {
            assert forall|i: int| 0 <= i < dl.len() implies #[trigger] dl[i] < base by {
                assert(dl[i] == ds[i]);
            }
        }
        lemma_digits_of_value(dl, base);
        let v = value_of(ds, base);
        assert(ds.last() < base);
        lemma_fundamental_div_mod_converse(
            v as int,
            base as int,
            value_of(dl, base) as int,
            ds.last() as int,
        );
        assert(digits_of(v, base, ds.len()) =~= ds);
    }
}

/// A digit sequence of length `n` denotes less than `base^n`.
pub proof fn lemma_value_bound(ds: Seq<nat>, base: nat)
    requires
        base > 0,
        digits_below(ds, base),
    ensures
        value_of(ds, base) < pow(base as int, ds.len()),
    decreases ds.len(),
{
    reveal(pow);
    if ds.len() == 0 {
        assert(pow(base as int, 0) == 1);
    } else {
        let dl = ds.drop_last();
        assert(digits_below(dl, base)) by {
            assert forall|i: int| 0 <= i < dl.len() implies #[trigger] dl[i] < base by {
                assert(dl[i] == ds[i]);
            }
        }
        lemma_value_bound(dl, base);
        let p = pow(base as int, dl.len());
        assert(pow(base as int, ds.len()) == base * p);
        let a = value_of(dl, base);
        let d = ds.last();
        assert(d < base);
        assert(a * base + d < base * p) by (nonlinear_arith)
            requires
                a < p,
                d < base,
        ;
    }
}

/// A prefix denotes no more than the whole sequence.
pub proof fn lemma_prefix_value_le(ds: Seq<nat>, base: nat, i: int)
    requires
        base > 0,
        0 <= i <= ds.len(),
    ensures
        value_of(ds.subrange(0, i), base) <= value_of(ds, base),
    decreases ds.len(),
{
    if i < ds.len() {
        let dl = ds.drop_last();
        assert(dl.subrange(0, i) =~= ds.subrange(0, i));
        lemma_prefix_value_le(dl, base, i);
        let a = value_of(dl, base);
        assert(a <= a * base + ds.last()) by (nonlinear_arith)
            requires
                base > 0,
        ;
    } else {
        assert(ds.subrange(0, i) =~= ds);
    }
}

/// Appending one digit multiplies the value by the base and adds the digit.
pub proof fn lemma_value_push(ds: Seq<nat>, d: nat, base: nat)
    ensures
        value_of(ds.push(d), base) == value_of(ds, base) * base + d,
{
    assert(ds.push(d).drop_last() =~= ds);
}

/// The leading digit of the last `n` digits of `v`.
pub proof fn lemma_first_digit(v: nat, base: nat, n: nat)
    requires
        base > 0,
        n > 0,
    ensures
        digits_of(v, base, n)[0] == (v / (pow(base as int, (n - 1) as nat) as nat)) % base,
    decreases n,
{
    reveal(pow);
    if n == 1 {
        assert(pow(base as int, 0) == 1);
        assert(digits_of((v / base) as nat, base, 0) =~= Seq::<nat>::empty());
        assert(digits_of(v, base, 1) =~= seq![(v % base) as nat]);
        assert(v / (pow(base as int, 0) as nat) == v);
    } else {
        let w = (v / base) as nat;
        lemma_first_digit(w, base, (n - 1) as nat);
        lemma_digits_shape(w, base, (n - 1) as nat);
        assert(digits_of(v, base, n)[0] == digits_of(w, base, (n - 1) as nat)[0]);
        let p = pow(base as int, (n - 2) as nat);
        lemma_pow_positive(base as int, (n - 2) as nat);
        lemma_div_denominator(v as int, base as int, p);
        assert(pow(base as int, (n - 1) as nat) == base * p);
        assert(w as int / p == v as int / (base * p));
        assert(v / (pow(base as int, (n - 1) as nat) as nat) == w / (p as nat));
    }
}

/// The value of a concatenation.
pub proof fn lemma_value_concat(a: Seq<nat>, b: Seq<nat>, base: nat)
    ensures
        value_of(a + b, base) == value_of(a, base) * pow(base as int, b.len()) + value_of(b, base),
    decreases b.len(),
{
    reveal(pow);
    if b.len() == 0 {
        assert(a + b =~= a);
    } else {
        assert((a + b).drop_last() =~= a + b.drop_last());
        lemma_value_concat(a, b.drop_last(), base);
        let va = value_of(a, base) as int;
        let p = pow(base as int, (b.len() - 1) as nat);
        let vb = value_of(b.drop_last(), base) as int;
        let l = b.last() as int;
        assert((va * p + vb) * base + l == va * (base * p) + (vb * base + l)) by (nonlinear_arith);
    }
}

/// The digit at position `i` of the last `n` digits of `v`.
pub proof fn lemma_digit_at(v: nat, base: nat, n: nat, i: int)
    requires
        base > 0,
        0 <= i < n,
    ensures
        digits_of(v, base, n)[i] == (v / (pow(base as int, (n - 1 - i) as nat) as nat)) % base,
    decreases n,
{
    reveal(pow);
    if i == n - 1 {
        lemma_digits_shape((v / base) as nat, base, (n - 1) as nat);
        assert((n - 1 - i) as nat == 0);
        assert(pow(base as int, 0) == 1);
        assert(v / 1 == v);
    } else {
        let w = (v / base) as nat;
        lemma_digit_at(w, base, (n - 1) as nat, i);
        lemma_digits_shape(w, base, (n - 1) as nat);
        assert(digits_of(v, base, n)[i] == digits_of(w, base, (n - 1) as nat)[i]);
        let p = pow(base as int, (n - 2 - i) as nat);
        lemma_pow_positive(base as int, (n - 2 - i) as nat);
        lemma_div_denominator(v as int, base as int, p);
        assert(pow(base as int, (n - 1 - i) as nat) == base * p);
        assert(v / (pow(base as int, (n - 1 - i) as nat) as nat) == w / (p as nat));
    }
}

} // verus!
