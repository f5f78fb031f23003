//! When a section of the equalizer changes nothing.
//!
//! A section whose numerator coefficients equal its denominator's has the
//! transfer function one. Where the supplied arithmetic is exact on the few
//! operations involved, such a section with cleared memory hands every sample
//! on as it came and keeps its memory cleared. A peaking band without gain
//! has such coefficients, and so has the pass-through section of a band of
//! unknown shape.
//!
//! Floating-point arithmetic is exact in the sense needed here on finite
//! values: `1 * x` and `x + 0` are `x`, `p - p` is zero and `v / v` is one.
//! Each law names the facts that it uses.

use vstd::prelude::*;
use crate::arith::{denotes, gives, SampleOp, Term, FORTY, TEN};
use crate::eq::{
    alpha,
    cascade,
    derived,
    first_register_term,
    output_term,
    peaking_terms,
    second_register_term,
    section_step,
    BandShape,
    Biquad,
    Coefficients,
    EqBandSpec,
};
use crate::sample::{SILENCE, UNITY};

verus! {

/// Whether the arithmetic is a function: an operation on the same words
/// always gives the same word.
pub open spec fn functional<A: Fn(SampleOp, u32, u32) -> u32>(arith: A) -> bool {
    forall|op: SampleOp, a: u32, b: u32, r1: u32, r2: u32|
        #![trigger gives(arith, op, a, b, r1), gives(arith, op, a, b, r2)]
        gives(arith, op, a, b, r1) && gives(arith, op, a, b, r2) ==> r1 == r2
}

/// Whether the numerator of a section equals its denominator: `b0` is one,
/// `b1` is `a1` and `b2` is `a2`.
pub open spec fn matched(c: Coefficients) -> bool {
    c.b0 == UNITY && c.b1 == c.a1 && c.b2 == c.a2
}

/// Whether the product of a coefficient and a sample cancels against itself:
/// `c * x - c * x` is zero.
pub open spec fn cancels<A: Fn(SampleOp, u32, u32) -> u32>(arith: A, c: u32, x: u32) -> bool {
    forall|p: u32, q: u32, d: u32|
        gives(arith, SampleOp::Mul, c, x, p) && gives(arith, SampleOp::Mul, c, x, q)
            && #[trigger] gives(arith, SampleOp::Sub, p, q, d) ==> d == SILENCE
}

/// The facts of exact arithmetic that a matched section needs for the input
/// `x`: `1 * x` is `x`, `x + 0` is `x`, `0 + 0` is zero, and the products of
/// `x` with the two shared coefficients cancel.
pub open spec fn exact_for<A: Fn(SampleOp, u32, u32) -> u32>(
    arith: A,
    section: Biquad,
    x: u32,
) -> bool {
    &&& forall|r: u32| #[trigger] gives(arith, SampleOp::Mul, UNITY, x, r) ==> r == x
    &&& forall|r: u32| #[trigger] gives(arith, SampleOp::Add, x, SILENCE, r) ==> r == x
    &&& forall|r: u32| #[trigger] gives(arith, SampleOp::Add, SILENCE, SILENCE, r) ==> r == SILENCE
    &&& cancels(arith, section.b1, x)
    &&& cancels(arith, section.b2, x)
}

/// The values of the arguments of an operation whose value is `word`.
proof fn lemma_arguments<A: Fn(SampleOp, u32, u32) -> u32>(
    arith: A,
    op: SampleOp,
    left: Term,
    right: Term,
    word: u32,
) -> (values: (u32, u32))
    requires
        denotes(arith, Term::Apply(op, Box::new(left), Box::new(right)), word),
    ensures
        denotes(arith, left, values.0),
        denotes(arith, right, values.1),
        gives(arith, op, values.0, values.1, word),
{
    choose|a: u32, b: u32|
        denotes(arith, left, a) && denotes(arith, right, b) && #[trigger] gives(
            arith,
            op,
            a,
            b,
            word,
        )
}

/// Under arithmetic that is a function a formula has one value.
pub proof fn lemma_one_value<A: Fn(SampleOp, u32, u32) -> u32>(
    arith: A,
    term: Term,
    v1: u32,
    v2: u32,
)
    requires
        functional(arith),
        denotes(arith, term, v1),
        denotes(arith, term, v2),
    ensures
        v1 == v2,
    decreases term,
{
    match term {
        Term::Word(_) => {},
        Term::Apply(op, left, right) => {
            let first = lemma_arguments(arith, op, *left, *right, v1);
            let second = lemma_arguments(arith, op, *left, *right, v2);
            lemma_one_value(arith, *left, first.0, second.0);
            lemma_one_value(arith, *right, first.1, second.1);
        },
    }
}

/// A matched section with cleared memory hands its input on and keeps its
/// memory cleared, where the arithmetic is exact for that input.
pub proof fn lemma_matched_section_passes<A: Fn(SampleOp, u32, u32) -> u32>(
    arith: A,
    section: Biquad,
    x: u32,
    y: u32,
    after: Biquad,
)
    requires
        matched(section.coefficients()),
        section == section.cleared(),
        exact_for(arith, section, x),
        section_step(arith, section, x, y, after),
    ensures
        y == x,
        after == section,
{
    let b0 = Term::Word(section.b0);
    let input = Term::Word(x);
    let sums = lemma_arguments(arith, SampleOp::Add, b0.times(input), Term::Word(section.z1), y);
    let feed = lemma_arguments(arith, SampleOp::Mul, b0, input, sums.0);
    assert(sums.0 == x);
    assert(y == x);

    let forward = Term::Word(section.b1).times(input);
    let back = Term::Word(section.a1).times(Term::Word(y));
    let first = lemma_arguments(
        arith,
        SampleOp::Add,
        forward.minus(back),
        Term::Word(section.z2),
        after.z1,
    );
    let difference = lemma_arguments(arith, SampleOp::Sub, forward, back, first.0);
    let p = lemma_arguments(arith, SampleOp::Mul, Term::Word(section.b1), input, difference.0);
    let q = lemma_arguments(
        arith,
        SampleOp::Mul,
        Term::Word(section.a1),
        Term::Word(y),
        difference.1,
    );
    assert(first.0 == SILENCE);
    assert(after.z1 == SILENCE);

    let forward = Term::Word(section.b2).times(input);
    let back = Term::Word(section.a2).times(Term::Word(y));
    let second = lemma_arguments(arith, SampleOp::Sub, forward, back, after.z2);
    let p = lemma_arguments(arith, SampleOp::Mul, Term::Word(section.b2), input, second.0);
    let q = lemma_arguments(arith, SampleOp::Mul, Term::Word(section.a2), Term::Word(y), second.1);
    assert(after.z2 == SILENCE);
}

/// A chain of matched sections with cleared memory hands its input on and
/// stays as it is, where the arithmetic is exact for that input at every
/// section.
pub proof fn lemma_matched_chain_passes<A: Fn(SampleOp, u32, u32) -> u32>(
    arith: A,
    before: Seq<Biquad>,
    after: Seq<Biquad>,
    signal: Seq<u32>,
)
    requires
        cascade(arith, before, after, signal),
        forall|i: int|
            0 <= i < before.len() ==> matched((#[trigger] before[i]).coefficients()) && before[i]
                == before[i].cleared() && exact_for(arith, before[i], signal[0]),
    ensures
        signal.last() == signal.first(),
        after == before,
{
    lemma_chain_prefix(arith, before, after, signal, before.len() as int);
    assert(after =~= before) by {
        assert forall|i: int| 0 <= i < before.len() implies after[i] == before[i] by {
            lemma_chain_prefix(arith, before, after, signal, i + 1);
        }
    }
}

proof fn lemma_chain_prefix<A: Fn(SampleOp, u32, u32) -> u32>(
    arith: A,
    before: Seq<Biquad>,
    after: Seq<Biquad>,
    signal: Seq<u32>,
    upto: int,
)
    requires
        cascade(arith, before, after, signal),
        forall|i: int|
            0 <= i < before.len() ==> matched((#[trigger] before[i]).coefficients()) && before[i]
                == before[i].cleared() && exact_for(arith, before[i], signal[0]),
        0 <= upto <= before.len(),
    ensures
        signal[upto] == signal[0],
        upto > 0 ==> after[upto - 1] == before[upto - 1],
    decreases upto,
{
    if upto > 0 {
        lemma_chain_prefix(arith, before, after, signal, upto - 1);
        let i = upto - 1;
        assert(section_step(arith, before[i], signal[i], signal[i + 1], after[i]));
        assert(matched(before[i].coefficients()));
        lemma_matched_section_passes(arith, before[i], signal[i], signal[i + 1], after[i]);
    }
}

/// The facts of exact arithmetic that a peaking band without gain needs:
/// `0 / 40` is zero and `10^0` is one, multiplying and dividing the value of
/// `alpha` by one leaves it as it is, and the value of `a0` divided by itself
/// is one.
pub open spec fn exact_without_gain<A: Fn(SampleOp, u32, u32) -> u32>(
    arith: A,
    band: EqBandSpec,
    sample_rate: u32,
) -> bool {
    &&& forall|r: u32| #[trigger] gives(arith, SampleOp::Div, SILENCE, FORTY, r) ==> r == SILENCE
    &&& forall|r: u32| #[trigger] gives(arith, SampleOp::Pow, TEN, SILENCE, r) ==> r == UNITY
    &&& forall|v: u32, r: u32|
        denotes(arith, alpha(band, sample_rate), v) && #[trigger] gives(
            arith,
            SampleOp::Mul,
            v,
            UNITY,
            r,
        ) ==> r == v
    &&& forall|v: u32, r: u32|
        denotes(arith, alpha(band, sample_rate), v) && #[trigger] gives(
            arith,
            SampleOp::Div,
            v,
            UNITY,
            r,
        ) ==> r == v
    &&& forall|v: u32, r: u32|
        denotes(arith, peaking_terms(band, sample_rate).a0, v) && #[trigger] gives(
            arith,
            SampleOp::Div,
            v,
            v,
            r,
        ) ==> r == UNITY
}

/// The value of `alpha * A` or `alpha / A` for a gain of zero decibels is the
/// value of `alpha`.
proof fn lemma_scaled_alpha<A: Fn(SampleOp, u32, u32) -> u32>(
    arith: A,
    band: EqBandSpec,
    sample_rate: u32,
    op: SampleOp,
    scaled: u32,
) -> (v: u32)
    requires
        band.gain_db == SILENCE,
        op == SampleOp::Mul || op == SampleOp::Div,
        functional(arith),
        exact_without_gain(arith, band, sample_rate),
        denotes(
            arith,
            Term::Apply(
                op,
                Box::new(alpha(band, sample_rate)),
                Box::new(crate::eq::linear_gain(band)),
            ),
            scaled,
        ),
    ensures
        denotes(arith, alpha(band, sample_rate), v),
        scaled == v,
{
    let parts = lemma_arguments(
        arith,
        op,
        alpha(band, sample_rate),
        crate::eq::linear_gain(band),
        scaled,
    );
    let exponent = Term::Word(band.gain_db).over(Term::Word(FORTY));
    let power = lemma_arguments(arith, SampleOp::Pow, Term::Word(TEN), exponent, parts.1);
    let quotient = lemma_arguments(
        arith,
        SampleOp::Div,
        Term::Word(band.gain_db),
        Term::Word(FORTY),
        power.1,
    );
    assert(power.1 == SILENCE);
    assert(parts.1 == UNITY);
    parts.0
}

/// A peaking band with a gain of zero decibels has matched coefficients,
/// where the arithmetic is a function and exact on the operations involved.
pub proof fn lemma_peaking_without_gain_is_matched<A: Fn(SampleOp, u32, u32) -> u32>(
    arith: A,
    band: EqBandSpec,
    sample_rate: u32,
    c: Coefficients,
)
    requires
        band.shape == BandShape::Peaking,
        band.gain_db == SILENCE,
        functional(arith),
        exact_without_gain(arith, band, sample_rate),
        derived(arith, band, sample_rate, c),
    ensures
        matched(c),
{
    let terms = peaking_terms(band, sample_rate);
    let one = Term::Word(UNITY);
    let alpha = alpha(band, sample_rate);
    let gain = crate::eq::linear_gain(band);

    // b1 and a1 are the value of one formula.
    lemma_one_value(arith, terms.b1.over(terms.a0), c.b1, c.a1);

    // b0 is the value of a0 divided by itself.
    let b0 = lemma_arguments(arith, SampleOp::Div, terms.b0, terms.a0, c.b0);
    let above = lemma_arguments(arith, SampleOp::Add, one, alpha.times(gain), b0.0);
    let below = lemma_arguments(arith, SampleOp::Add, one, alpha.over(gain), b0.1);
    let boosted = lemma_scaled_alpha(arith, band, sample_rate, SampleOp::Mul, above.1);
    let cut = lemma_scaled_alpha(arith, band, sample_rate, SampleOp::Div, below.1);
    lemma_one_value(arith, alpha, boosted, cut);
    assert(b0.0 == b0.1);
    assert(c.b0 == UNITY);

    // b2 and a2 are the same difference over the same a0.
    let b2 = lemma_arguments(arith, SampleOp::Div, terms.b2, terms.a0, c.b2);
    let a2 = lemma_arguments(arith, SampleOp::Div, terms.a2, terms.a0, c.a2);
    let upper = lemma_arguments(arith, SampleOp::Sub, one, alpha.times(gain), b2.0);
    let lower = lemma_arguments(arith, SampleOp::Sub, one, alpha.over(gain), a2.0);
    let boosted = lemma_scaled_alpha(arith, band, sample_rate, SampleOp::Mul, upper.1);
    let cut = lemma_scaled_alpha(arith, band, sample_rate, SampleOp::Div, lower.1);
    lemma_one_value(arith, alpha, boosted, cut);
    assert(b2.0 == a2.0);
    lemma_one_value(arith, terms.a0, b2.1, a2.1);
    assert(c.b2 == c.a2);
}

/// The section of a band of unknown shape is matched and has cleared memory.
pub proof fn lemma_unknown_shape_is_matched<A: Fn(SampleOp, u32, u32) -> u32>(
    arith: A,
    band: EqBandSpec,
    sample_rate: u32,
    c: Coefficients,
)
    requires
        band.shape == BandShape::Unknown,
        derived(arith, band, sample_rate, c),
    ensures
        matched(c),
        c == Coefficients::identity(),
        Biquad::fresh(c) == Biquad::fresh(c).cleared(),
{
}

} // verus!
