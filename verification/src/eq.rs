//! The equalizer's chain of second-order sections.
//!
//! Coefficients and filter memory are kept as sample words. A section is in
//! transposed direct form II: for an input `x`,
//!
//! ```text
//! y  = b0 * x + z1
//! z1 = b1 * x - a1 * y + z2
//! z2 = b2 * x - a2 * y
//! ```
//!
//! with the operations of the arithmetic that the caller supplies. The
//! coefficients of a band are those of the audio EQ cookbook, each divided by
//! `a0`: with `A = 10^(gain / 40)`, `w0 = 2 pi f0 / rate` and
//! `alpha = sin(w0) / (2 q)`, a peaking band has
//!
//! ```text
//! b0 = 1 + alpha A    b1 = -2 cos(w0)    b2 = 1 - alpha A
//! a0 = 1 + alpha / A  a1 = -2 cos(w0)    a2 = 1 - alpha / A
//! ```
//!
//! and the two shelves have the shelving formulas with `sqrt(A)`. A band of
//! unknown shape becomes the section that passes its input through.

use vstd::prelude::*;
use crate::arith::{
    denotes,
    total,
    SampleOp,
    Term,
    Valued,
    FORTY,
    MINUS_TWO,
    PI,
    TEN,
    THREE,
    TWO,
};
use crate::sample::{below, is_nan, lemma_word_parts, INFINITY_MAGNITUDE, SIGN_BIT, SILENCE, UNITY};

verus! {

/// The shape of an equalizer band.
#[derive(Clone, Copy, PartialEq, Eq, Structural, Debug)]
pub enum BandShape {
    LowShelf,
    Peaking,
    HighShelf,
    /// Any other shape code. Such a band passes its input through.
    Unknown,
}

impl BandShape {
    /// The shape that a numeric code stands for.
    pub open spec fn of_code(code: u8) -> BandShape {
        if code == 0 {
            BandShape::LowShelf
        } else if code == 1 {
            BandShape::Peaking
        } else if code == 2 {
            BandShape::HighShelf
        } else {
            BandShape::Unknown
        }
    }

    pub fn from_code(code: u8) -> (shape: BandShape)
        ensures
            shape == BandShape::of_code(code),
    {
        match code {
            0 => BandShape::LowShelf,
            1 => BandShape::Peaking,
            2 => BandShape::HighShelf,
            _ => BandShape::Unknown,
        }
    }

    /// The shape that a shape code stands for when the code is given as a
    /// sample word: the code is the value cut to a whole number, with zero
    /// for what is negative or no number.
    pub open spec fn of_word(word: u32) -> BandShape {
        if is_nan(word) || below(word, UNITY) {
            BandShape::LowShelf
        } else if below(word, TWO) {
            BandShape::Peaking
        } else if below(word, THREE) {
            BandShape::HighShelf
        } else {
            BandShape::Unknown
        }
    }

    pub fn from_word(word: u32) -> (shape: BandShape)
        ensures
            shape == BandShape::of_word(word),
    {
        proof {
            lemma_word_parts(word);
            lemma_word_parts(UNITY);
            lemma_word_parts(TWO);
            lemma_word_parts(THREE);
        }
        let magnitude: u32 = word & 0x7fff_ffffu32;
        if magnitude > INFINITY_MAGNITUDE || word & SIGN_BIT != 0 || word < UNITY {
            BandShape::LowShelf
        } else if word < TWO {
            BandShape::Peaking
        } else if word < THREE {
            BandShape::HighShelf
        } else {
            BandShape::Unknown
        }
    }

    /// Whether coefficients are derived for this shape.
    pub fn is_known(self) -> (known: bool)
        ensures
            known == (self != BandShape::Unknown),
    {
        match self {
            BandShape::Unknown => false,
            _ => true,
        }
    }
}

/// One band as it is configured: corner or center frequency in hertz, quality
/// factor and gain in decibels, each as a sample word, and the shape.
#[derive(Clone, Copy, PartialEq, Eq, Structural, Debug)]
pub struct EqBandSpec {
    pub frequency_hz: u32,
    pub q: u32,
    pub gain_db: u32,
    pub shape: BandShape,
}

impl EqBandSpec {
    /// The band that four configured numbers stand for, each a sample word:
    /// frequency, quality factor, gain and shape code.
    pub open spec fn of_words(band: [u32; 4]) -> EqBandSpec {
        EqBandSpec {
            frequency_hz: band[0],
            q: band[1],
            gain_db: band[2],
            shape: BandShape::of_word(band[3]),
        }
    }

    pub fn from_words(band: [u32; 4]) -> (spec: EqBandSpec)
        ensures
            spec == EqBandSpec::of_words(band),
    {
        EqBandSpec {
            frequency_hz: band[0],
            q: band[1],
            gain_db: band[2],
            shape: BandShape::from_word(band[3]),
        }
    }
}

/// The five coefficients of a section, already divided by the leading
/// denominator coefficient.
#[derive(Clone, Copy, PartialEq, Eq, Structural, Debug)]
pub struct Coefficients {
    pub b0: u32,
    pub b1: u32,
    pub b2: u32,
    pub a1: u32,
    pub a2: u32,
}

impl Coefficients {
    /// The coefficients of the section that passes its input through: `b0` is
    /// one and the others are zero.
    pub open spec fn identity() -> Coefficients {
        Coefficients { b0: UNITY, b1: SILENCE, b2: SILENCE, a1: SILENCE, a2: SILENCE }
    }
}

/// A second-order section: five coefficients and two registers of filter
/// memory.
#[derive(Clone, Copy, PartialEq, Eq, Structural, Debug)]
pub struct Biquad {
    pub b0: u32,
    pub b1: u32,
    pub b2: u32,
    pub a1: u32,
    pub a2: u32,
    pub z1: u32,
    pub z2: u32,
}

impl Biquad {
    pub open spec fn coefficients(self) -> Coefficients {
        Coefficients { b0: self.b0, b1: self.b1, b2: self.b2, a1: self.a1, a2: self.a2 }
    }

    /// The section with these coefficients and cleared memory.
    pub open spec fn fresh(c: Coefficients) -> Biquad {
        Biquad { b0: c.b0, b1: c.b1, b2: c.b2, a1: c.a1, a2: c.a2, z1: SILENCE, z2: SILENCE }
    }

    /// The section with its memory cleared and its coefficients kept.
    pub open spec fn cleared(self) -> Biquad {
        Biquad { z1: SILENCE, z2: SILENCE, ..self }
    }

    /// A section with the given coefficients and cleared memory.
    pub fn new(b0: u32, b1: u32, b2: u32, a1: u32, a2: u32) -> (section: Biquad)
        ensures
            section == Biquad::fresh(Coefficients { b0, b1, b2, a1, a2 }),
    {
        Biquad { b0, b1, b2, a1, a2, z1: SILENCE, z2: SILENCE }
    }

    /// The section that passes its input through, with cleared memory.
    pub fn identity() -> (section: Biquad)
        ensures
            section == Biquad::fresh(Coefficients::identity()),
    {
        Biquad::new(UNITY, SILENCE, SILENCE, SILENCE, SILENCE)
    }

    /// Runs one sample through the section: gives the output and updates the
    /// two registers, by the difference equation. The coefficients stay as
    /// they are.
    pub fn process<A>(&mut self, x: u32, arith: &A) -> (y: u32) where
        A: Fn(SampleOp, u32, u32) -> u32,

        requires
            total(*arith),
        ensures
            section_step(*arith, *old(self), x, y, *final(self)),
    {
        let input = Valued::of(x);
        let feed = Valued::apply(arith, SampleOp::Mul, &Valued::of(self.b0), &input);
        let output = Valued::apply(arith, SampleOp::Add, &feed, &Valued::of(self.z1));
        let y = Valued::of(output.word);

        let forward = Valued::apply(arith, SampleOp::Mul, &Valued::of(self.b1), &input);
        let back = Valued::apply(arith, SampleOp::Mul, &Valued::of(self.a1), &y);
        let difference = Valued::apply(arith, SampleOp::Sub, &forward, &back);
        let first = Valued::apply(arith, SampleOp::Add, &difference, &Valued::of(self.z2));

        let forward = Valued::apply(arith, SampleOp::Mul, &Valued::of(self.b2), &input);
        let back = Valued::apply(arith, SampleOp::Mul, &Valued::of(self.a2), &y);
        let second = Valued::apply(arith, SampleOp::Sub, &forward, &back);

        self.z1 = first.word;
        self.z2 = second.word;
        output.word
    }

    /// Clears the memory and keeps the coefficients.
    pub fn reset(&mut self)
        ensures
            *final(self) == old(self).cleared(),
    {
        self.z1 = SILENCE;
        self.z2 = SILENCE;
    }
}

/// The output of a section for the input `x`: `b0 * x + z1`.
pub open spec fn output_term(section: Biquad, x: u32) -> Term {
    Term::Word(section.b0).times(Term::Word(x)).plus(Term::Word(section.z1))
}

/// The first register of a section after the input `x` gave the output `y`:
/// `b1 * x - a1 * y + z2`.
pub open spec fn first_register_term(section: Biquad, x: u32, y: u32) -> Term {
    Term::Word(section.b1).times(Term::Word(x)).minus(
        Term::Word(section.a1).times(Term::Word(y)),
    ).plus(Term::Word(section.z2))
}

/// The second register of a section after the input `x` gave the output `y`:
/// `b2 * x - a2 * y`.
pub open spec fn second_register_term(section: Biquad, x: u32, y: u32) -> Term {
    Term::Word(section.b2).times(Term::Word(x)).minus(
        Term::Word(section.a2).times(Term::Word(y)),
    )
}

/// Whether `after` and `y` are what the section `before` makes of the input
/// `x`: the output and both registers follow the difference equation, and the
/// coefficients are kept.
pub open spec fn section_step<A: Fn(SampleOp, u32, u32) -> u32>(
    arith: A,
    before: Biquad,
    x: u32,
    y: u32,
    after: Biquad,
) -> bool {
    &&& denotes(arith, output_term(before, x), y)
    &&& denotes(arith, first_register_term(before, x, y), after.z1)
    &&& denotes(arith, second_register_term(before, x, y), after.z2)
    &&& after.coefficients() == before.coefficients()
}

/// Whether `signal` and `after` are what a chain makes of a sample:
/// `signal[0]` goes into the first section, each section's output is the next
/// one's input, and every section takes its step.
pub open spec fn cascade<A: Fn(SampleOp, u32, u32) -> u32>(
    arith: A,
    before: Seq<Biquad>,
    after: Seq<Biquad>,
    signal: Seq<u32>,
) -> bool {
    &&& after.len() == before.len()
    &&& signal.len() == before.len() + 1
    &&& forall|i: int|
        0 <= i < before.len() ==> section_step(
            arith,
            before[i],
            signal[i],
            signal[i + 1],
            #[trigger] after[i],
        )
}

/// The linear gain of a band: `A = 10^(gain / 40)`.
pub open spec fn linear_gain(band: EqBandSpec) -> Term {
    Term::Word(TEN).to_the(Term::Word(band.gain_db).over(Term::Word(FORTY)))
}

/// The angular frequency of a band: `w0 = 2 pi f0 / rate`.
pub open spec fn angular_frequency(band: EqBandSpec, sample_rate: u32) -> Term {
    Term::Word(TWO).times(Term::Word(PI)).times(Term::Word(band.frequency_hz)).over(
        Term::Word(sample_rate),
    )
}

/// `alpha = sin(w0) / (2 q)`.
pub open spec fn alpha(band: EqBandSpec, sample_rate: u32) -> Term {
    angular_frequency(band, sample_rate).sin().over(Term::Word(TWO).times(Term::Word(band.q)))
}

/// The six coefficients of a band before they are divided by `a0`.
pub struct CookbookTerms {
    pub b0: Term,
    pub b1: Term,
    pub b2: Term,
    pub a0: Term,
    pub a1: Term,
    pub a2: Term,
}

/// The cookbook formulas of a peaking band.
pub open spec fn peaking_terms(band: EqBandSpec, sample_rate: u32) -> CookbookTerms {
    let one = Term::Word(UNITY);
    let gain = linear_gain(band);
    let cos = angular_frequency(band, sample_rate).cos();
    let alpha = alpha(band, sample_rate);
    CookbookTerms {
        b0: one.plus(alpha.times(gain)),
        b1: Term::Word(MINUS_TWO).times(cos),
        b2: one.minus(alpha.times(gain)),
        a0: one.plus(alpha.over(gain)),
        a1: Term::Word(MINUS_TWO).times(cos),
        a2: one.minus(alpha.over(gain)),
    }
}

/// The cookbook formulas of a low shelf, with `A' = A + 1`, `A" = A - 1` and
/// `beta = 2 sqrt(A) alpha`:
///
/// ```text
/// b0 = A (A' - A" cos + beta)    b1 = 2 A (A" - A' cos)    b2 = A (A' - A" cos - beta)
/// a0 = A' + A" cos + beta        a1 = -2 (A" + A' cos)     a2 = A' + A" cos - beta
/// ```
pub open spec fn low_shelf_terms(band: EqBandSpec, sample_rate: u32) -> CookbookTerms {
    let one = Term::Word(UNITY);
    let two = Term::Word(TWO);
    let gain = linear_gain(band);
    let cos = angular_frequency(band, sample_rate).cos();
    let beta = two.times(gain.sqrt()).times(alpha(band, sample_rate));
    let above = gain.plus(one);
    let below = gain.minus(one);
    CookbookTerms {
        b0: gain.times(above.minus(below.times(cos)).plus(beta)),
        b1: two.times(gain).times(below.minus(above.times(cos))),
        b2: gain.times(above.minus(below.times(cos)).minus(beta)),
        a0: above.plus(below.times(cos)).plus(beta),
        a1: Term::Word(MINUS_TWO).times(below.plus(above.times(cos))),
        a2: above.plus(below.times(cos)).minus(beta),
    }
}

/// The cookbook formulas of a high shelf, with `A' = A + 1`, `A" = A - 1` and
/// `beta = 2 sqrt(A) alpha`:
///
/// ```text
/// b0 = A (A' + A" cos + beta)    b1 = -2 A (A" + A' cos)   b2 = A (A' + A" cos - beta)
/// a0 = A' - A" cos + beta        a1 = 2 (A" - A' cos)      a2 = A' - A" cos - beta
/// ```
pub open spec fn high_shelf_terms(band: EqBandSpec, sample_rate: u32) -> CookbookTerms {
    let one = Term::Word(UNITY);
    let two = Term::Word(TWO);
    let gain = linear_gain(band);
    let cos = angular_frequency(band, sample_rate).cos();
    let beta = two.times(gain.sqrt()).times(alpha(band, sample_rate));
    let above = gain.plus(one);
    let below = gain.minus(one);
    CookbookTerms {
        b0: gain.times(above.plus(below.times(cos)).plus(beta)),
        b1: Term::Word(MINUS_TWO).times(gain).times(below.plus(above.times(cos))),
        b2: gain.times(above.plus(below.times(cos)).minus(beta)),
        a0: above.minus(below.times(cos)).plus(beta),
        a1: two.times(below.minus(above.times(cos))),
        a2: above.minus(below.times(cos)).minus(beta),
    }
}

/// Whether `c` holds the coefficients of a band at a sample rate, itself a
/// sample word: each is the value of its cookbook formula divided by `a0`. A
/// band of unknown shape has the pass-through coefficients.
pub open spec fn derived<A: Fn(SampleOp, u32, u32) -> u32>(
    arith: A,
    band: EqBandSpec,
    sample_rate: u32,
    c: Coefficients,
) -> bool {
    match band.shape {
        BandShape::Unknown => c == Coefficients::identity(),
        BandShape::LowShelf => normalized(arith, low_shelf_terms(band, sample_rate), c),
        BandShape::Peaking => normalized(arith, peaking_terms(band, sample_rate), c),
        BandShape::HighShelf => normalized(arith, high_shelf_terms(band, sample_rate), c),
    }
}

/// Whether each of the five coefficients is the value of its formula divided
/// by `a0`.
pub open spec fn normalized<A: Fn(SampleOp, u32, u32) -> u32>(
    arith: A,
    terms: CookbookTerms,
    c: Coefficients,
) -> bool {
    &&& denotes(arith, terms.b0.over(terms.a0), c.b0)
    &&& denotes(arith, terms.b1.over(terms.a0), c.b1)
    &&& denotes(arith, terms.b2.over(terms.a0), c.b2)
    &&& denotes(arith, terms.a1.over(terms.a0), c.a1)
    &&& denotes(arith, terms.a2.over(terms.a0), c.a2)
}

struct Cookbook {
    b0: Valued,
    b1: Valued,
    b2: Valued,
    a0: Valued,
    a1: Valued,
    a2: Valued,
}

impl Cookbook {
    spec fn terms(self) -> CookbookTerms {
        CookbookTerms {
            b0: self.b0.term@,
            b1: self.b1.term@,
            b2: self.b2.term@,
            a0: self.a0.term@,
            a1: self.a1.term@,
            a2: self.a2.term@,
        }
    }

    spec fn holds<A: Fn(SampleOp, u32, u32) -> u32>(self, arith: A) -> bool {
        &&& self.b0.holds(arith)
        &&& self.b1.holds(arith)
        &&& self.b2.holds(arith)
        &&& self.a0.holds(arith)
        &&& self.a1.holds(arith)
        &&& self.a2.holds(arith)
    }
}

fn peaking<A>(arith: &A, gain: &Valued, cos: &Valued, alpha: &Valued) -> (r: Cookbook) where
    A: Fn(SampleOp, u32, u32) -> u32,

    requires
        total(*arith),
        gain.holds(*arith),
        cos.holds(*arith),
        alpha.holds(*arith),
    ensures
        r.holds(*arith),
        r.terms() == (CookbookTerms {
            b0: Term::Word(UNITY).plus(alpha.term@.times(gain.term@)),
            b1: Term::Word(MINUS_TWO).times(cos.term@),
            b2: Term::Word(UNITY).minus(alpha.term@.times(gain.term@)),
            a0: Term::Word(UNITY).plus(alpha.term@.over(gain.term@)),
            a1: Term::Word(MINUS_TWO).times(cos.term@),
            a2: Term::Word(UNITY).minus(alpha.term@.over(gain.term@)),
        }),
{
    let one = Valued::of(UNITY);
    let minus_two = Valued::of(MINUS_TWO);
    let boosted = Valued::apply(arith, SampleOp::Mul, alpha, gain);
    let cut = Valued::apply(arith, SampleOp::Div, alpha, gain);
    Cookbook {
        b0: Valued::apply(arith, SampleOp::Add, &one, &boosted),
        b1: Valued::apply(arith, SampleOp::Mul, &minus_two, cos),
        b2: Valued::apply(arith, SampleOp::Sub, &one, &boosted),
        a0: Valued::apply(arith, SampleOp::Add, &one, &cut),
        a1: Valued::apply(arith, SampleOp::Mul, &minus_two, cos),
        a2: Valued::apply(arith, SampleOp::Sub, &one, &cut),
    }
}

fn shelf<A>(arith: &A, low: bool, gain: &Valued, cos: &Valued, alpha: &Valued) -> (r: Cookbook) where
    A: Fn(SampleOp, u32, u32) -> u32,

    requires
        total(*arith),
        gain.holds(*arith),
        cos.holds(*arith),
        alpha.holds(*arith),
    ensures
        r.holds(*arith),
        ({
            let one = Term::Word(UNITY);
            let two = Term::Word(TWO);
            let beta = two.times(gain.term@.sqrt()).times(alpha.term@);
            let above = gain.term@.plus(one);
            let below = gain.term@.minus(one);
            let cos = cos.term@;
            let gain = gain.term@;
            if low {
                r.terms() == (CookbookTerms {
                    b0: gain.times(above.minus(below.times(cos)).plus(beta)),
                    b1: two.times(gain).times(below.minus(above.times(cos))),
                    b2: gain.times(above.minus(below.times(cos)).minus(beta)),
                    a0: above.plus(below.times(cos)).plus(beta),
                    a1: Term::Word(MINUS_TWO).times(below.plus(above.times(cos))),
                    a2: above.plus(below.times(cos)).minus(beta),
                })
            } else {
                r.terms() == (CookbookTerms {
                    b0: gain.times(above.plus(below.times(cos)).plus(beta)),
                    b1: Term::Word(MINUS_TWO).times(gain).times(below.plus(above.times(cos))),
                    b2: gain.times(above.plus(below.times(cos)).minus(beta)),
                    a0: above.minus(below.times(cos)).plus(beta),
                    a1: two.times(below.minus(above.times(cos))),
                    a2: above.minus(below.times(cos)).minus(beta),
                })
            }
        }),
{
    let one = Valued::of(UNITY);
    let two = Valued::of(TWO);
    let minus_two = Valued::of(MINUS_TWO);
    let root = Valued::map(arith, SampleOp::Sqrt, gain);
    let beta = Valued::apply(
        arith,
        SampleOp::Mul,
        &Valued::apply(arith, SampleOp::Mul, &two, &root),
        alpha,
    );
    let above = Valued::apply(arith, SampleOp::Add, gain, &one);
    let below = Valued::apply(arith, SampleOp::Sub, gain, &one);
    let below_cos = Valued::apply(arith, SampleOp::Mul, &below, cos);
    let above_cos = Valued::apply(arith, SampleOp::Mul, &above, cos);
    // `rising` is A' + A" cos, `falling` is A' - A" cos.
    let rising = Valued::apply(arith, SampleOp::Add, &above, &below_cos);
    let falling = Valued::apply(arith, SampleOp::Sub, &above, &below_cos);
    let sum = Valued::apply(arith, SampleOp::Add, &below, &above_cos);
    let difference = Valued::apply(arith, SampleOp::Sub, &below, &above_cos);
    if low {
        Cookbook {
            b0: Valued::apply(
                arith,
                SampleOp::Mul,
                gain,
                &Valued::apply(arith, SampleOp::Add, &falling, &beta),
            ),
            b1: Valued::apply(
                arith,
                SampleOp::Mul,
                &Valued::apply(arith, SampleOp::Mul, &two, gain),
                &difference,
            ),
            b2: Valued::apply(
                arith,
                SampleOp::Mul,
                gain,
                &Valued::apply(arith, SampleOp::Sub, &falling, &beta),
            ),
            a0: Valued::apply(arith, SampleOp::Add, &rising, &beta),
            a1: Valued::apply(arith, SampleOp::Mul, &minus_two, &sum),
            a2: Valued::apply(arith, SampleOp::Sub, &rising, &beta),
        }
    } else {
        Cookbook {
            b0: Valued::apply(
                arith,
                SampleOp::Mul,
                gain,
                &Valued::apply(arith, SampleOp::Add, &rising, &beta),
            ),
            b1: Valued::apply(
                arith,
                SampleOp::Mul,
                &Valued::apply(arith, SampleOp::Mul, &minus_two, gain),
                &sum,
            ),
            b2: Valued::apply(
                arith,
                SampleOp::Mul,
                gain,
                &Valued::apply(arith, SampleOp::Sub, &rising, &beta),
            ),
            a0: Valued::apply(arith, SampleOp::Add, &falling, &beta),
            a1: Valued::apply(arith, SampleOp::Mul, &two, &difference),
            a2: Valued::apply(arith, SampleOp::Sub, &falling, &beta),
        }
    }
}

/// The coefficients of a band at a sample rate, which is given as a sample
/// word: the cookbook formulas, each divided by `a0`. A band of unknown shape
/// gets the pass-through coefficients.
pub fn biquad_coefficients<A>(band: EqBandSpec, sample_rate: u32, arith: &A) -> (c:
    Coefficients) where A: Fn(SampleOp, u32, u32) -> u32
    requires
        total(*arith),
    ensures
        derived(*arith, band, sample_rate, c),
{
    if !band.shape.is_known() {
        return Coefficients { b0: UNITY, b1: SILENCE, b2: SILENCE, a1: SILENCE, a2: SILENCE };
    }
    let two = Valued::of(TWO);
    let gain = Valued::apply(
        arith,
        SampleOp::Pow,
        &Valued::of(TEN),
        &Valued::apply(arith, SampleOp::Div, &Valued::of(band.gain_db), &Valued::of(FORTY)),
    );
    let w0 = Valued::apply(
        arith,
        SampleOp::Div,
        &Valued::apply(
            arith,
            SampleOp::Mul,
            &Valued::apply(arith, SampleOp::Mul, &two, &Valued::of(PI)),
            &Valued::of(band.frequency_hz),
        ),
        &Valued::of(sample_rate),
    );
    let cos = Valued::map(arith, SampleOp::Cos, &w0);
    let sin = Valued::map(arith, SampleOp::Sin, &w0);
    let alpha = Valued::apply(
        arith,
        SampleOp::Div,
        &sin,
        &Valued::apply(arith, SampleOp::Mul, &two, &Valued::of(band.q)),
    );
    let raw = match band.shape {
        BandShape::LowShelf => shelf(arith, true, &gain, &cos, &alpha),
        BandShape::HighShelf => shelf(arith, false, &gain, &cos, &alpha),
        _ => peaking(arith, &gain, &cos, &alpha),
    };
    Coefficients {
        b0: Valued::apply(arith, SampleOp::Div, &raw.b0, &raw.a0).word,
        b1: Valued::apply(arith, SampleOp::Div, &raw.b1, &raw.a0).word,
        b2: Valued::apply(arith, SampleOp::Div, &raw.b2, &raw.a0).word,
        a1: Valued::apply(arith, SampleOp::Div, &raw.a1, &raw.a0).word,
        a2: Valued::apply(arith, SampleOp::Div, &raw.a2, &raw.a0).word,
    }
}

/// An ordered chain of sections with a bypass switch.
pub struct Eq {
    pub bands: Vec<Biquad>,
    pub enabled: bool,
}

impl Eq {
    /// A chain of the given sections, taken as they are.
    pub fn new(bands: Vec<Biquad>, enabled: bool) -> (eq: Eq)
        ensures
            eq.bands@ == bands@,
            eq.enabled == enabled,
    {
        Eq { bands, enabled }
    }

    /// Runs one sample through every section in chain order, or hands it back
    /// untouched, memory included, while the equalizer is disabled.
    pub fn process<A>(&mut self, sample: u32, arith: &A) -> (out: u32) where
        A: Fn(SampleOp, u32, u32) -> u32,

        requires
            total(*arith),
        ensures
            final(self).enabled == old(self).enabled,
            !old(self).enabled ==> out == sample && final(self).bands@ == old(self).bands@,
            old(self).enabled ==> exists|signal: Seq<u32>|
                {
                    &&& #[trigger] cascade(
                        *arith,
                        old(self).bands@,
                        final(self).bands@,
                        signal,
                    )
                    &&& signal.first() == sample
                    &&& signal.last() == out
                },
    {
        if !self.enabled {
            return sample;
        }
        let ghost before = self.bands@;
        let ghost mut signal: Seq<u32> = seq![sample];
        let count = self.bands.len();
        let mut x = sample;
        let mut index: usize = 0;
        while index < count
            invariant
                index <= count,
                count == before.len(),
                self.bands@.len() == count,
                self.enabled == old(self).enabled,
                total(*arith),
                signal.len() == index + 1,
                signal.first() == sample,
                signal.last() == x,
                forall|i: int| index <= i < count ==> self.bands@[i] == before[i],
                forall|i: int|
                    0 <= i < index ==> section_step(
                        *arith,
                        before[i],
                        signal[i],
                        signal[i + 1],
                        #[trigger] self.bands@[i],
                    ),
            decreases count - index,
        {
            let mut section = self.bands[index];
            let y = section.process(x, arith);
            self.bands[index] = section;
            proof {
                signal = signal.push(y);
            }
            x = y;
            index = index + 1;
        }
        assert(cascade(*arith, before, self.bands@, signal));
        x
    }

    /// Replaces the whole chain and clears the memory of every new section.
    pub fn update_bands(&mut self, bands: Vec<Biquad>)
        ensures
            final(self).enabled == old(self).enabled,
            final(self).bands@.len() == bands@.len(),
            forall|i: int|
                0 <= i < bands@.len() ==> #[trigger] final(self).bands@[i]
                    == bands@[i].cleared(),
    {
        self.bands = bands;
        let count = self.bands.len();
        let mut index: usize = 0;
        while index < count
            invariant
                index <= count,
                count == bands@.len(),
                self.bands@.len() == count,
                self.enabled == old(self).enabled,
                forall|i: int| index <= i < count ==> self.bands@[i] == bands@[i],
                forall|i: int| 0 <= i < index ==> #[trigger] self.bands@[i] == bands@[i].cleared(),
            decreases count - index,
        {
            let mut section = self.bands[index];
            section.reset();
            self.bands[index] = section;
            index = index + 1;
        }
    }

    /// Switches the bypass. The sections and their memory are kept.
    pub fn set_enabled(&mut self, enabled: bool)
        ensures
            final(self).enabled == enabled,
            final(self).bands@ == old(self).bands@,
    {
        self.enabled = enabled;
    }

    /// Builds the chain for a list of configured bands, in their order, at a
    /// sample rate. A band is four sample words, frequency, quality factor,
    /// gain and shape code, and the sample rate is a sample word too. Every
    /// section has the coefficients of its band and cleared memory.
    pub fn from_config<A>(
        eq_bands: Vec<[u32; 4]>,
        enabled: bool,
        sample_rate: u32,
        arith: &A,
    ) -> (eq: Eq) where A: Fn(SampleOp, u32, u32) -> u32
        requires
            total(*arith),
        ensures
            eq.enabled == enabled,
            eq.bands@.len() == eq_bands@.len(),
            forall|i: int|
                0 <= i < eq_bands@.len() ==> section_of(
                    *arith,
                    EqBandSpec::of_words(eq_bands@[i]),
                    sample_rate,
                    #[trigger] eq.bands@[i],
                ),
    {
        let mut bands: Vec<Biquad> = Vec::new();
        let count = eq_bands.len();
        let mut index: usize = 0;
        while index < count
            invariant
                index <= count,
                count == eq_bands@.len(),
                bands@.len() == index,
                total(*arith),
                forall|i: int|
                    0 <= i < index ==> section_of(
                        *arith,
                        EqBandSpec::of_words(eq_bands@[i]),
                        sample_rate,
                        #[trigger] bands@[i],
                    ),
            decreases count - index,
        {
            let band = EqBandSpec::from_words(eq_bands[index]);
            let c = biquad_coefficients(band, sample_rate, arith);
            bands.push(Biquad::new(c.b0, c.b1, c.b2, c.a1, c.a2));
            index = index + 1;
        }
        Eq { bands, enabled }
    }
}

/// Whether a section is the one that a configured band becomes: it has the
/// coefficients of the band and cleared memory.
pub open spec fn section_of<A: Fn(SampleOp, u32, u32) -> u32>(
    arith: A,
    band: EqBandSpec,
    sample_rate: u32,
    section: Biquad,
) -> bool {
    &&& derived(arith, band, sample_rate, section.coefficients())
    &&& section == Biquad::fresh(section.coefficients())
}

/// A chain without sections hands its input on unchanged, and a chain of any
/// length keeps its length and every coefficient.
pub proof fn lemma_cascade_keeps_shape<A: Fn(SampleOp, u32, u32) -> u32>(
    arith: A,
    before: Seq<Biquad>,
    after: Seq<Biquad>,
    signal: Seq<u32>,
)
    requires
        cascade(arith, before, after, signal),
    ensures
        after.len() == before.len(),
        before.len() == 0 ==> signal.first() == signal.last(),
        forall|i: int|
            0 <= i < before.len() ==> (#[trigger] after[i]).coefficients()
                == before[i].coefficients(),
{
}

} // verus!
