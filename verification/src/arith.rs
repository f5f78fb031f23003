//! Arithmetic on sample values, supplied by the caller.
//!
//! The values behind the sample words are floating-point numbers. The
//! operations on them come into this crate as one function from an operation
//! and two words to the word of the result. A formula over sample values is a
//! [`Term`], and [`denotes`] says that a word is the value of a term under
//! the supplied arithmetic: each operation of the term was applied, innermost
//! first, to the values of its arguments.

use vstd::prelude::*;

verus! {

/// The word of two.
pub const TWO: u32 = 0x4000_0000;

/// The word of three.
pub const THREE: u32 = 0x4040_0000;

/// The word of minus two.
pub const MINUS_TWO: u32 = 0xc000_0000;

/// The word of ten.
pub const TEN: u32 = 0x4120_0000;

/// The word of forty.
pub const FORTY: u32 = 0x4220_0000;

/// The word of the single-precision value nearest to the circle constant.
pub const PI: u32 = 0x4049_0fdb;

/// The operations on sample values that the crate needs. `Pow` raises its
/// first argument to the power of its second. `Sin`, `Cos` and `Sqrt` take
/// one argument, the first; their second is not read. `FromWhole` gives the
/// sample value nearest to a whole number: its first argument is that number
/// itself, not a word, and its second is not read.
#[derive(Clone, Copy, PartialEq, Eq, Structural, Debug)]
pub enum SampleOp {
    Add,
    Sub,
    Mul,
    Div,
    Pow,
    Sin,
    Cos,
    Sqrt,
    FromWhole,
}

/// Whether `result` is what the supplied arithmetic gives for `op` on `a`
/// and `b`.
pub open spec fn gives<A: Fn(SampleOp, u32, u32) -> u32>(
    arith: A,
    op: SampleOp,
    a: u32,
    b: u32,
    result: u32,
) -> bool {
    call_ensures(arith, (op, a, b), result)
}

/// Whether the supplied arithmetic takes every pair of words for every
/// operation.
pub open spec fn total<A: Fn(SampleOp, u32, u32) -> u32>(arith: A) -> bool {
    forall|op: SampleOp, a: u32, b: u32| call_requires(arith, (op, a, b))
}

/// A formula over sample values: a word, or an operation on two formulas.
pub enum Term {
    Word(u32),
    Apply(SampleOp, Box<Term>, Box<Term>),
}

impl Term {
    pub open spec fn plus(self, other: Term) -> Term {
        Term::Apply(SampleOp::Add, Box::new(self), Box::new(other))
    }

    pub open spec fn minus(self, other: Term) -> Term {
        Term::Apply(SampleOp::Sub, Box::new(self), Box::new(other))
    }

    pub open spec fn times(self, other: Term) -> Term {
        Term::Apply(SampleOp::Mul, Box::new(self), Box::new(other))
    }

    pub open spec fn over(self, other: Term) -> Term {
        Term::Apply(SampleOp::Div, Box::new(self), Box::new(other))
    }

    pub open spec fn to_the(self, exponent: Term) -> Term {
        Term::Apply(SampleOp::Pow, Box::new(self), Box::new(exponent))
    }

    pub open spec fn sin(self) -> Term {
        Term::Apply(SampleOp::Sin, Box::new(self), Box::new(Term::Word(0)))
    }

    pub open spec fn cos(self) -> Term {
        Term::Apply(SampleOp::Cos, Box::new(self), Box::new(Term::Word(0)))
    }

    pub open spec fn sqrt(self) -> Term {
        Term::Apply(SampleOp::Sqrt, Box::new(self), Box::new(Term::Word(0)))
    }
}

/// Whether `word` is the value of `term` under the supplied arithmetic.
pub open spec fn denotes<A: Fn(SampleOp, u32, u32) -> u32>(arith: A, term: Term, word: u32) -> bool
    decreases term,
{
    match term {
        Term::Word(w) => word == w,
        Term::Apply(op, left, right) => exists|a: u32, b: u32|
            {
                &&& denotes(arith, *left, a)
                &&& denotes(arith, *right, b)
                &&& #[trigger] gives(arith, op, a, b, word)
            },
    }
}

/// A word together with the formula that it is the value of.
pub struct Valued {
    pub word: u32,
    pub term: Ghost<Term>,
}

impl Valued {
    /// Whether the word is the value of the formula.
    pub open spec fn holds<A: Fn(SampleOp, u32, u32) -> u32>(self, arith: A) -> bool {
        denotes(arith, self.term@, self.word)
    }

    /// A word as its own formula.
    pub fn of(word: u32) -> (v: Valued)
        ensures
            v.word == word,
            v.term@ == Term::Word(word),
    {
        Valued { word, term: Ghost(Term::Word(word)) }
    }

    /// Applies an operation of one argument to a value.
    pub fn map<A>(arith: &A, op: SampleOp, argument: &Valued) -> (v: Valued) where
        A: Fn(SampleOp, u32, u32) -> u32,

        requires
            total(*arith),
            argument.holds(*arith),
        ensures
            v.term@ == Term::Apply(op, Box::new(argument.term@), Box::new(Term::Word(0))),
            v.holds(*arith),
    {
        let unread = Valued::of(0);
        Valued::apply(arith, op, argument, &unread)
    }

    /// Applies an operation to two values.
    pub fn apply<A>(arith: &A, op: SampleOp, left: &Valued, right: &Valued) -> (v: Valued) where
        A: Fn(SampleOp, u32, u32) -> u32,

        requires
            total(*arith),
            left.holds(*arith),
            right.holds(*arith),
        ensures
            v.term@ == Term::Apply(op, Box::new(left.term@), Box::new(right.term@)),
            v.holds(*arith),
    {
        let word = arith(op, left.word, right.word);
        assert(gives(*arith, op, left.word, right.word, word));
        Valued {
            word,
            term: Ghost(Term::Apply(op, Box::new(left.term@), Box::new(right.term@))),
        }
    }
}

} // verus!
