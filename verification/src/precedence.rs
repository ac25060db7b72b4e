//! Binding power of operators, lowest first.
use vstd::prelude::*;

verus! {

/// How tightly an operator binds. The variants are listed from the loosest
/// to the tightest.
#[derive(Debug, Clone, Copy, PartialEq, Eq, PartialOrd, Ord, Structural)]
pub enum Precedence {
    Lowest,
    Equals,
    LessGreater,
    Sum,
    Product,
    Prefix,
    Call,
    Index,
}

impl Precedence {
    /// Position in the order from loosest (0) to tightest (7).
    pub open spec fn level(self) -> nat {
        match self {
            Precedence::Lowest => 0,
            Precedence::Equals => 1,
            Precedence::LessGreater => 2,
            Precedence::Sum => 3,
            Precedence::Product => 4,
            Precedence::Prefix => 5,
            Precedence::Call => 6,
            Precedence::Index => 7,
        }
    }

    /// Position in the order from loosest (0) to tightest (7).
    pub fn rank(&self) -> (r: u8)
        ensures
            r == self.level(),
    {
        match self {
            Precedence::Lowest => 0,
            Precedence::Equals => 1,
            Precedence::LessGreater => 2,
            Precedence::Sum => 3,
            Precedence::Product => 4,
            Precedence::Prefix => 5,
            Precedence::Call => 6,
            Precedence::Index => 7,
        }
    }

    /// Whether `self` binds strictly looser than `other`.
    pub fn binds_looser_than(&self, other: &Precedence) -> (r: bool)
        ensures
            r == (self.level() < other.level()),
    {
        self.rank() < other.rank()
    }
}

/// The order of precedence levels is strict and total: of two levels one
/// binds looser than the other, or they are the same level; and a level that
/// binds looser than a second, which binds looser than a third, binds
/// looser than the third.
pub proof fn law_precedence_is_a_strict_total_order(a: Precedence, b: Precedence, c: Precedence)
    ensures
        a.level() < b.level() || b.level() < a.level() || a == b,
        a == b <==> a.level() == b.level(),
        !(a.level() < a.level()),
        a.level() < b.level() && b.level() < c.level() ==> a.level() < c.level(),
        Precedence::Lowest.level() < Precedence::Equals.level() < Precedence::LessGreater.level()
            < Precedence::Sum.level() < Precedence::Product.level() < Precedence::Prefix.level()
            < Precedence::Call.level() < Precedence::Index.level(),
{
}

} // verus!
