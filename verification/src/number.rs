//! Stat values as bit patterns, and the order among them.

use vstd::prelude::*;

verus! {

/// How one number stands to another.
#[derive(Clone, Copy, Debug, PartialEq, Eq, Structural)]
pub enum Relation {
    Less,
    Equal,
    Greater,
    /// At least one of the two is not a number.
    Unordered,
}

impl Relation {
    /// The relation seen from the other side.
    pub open spec fn converse(self) -> Relation {
        match self {
            Relation::Less => Relation::Greater,
            Relation::Greater => Relation::Less,
            Relation::Equal => Relation::Equal,
            Relation::Unordered => Relation::Unordered,
        }
    }
}

/// A stat value: the bit pattern of a double-precision number in the
/// IEEE 754 binary interchange format (one sign bit, eleven exponent bits,
/// fifty-two fraction bits).
///
/// The library never computes with numbers. It stores them, hands them on,
/// and orders them, which the encoding allows on the bits alone.
#[derive(Clone, Copy, Debug, PartialEq, Eq, Structural)]
pub struct Number {
    pub bits: u64,
}

/// The sign bit of a bit pattern.
pub const SIGN_BIT: u64 = 0x8000_0000_0000_0000;

/// The bit pattern of positive infinity: every exponent bit, no fraction bit.
pub const INFINITY_BITS: u64 = 0x7FF0_0000_0000_0000;

/// The bit pattern of negative infinity.
pub const NEG_INFINITY_BITS: u64 = 0xFFF0_0000_0000_0000;

/// The bit pattern of one.
pub const ONE_BITS: u64 = 0x3FF0_0000_0000_0000;

/// The bit pattern of the machine epsilon: the gap between one and the next
/// larger number, two to the power of minus fifty-two.
pub const EPSILON_BITS: u64 = 0x3CB0_0000_0000_0000;

impl Number {
    /// Whether the sign bit is set.
    pub open spec fn is_negative(self) -> bool {
        self.bits >= SIGN_BIT
    }

    /// The bit pattern without its sign bit.
    pub open spec fn magnitude(self) -> int {
        if self.is_negative() {
            self.bits - SIGN_BIT
        } else {
            self.bits as int
        }
    }

    /// Whether the pattern encodes no number: all exponent bits are set and
    /// some fraction bit is.
    pub open spec fn is_nan(self) -> bool {
        self.magnitude() > INFINITY_BITS
    }

    /// An integer that orders the numbers as their values do. Both zeros
    /// get the same rank.
    pub open spec fn rank(self) -> int {
        if self.is_negative() {
            -self.magnitude()
        } else {
            self.magnitude()
        }
    }

    /// How `self` stands to `other` by value.
    pub open spec fn relation_to(self, other: Number) -> Relation {
        if self.is_nan() || other.is_nan() {
            Relation::Unordered
        } else if self.rank() < other.rank() {
            Relation::Less
        } else if self.rank() > other.rank() {
            Relation::Greater
        } else {
            Relation::Equal
        }
    }

    /// The number without its sign.
    pub open spec fn unsigned(self) -> Number {
        Number { bits: self.magnitude() as u64 }
    }

    /// The machine epsilon.
    pub open spec fn epsilon() -> Number {
        Number { bits: EPSILON_BITS }
    }

    /// Zero, with its sign bit clear.
    pub open spec fn zero() -> Number {
        Number { bits: 0 }
    }

    /// One.
    pub open spec fn one() -> Number {
        Number { bits: ONE_BITS }
    }

    /// Positive infinity.
    pub open spec fn infinity() -> Number {
        Number { bits: INFINITY_BITS }
    }

    /// Negative infinity.
    pub open spec fn neg_infinity() -> Number {
        Number { bits: NEG_INFINITY_BITS }
    }

    /// A number stands to itself as equal, unless it is not a number.
    pub proof fn lemma_relation_reflexive(self)
        ensures
            self.relation_to(self) == if self.is_nan() {
                Relation::Unordered
            } else {
                Relation::Equal
            },
    {
    }

    /// Seen from the other side, less is greater and greater is less.
    pub proof fn lemma_relation_converse(self, other: Number)
        ensures
            other.relation_to(self) == self.relation_to(other).converse(),
    {
    }

    /// What is less than something that is less than or equal to a third
    /// is less than the third.
    pub proof fn lemma_relation_transitive(self, middle: Number, other: Number)
        requires
            self.relation_to(middle) == Relation::Less,
            middle.relation_to(other) == Relation::Less || middle.relation_to(other)
                == Relation::Equal,
        ensures
            self.relation_to(other) == Relation::Less,
    {
    }

    /// The two zeros are equal, and the infinities bound every number.
    pub proof fn lemma_relation_extremes(self)
        requires
            !self.is_nan(),
        ensures
            Number::zero().relation_to(Number { bits: SIGN_BIT }) == Relation::Equal,
            Number::neg_infinity().relation_to(self) != Relation::Greater,
            Number::infinity().relation_to(self) != Relation::Less,
            Number::neg_infinity().relation_to(Number::infinity()) == Relation::Less,
    {
    }

    /// The number with the given bit pattern.
    pub fn from_bits(bits: u64) -> (n: Number)
        ensures
            n.bits == bits,
    {
        Number { bits }
    }

    /// The bit pattern of the number.
    pub fn to_bits(self) -> (bits: u64)
        ensures
            bits == self.bits,
    {
        self.bits
    }

    /// The number without its sign: its magnitude.
    pub fn abs(self) -> (magnitude: Number)
        ensures
            magnitude == self.unsigned(),
    {
        if self.bits >= SIGN_BIT {
            Number { bits: self.bits - SIGN_BIT }
        } else {
            self
        }
    }

    /// Compares two numbers by value.
    pub fn relation(self, other: Number) -> (r: Relation)
        ensures
            r == self.relation_to(other),
    {
        let a: u64 = if self.bits >= SIGN_BIT { self.bits - SIGN_BIT } else { self.bits };
        let b: u64 = if other.bits >= SIGN_BIT { other.bits - SIGN_BIT } else { other.bits };
        if a > INFINITY_BITS || b > INFINITY_BITS {
            return Relation::Unordered;
        }
        let a_negative = self.bits >= SIGN_BIT;
        let b_negative = other.bits >= SIGN_BIT;
        if a_negative && !b_negative {
            if a == 0 && b == 0 {
                Relation::Equal
            } else {
                Relation::Less
            }
        } else if !a_negative && b_negative {
            if a == 0 && b == 0 {
                Relation::Equal
            } else {
                Relation::Greater
            }
        } else if a == b {
            Relation::Equal
        } else if (a < b) != a_negative {
            Relation::Less
        } else {
            Relation::Greater
        }
    }
}

} // verus!
