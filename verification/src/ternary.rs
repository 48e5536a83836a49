use vstd::prelude::*;

verus! {

/// A balanced ternary digit: -1, 0 or +1.
#[derive(Clone, Copy, Debug, PartialEq, Eq, Hash, Structural)]
pub enum Ternary {
    Neg,
    Zero,
    Pos,
}

impl Ternary {
    /// The integer that this digit stands for.
    pub open spec fn value(self) -> int {
        match self {
            Ternary::Neg => -1,
            Ternary::Zero => 0,
            Ternary::Pos => 1,
        }
    }

    /// The digit whose value is `v`, if `v` is -1, 0 or 1.
    pub open spec fn from_value(v: int) -> Option<Ternary> {
        if v == -1 {
            Some(Ternary::Neg)
        } else if v == 0 {
            Some(Ternary::Zero)
        } else if v == 1 {
            Some(Ternary::Pos)
        } else {
            None
        }
    }

    /// Reads a digit from its integer value; any other integer gives `None`.
    pub fn from_i8(v: i8) -> (r: Option<Self>)
        ensures
            r == Ternary::from_value(v as int),
            r matches Some(t) ==> t.value() == v,
            r is Some <==> -1 <= v <= 1,
    {
        match v {
            -1 => Some(Ternary::Neg),
            0 => Some(Ternary::Zero),
            1 => Some(Ternary::Pos),
            _ => None,
        }
    }

    /// The integer value of the digit.
    pub fn to_i8(self) -> (r: i8)
        ensures
            r as int == self.value(),
    {
        match self {
            Ternary::Neg => -1,
            Ternary::Zero => 0,
            Ternary::Pos => 1,
        }
    }
}

/// Sign multiplication with zero as the absorbing element.
pub open spec fn product(a: Ternary, b: Ternary) -> Ternary {
    match (a, b) {
        (Ternary::Neg, Ternary::Neg) => Ternary::Pos,
        (Ternary::Neg, Ternary::Pos) => Ternary::Neg,
        (Ternary::Pos, Ternary::Neg) => Ternary::Neg,
        (Ternary::Pos, Ternary::Pos) => Ternary::Pos,
        _ => Ternary::Zero,
    }
}

/// Ternary multiplication: the product of the two digits' values.
pub fn ternary_mul(a: Ternary, b: Ternary) -> (r: Ternary)
    ensures
        r == product(a, b),
        r.value() == a.value() * b.value(),
{
    match (a, b) {
        (Ternary::Neg, Ternary::Neg) => Ternary::Pos,
        (Ternary::Neg, Ternary::Pos) => Ternary::Neg,
        (Ternary::Pos, Ternary::Neg) => Ternary::Neg,
        (Ternary::Pos, Ternary::Pos) => Ternary::Pos,
        (_, Ternary::Zero) | (Ternary::Zero, _) => Ternary::Zero,
    }
}

/// Reading a digit back from its integer value gives the same digit, and a digit read
/// from an integer has that integer as its value.
pub proof fn lemma_value_round_trip(t: Ternary, v: int)
    ensures
        Ternary::from_value(t.value()) == Some(t),
        Ternary::from_value(v) matches Some(u) ==> u.value() == v,
{
}

/// The product of two digits has, as its value, the product of their values.
pub proof fn lemma_product_value(a: Ternary, b: Ternary)
    ensures
        product(a, b).value() == a.value() * b.value(),
{
}

/// Ternary multiplication is commutative and associative, has `Pos` as identity and
/// `Zero` as absorbing element, and every non-zero digit is its own inverse.
pub proof fn lemma_product_algebra(a: Ternary, b: Ternary, c: Ternary)
    ensures
        product(a, b) == product(b, a),
        product(product(a, b), c) == product(a, product(b, c)),
        product(Ternary::Pos, a) == a,
        product(a, Ternary::Zero) == Ternary::Zero,
        product(Ternary::Zero, a) == Ternary::Zero,
        a != Ternary::Zero ==> product(a, a) == Ternary::Pos,
{
}

} // verus!
