use vstd::prelude::*;

use crate::die::Die;
use crate::error::RuleError;

verus! {

/// Division rounding towards negative infinity (`-7 / 2` is `-4`).
pub open spec fn floor_div(a: int, b: int) -> int
    recommends
        b != 0,
{
    if b > 0 {
        a / b
    } else {
        (-a) / (-b)
    }
}

/// An arithmetic operation with a constant operand.
#[derive(Clone, Copy, Debug, PartialEq, Eq, Structural)]
pub enum Arithmetic {
    Add(i32),
    Sub(i32),
    Mul(i32),
    Div(i32),
}

impl Arithmetic {
    /// The operation applied to `x`.
    pub open spec fn spec_apply(self, x: int) -> int {
        match self {
            Arithmetic::Add(c) => x + c,
            Arithmetic::Sub(c) => x - c,
            Arithmetic::Mul(c) => x * c,
            Arithmetic::Div(c) => floor_div(x, c as int),
        }
    }

    /// Whether the operation can be applied at all: no division by zero.
    pub open spec fn is_defined(self) -> bool {
        !(self matches Arithmetic::Div(c) && c == 0)
    }

    pub fn id(&self) -> (r: &'static str)
        ensures
            r@ == arithmetic_id(*self),
    {
        match self {
            Arithmetic::Add(_) => "OPERATIONS::ADD",
            Arithmetic::Sub(_) => "OPERATIONS::SUB",
            Arithmetic::Mul(_) => "OPERATIONS::MUL",
            Arithmetic::Div(_) => "OPERATIONS::DIV",
        }
    }

    pub fn symbol(&self) -> (r: &'static str)
        ensures
            r@ == arithmetic_symbol(*self),
    {
        match self {
            Arithmetic::Add(_) => "+",
            Arithmetic::Sub(_) => "-",
            Arithmetic::Mul(_) => "*",
            Arithmetic::Div(_) => "/",
        }
    }

    /// The operation applied to `x`, with division rounding down.
    pub fn apply(&self, x: i32) -> (r: i32)
        requires
            self.is_defined(),
            i32::MIN <= self.spec_apply(x as int) <= i32::MAX,
        ensures
            r == self.spec_apply(x as int),
    {
        match *self {
            Arithmetic::Add(c) => x + c,
            Arithmetic::Sub(c) => x - c,
            Arithmetic::Mul(c) => x * c,
            Arithmetic::Div(c) => {
                let (a, b) = if c > 0 {
                    (x as i64, c as i64)
                } else {
                    (-(x as i64), -(c as i64))
                };
                match a.checked_div_euclid(b) {
                    Some(q) => q as i32,
                    None => 0,
                }
            },
        }
    }
}

/// The identity string of an arithmetic operation.
pub open spec fn arithmetic_id(op: Arithmetic) -> Seq<char> {
    match op {
        Arithmetic::Add(_) => "OPERATIONS::ADD"@,
        Arithmetic::Sub(_) => "OPERATIONS::SUB"@,
        Arithmetic::Mul(_) => "OPERATIONS::MUL"@,
        Arithmetic::Div(_) => "OPERATIONS::DIV"@,
    }
}

/// The symbol of an arithmetic operation.
pub open spec fn arithmetic_symbol(op: Arithmetic) -> Seq<char> {
    match op {
        Arithmetic::Add(_) => "+"@,
        Arithmetic::Sub(_) => "-"@,
        Arithmetic::Mul(_) => "*"@,
        Arithmetic::Div(_) => "/"@,
    }
}

/// What a modifier does when a roll set is evaluated.
#[derive(Clone, Copy, Debug, PartialEq, Eq, Structural)]
pub enum ModifierKind {
    /// Sums the visible rolls, applies the operation and ends the evaluation.
    Arithmetic(Arithmetic),
    /// Keeps only the highest roll of the dice with this many sides.
    Advantage(usize),
    /// Keeps only the lowest roll of the dice with this many sides.
    Disadvantage(usize),
}

impl ModifierKind {
    pub open spec fn is_defined(self) -> bool {
        self matches ModifierKind::Arithmetic(op) ==> op.is_defined()
    }
}

/// A step of a roll set's modifier chain.
///
/// A division by zero cannot be built: it is refused when the modifier is made.
#[derive(Clone, Copy, Debug)]
pub struct Modifier {
    kind: ModifierKind,
}

impl View for Modifier {
    type V = ModifierKind;

    closed spec fn view(&self) -> ModifierKind {
        self.kind
    }
}

impl Modifier {
    #[verifier::type_invariant]
    spec fn divides_by_nonzero(self) -> bool {
        self.kind.is_defined()
    }

    /// A modifier performing `op`; a division by zero is refused.
    pub fn arithmetic(op: Arithmetic) -> (r: Result<Modifier, RuleError>)
        ensures
            op.is_defined() <==> r is Ok,
            r matches Ok(m) ==> m@ == ModifierKind::Arithmetic(op),
            r matches Err(e) ==> e == RuleError::DivisionByZero,
    {
        match op {
            Arithmetic::Div(0) => Err(RuleError::DivisionByZero),
            _ => Ok(Modifier { kind: ModifierKind::Arithmetic(op) }),
        }
    }

    /// Adds `c` to the total.
    pub fn add(c: i32) -> (r: Modifier)
        ensures
            r@ == ModifierKind::Arithmetic(Arithmetic::Add(c)),
    {
        Modifier { kind: ModifierKind::Arithmetic(Arithmetic::Add(c)) }
    }

    /// Subtracts `c` from the total.
    pub fn sub(c: i32) -> (r: Modifier)
        ensures
            r@ == ModifierKind::Arithmetic(Arithmetic::Sub(c)),
    {
        Modifier { kind: ModifierKind::Arithmetic(Arithmetic::Sub(c)) }
    }

    /// Multiplies the total by `c`.
    pub fn mul(c: i32) -> (r: Modifier)
        ensures
            r@ == ModifierKind::Arithmetic(Arithmetic::Mul(c)),
    {
        Modifier { kind: ModifierKind::Arithmetic(Arithmetic::Mul(c)) }
    }

    /// Divides the total by `c`, rounding down; a zero `c` is refused.
    pub fn div(c: i32) -> (r: Result<Modifier, RuleError>)
        ensures
            c != 0 <==> r is Ok,
            r matches Ok(m) ==> m@ == ModifierKind::Arithmetic(Arithmetic::Div(c)),
            r matches Err(e) ==> e == RuleError::DivisionByZero,
    {
        Modifier::arithmetic(Arithmetic::Div(c))
    }

    /// Advantage on `die`: only the highest roll of that kind of die counts.
    pub fn advantage<T: Die>(die: &T) -> (r: Modifier)
        ensures
            r@ == ModifierKind::Advantage(die.spec_sides()),
    {
        Modifier { kind: ModifierKind::Advantage(die.sides()) }
    }

    /// Disadvantage on `die`: only the lowest roll of that kind of die counts.
    pub fn disadvantage<T: Die>(die: &T) -> (r: Modifier)
        ensures
            r@ == ModifierKind::Disadvantage(die.spec_sides()),
    {
        Modifier { kind: ModifierKind::Disadvantage(die.sides()) }
    }

    /// What the modifier does; never a division by zero.
    pub fn kind(&self) -> (r: ModifierKind)
        ensures
            r == self@,
            r.is_defined(),
    {
        proof {
            use_type_invariant(self);
        }
        self.kind
    }

    /// The modifier's identity string.
    pub fn id(&self) -> (r: &'static str)
        ensures
            r@ == modifier_id(self@),
    {
        match self.kind {
            ModifierKind::Arithmetic(op) => op.id(),
            ModifierKind::Advantage(_) => "5E::ADVANTAGE",
            ModifierKind::Disadvantage(_) => "5E::DISADVANTAGE",
        }
    }

    /// The operation's symbol, for arithmetic modifiers only.
    pub fn symbol(&self) -> (r: Option<&'static str>)
        ensures
            r matches Some(s) <==> self@ is Arithmetic,
            r matches Some(s) ==> s@ == arithmetic_symbol(self@->Arithmetic_0),
    {
        match self.kind {
            ModifierKind::Arithmetic(op) => Some(op.symbol()),
            _ => None,
        }
    }

    /// Whether the modifier produces the total rather than changing the rolls.
    pub fn is_arithmetic(&self) -> (r: bool)
        ensures
            r == self@ is Arithmetic,
    {
        self.symbol().is_some()
    }
}

/// The identity string of a modifier.
pub open spec fn modifier_id(kind: ModifierKind) -> Seq<char> {
    match kind {
        ModifierKind::Arithmetic(op) => arithmetic_id(op),
        ModifierKind::Advantage(_) => "5E::ADVANTAGE"@,
        ModifierKind::Disadvantage(_) => "5E::DISADVANTAGE"@,
    }
}

} // verus!
