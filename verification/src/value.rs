//! The runtime values of the language and the operations on them.
//!
//! A number is a double-precision value. The library holds it as its IEEE 754
//! bit pattern and never computes with it: where two numbers are to be combined,
//! the operation is handed out to the host, which answers with the bit pattern
//! of the result.
use crate::token::{TokenType, TokenView};
use vstd::prelude::*;
use vstd::string::StringExecFns;

verus! {

/// A runtime value: no value, a boolean, a number or a string.
#[derive(Debug, PartialEq, Eq)]
pub enum Variable {
    /// The absence of a value; what a statement evaluates to.
    Void,
    /// A boolean.
    Bool(bool),
    /// A double-precision number, held as its bit pattern.
    Num(u64),
    /// A string.
    Str(String),
}

/// The mathematical value of a [`Variable`].
pub enum Value {
    Void,
    Bool(bool),
    Num(u64),
    Str(Seq<char>),
}

impl View for Variable {
    type V = Value;

    open spec fn view(&self) -> Value {
        match self {
            Variable::Void => Value::Void,
            Variable::Bool(b) => Value::Bool(*b),
            Variable::Num(n) => Value::Num(*n),
            Variable::Str(s) => Value::Str(s@),
        }
    }
}

impl Clone for Variable {
    fn clone(&self) -> (r: Self)
        ensures
            r == *self,
    {
        match self {
            Variable::Void => Variable::Void,
            Variable::Bool(b) => Variable::Bool(*b),
            Variable::Num(n) => Variable::Num(*n),
            Variable::Str(s) => Variable::Str(s.clone()),
        }
    }
}

/// The four arithmetic operators.
#[derive(Debug, Clone, Copy, PartialEq, Eq, Structural)]
pub enum Op {
    Add,
    Sub,
    Mul,
    Div,
}

/// What applying an operator to two values comes to.
#[derive(Debug, PartialEq, Eq)]
pub enum Outcome {
    /// The result, where the library can compute it.
    Value(Variable),
    /// Both operands are numbers: the host is to compute `lhs op rhs` on the two
    /// bit patterns.
    Ask { op: Op, lhs: u64, rhs: u64 },
    /// The operator is not defined on these two kinds of value.
    Mismatch,
}

/// The mathematical value of an [`Outcome`].
pub enum OutcomeView {
    Value(Value),
    Ask { op: Op, lhs: u64, rhs: u64 },
    Mismatch,
}

impl View for Outcome {
    type V = OutcomeView;

    open spec fn view(&self) -> OutcomeView {
        match self {
            Outcome::Value(v) => OutcomeView::Value(v@),
            Outcome::Ask { op, lhs, rhs } => OutcomeView::Ask { op: *op, lhs: *lhs, rhs: *rhs },
            Outcome::Mismatch => OutcomeView::Mismatch,
        }
    }
}

/// The bit pattern of the number zero.
pub const ZERO: u64 = 0;

/// The bit pattern of the number one.
pub const ONE: u64 = 0x3FF0_0000_0000_0000;

/// Whether two values are of the same kind and a variable of the one can take the
/// other: both booleans, both numbers or both strings.
pub open spec fn assignable(target: Value, source: Value) -> bool {
    ||| target is Bool && source is Bool
    ||| target is Num && source is Num
    ||| target is Str && source is Str
}

/// The value that a declaration of type `data_type` without an initializer gives
/// its variable; `None` where the token is no type keyword.
pub open spec fn initial_value(data_type: TokenView) -> Option<Value> {
    match data_type {
        TokenView::NumType => Some(Value::Num(ZERO)),
        TokenView::BoolType => Some(Value::Bool(false)),
        TokenView::StringType => Some(Value::Str(Seq::empty())),
        _ => None,
    }
}

/// The value of the literal token `value` where a variable of type `data_type` is
/// initialized with it. `number` is the bit pattern that the host found for the
/// literal, where it is a numeric literal that denotes a number. `None` where type
/// and literal do not go together.
pub open spec fn literal_value(data_type: TokenView, value: TokenView, number: Option<u64>) -> Option<
    Value,
> {
    match (data_type, value) {
        (TokenView::BoolType, TokenView::True) => Some(Value::Bool(true)),
        (TokenView::BoolType, TokenView::False) => Some(Value::Bool(false)),
        (TokenView::NumType, TokenView::NumValue(_)) => match number {
            Some(bits) => Some(Value::Num(bits)),
            None => None,
        },
        (TokenView::StringType, TokenView::StringValue(s)) => Some(Value::Str(s)),
        _ => None,
    }
}

/// What `lhs op rhs` comes to. Addition of two booleans is their disjunction,
/// addition of two strings their concatenation. Two numbers are handed to the host
/// under every operator. Nothing else is defined.
///
/// That `+` on booleans is a disjunction is a rule of its own and no case of the
/// addition of numbers. Whether the language means it so is an open question.
pub open spec fn combined(op: Op, lhs: Value, rhs: Value) -> OutcomeView {
    match (op, lhs, rhs) {
        (Op::Add, Value::Bool(a), Value::Bool(b)) => OutcomeView::Value(Value::Bool(a || b)),
        (Op::Add, Value::Str(a), Value::Str(b)) => OutcomeView::Value(Value::Str(a + b)),
        (_, Value::Num(a), Value::Num(b)) => OutcomeView::Ask { op, lhs: a, rhs: b },
        _ => OutcomeView::Mismatch,
    }
}

/// The text of a value on the diagnostic channel: a string as it is, a boolean as
/// `true` or `false`, and a number as `digits`, which is the decimal text that the
/// host found for it. The absence of a value has no text.
pub open spec fn rendered(value: Value, digits: Seq<char>) -> Seq<char> {
    match value {
        Value::Void => Seq::empty(),
        Value::Bool(true) => "true"@,
        Value::Bool(false) => "false"@,
        Value::Num(_) => digits,
        Value::Str(s) => s,
    }
}

impl Variable {
    /// Assigns `other` to this variable. The two must be of the same kind, both
    /// booleans, both numbers or both strings; otherwise the variable keeps its
    /// value and the answer is `false`.
    pub fn set(&mut self, other: Variable) -> (done: bool)
        ensures
            done == assignable(old(self)@, other@),
            done ==> final(self)@ == other@,
            !done ==> final(self)@ == old(self)@,
    {
        let fits = match (&*self, &other) {
            (Variable::Bool(_), Variable::Bool(_)) => true,
            (Variable::Num(_), Variable::Num(_)) => true,
            (Variable::Str(_), Variable::Str(_)) => true,
            _ => false,
        };
        if fits {
            *self = other;
        }
        fits
    }

    /// The value that a declaration of type `data_type` without an initializer
    /// gives its variable: zero, `false` or the empty string. `None` where the
    /// token is no type keyword.
    pub fn initial(data_type: &TokenType) -> (r: Option<Variable>)
        ensures
            match r {
                Some(v) => initial_value(data_type@) == Some(v@),
                None => initial_value(data_type@) is None,
            },
    {
        match data_type {
            TokenType::NumType => Some(Variable::Num(ZERO)),
            TokenType::BoolType => Some(Variable::Bool(false)),
            TokenType::StringType => Some(Variable::Str(String::new())),
            _ => None,
        }
    }

    /// The value of the literal token `value` for a variable of type `data_type`.
    /// `number` is the bit pattern that the host found for a numeric literal.
    /// `None` where type and literal do not go together, or where a numeric literal
    /// denotes no number.
    pub fn from_value(data_type: &TokenType, value: &TokenType, number: Option<u64>) -> (r: Option<
        Variable,
    >)
        ensures
            match r {
                Some(v) => literal_value(data_type@, value@, number) == Some(v@),
                None => literal_value(data_type@, value@, number) is None,
            },
    {
        match (data_type, value) {
            (TokenType::BoolType, TokenType::True) => Some(Variable::Bool(true)),
            (TokenType::BoolType, TokenType::False) => Some(Variable::Bool(false)),
            (TokenType::NumType, TokenType::NumValue(_)) => match number {
                Some(bits) => Some(Variable::Num(bits)),
                None => None,
            },
            (TokenType::StringType, TokenType::StringValue(s)) => Some(Variable::Str(s.clone())),
            _ => None,
        }
    }
}

/// Applies the operator `op` to two values, as far as the library can: see
/// [`combined`].
pub fn combine(op: Op, lhs: Variable, rhs: Variable) -> (r: Outcome)
    ensures
        r@ == combined(op, lhs@, rhs@),
{
    match (lhs, rhs) {
        (Variable::Bool(a), Variable::Bool(b)) => match op {
            Op::Add => Outcome::Value(Variable::Bool(a || b)),
            _ => Outcome::Mismatch,
        },
        (Variable::Str(a), Variable::Str(b)) => match op {
            Op::Add => Outcome::Value(Variable::Str(a.concat(b.as_str()))),
            _ => Outcome::Mismatch,
        },
        (Variable::Num(a), Variable::Num(b)) => Outcome::Ask { op, lhs: a, rhs: b },
        _ => Outcome::Mismatch,
    }
}

/// The line that a diagnostic write of `value` puts out: see [`rendered`].
/// `digits` is the decimal text of the number, where the value is one.
pub fn render(value: &Variable, digits: &str) -> (r: String)
    ensures
        r@ == rendered(value@, digits@),
{
    match value {
        Variable::Void => String::new(),
        Variable::Bool(true) => String::from_str("true"),
        Variable::Bool(false) => String::from_str("false"),
        Variable::Num(_) => String::from_str(digits),
        Variable::Str(s) => s.clone(),
    }
}

} // verus!
