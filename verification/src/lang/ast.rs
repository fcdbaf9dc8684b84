//! Expressions over integers and registers: their trees and their values.

use crate::error::ErrorKind;
use crate::text::{decimal_bytes, push_char, push_decimal_bytes, utf8_text};
use crate::utils::{Registers, State};
use vstd::prelude::*;
use vstd::string::StrSliceExecFns;
use vstd::string::StringSliceAdditionalSpecFns;
use vstd::utf8::valid_utf8;

verus! {

/// The operators of the language.
#[derive(Debug, Copy, Clone, PartialEq, Eq, Structural)]
pub enum Operator {
    Add,
    And,
    Div,
    Mod,
    Mul,
    Neg,
    Or,
    Sll,
    Slr,
    Sub,
    Xor,
}

/// A node of an expression tree.
#[derive(Debug, PartialEq, Eq)]
pub enum Node {
    /// A register, written with its sigil.
    Reg(String),
    Int(i64),
    UnaryExpression { operator: Operator, child: Box<Node> },
    BinaryExpr { operator: Operator, lhs: Box<Node>, rhs: Box<Node> },
}

/// The model of a [`Node`].
pub enum NodeView {
    Reg(Seq<char>),
    Int(i64),
    Unary(Operator, Box<NodeView>),
    Binary(Operator, Box<NodeView>, Box<NodeView>),
}

/// The model of a node.
pub open spec fn node_view(node: Node) -> NodeView
    decreases node,
{
    match node {
        Node::Reg(name) => NodeView::Reg(name@),
        Node::Int(i) => NodeView::Int(i),
        Node::UnaryExpression { operator, child } => NodeView::Unary(
            operator,
            Box::new(node_view(*child)),
        ),
        Node::BinaryExpr { operator, lhs, rhs } => NodeView::Binary(
            operator,
            Box::new(node_view(*lhs)),
            Box::new(node_view(*rhs)),
        ),
    }
}

impl View for Node {
    type V = NodeView;

    open spec fn view(&self) -> NodeView {
        node_view(*self)
    }
}

/// The value of an expression.
pub enum NodeResult {
    Int(i64),
    Bytes(Vec<u8>),
}

/// The model of a [`NodeResult`].
pub enum Value {
    Int(i64),
    Bytes(Seq<u8>),
}

impl View for NodeResult {
    type V = Value;

    open spec fn view(&self) -> Value {
        match self {
            NodeResult::Int(i) => Value::Int(*i),
            NodeResult::Bytes(b) => Value::Bytes(b@),
        }
    }
}

/// The number that a string of decimal digits stands for; nothing where the
/// string is empty or holds anything but digits.
pub open spec fn digits_value(digits: Seq<u8>) -> Option<nat>
    decreases digits.len(),
{
    if digits.len() == 0 {
        None
    } else if !(48 <= digits.last() <= 57) {
        None
    } else if digits.len() == 1 {
        Some((digits.last() - 48) as nat)
    } else {
        match digits_value(digits.drop_last()) {
            Some(front) => Some(front * 10 + (digits.last() - 48) as nat),
            None => None,
        }
    }
}

/// The integer that a text stands for: decimal digits after an optional
/// sign, within the range of 64 bits.
pub open spec fn integer_value(text: Seq<u8>) -> Option<i64> {
    if text.len() > 0 && text[0] == 45 {
        match digits_value(text.skip(1)) {
            Some(v) => if v <= 0x8000_0000_0000_0000 {
                Some((-(v as int)) as i64)
            } else {
                None
            },
            None => None,
        }
    } else {
        match digits_value(
            if text.len() > 0 && text[0] == 43 {
                text.skip(1)
            } else {
                text
            },
        ) {
            Some(v) => if v <= i64::MAX {
                Some(v as i64)
            } else {
                None
            },
            None => None,
        }
    }
}

/// A string of digits with more digits behind it stands for no less.
pub proof fn lemma_digits_grow(digits: Seq<u8>, upto: int)
    requires
        0 < upto <= digits.len(),
        digits_value(digits) is Some,
    ensures
        digits_value(digits.take(upto)) is Some,
        digits_value(digits.take(upto)).unwrap() <= digits_value(digits).unwrap(),
    decreases digits.len(),
{
    if upto < digits.len() {
        assert(digits.drop_last().take(upto) =~= digits.take(upto));
        lemma_digits_grow(digits.drop_last(), upto);
    } else {
        assert(digits.take(upto) =~= digits);
    }
}

/// Reads decimal digits; `None` where `digits` is empty, holds anything but
/// digits, or stands for more than `limit`.
pub fn read_digits(digits: &[u8], limit: u64) -> (value: Option<u64>)
    ensures
        value == match digits_value(digits@) {
            Some(v) => if v <= limit {
                Some(v as u64)
            } else {
                None
            },
            None => None,
        },
{
    if digits.len() == 0 {
        return None;
    }
    let mut acc: u64 = 0;
    let mut i: usize = 0;
    while i < digits.len()
        invariant
            i <= digits.len(),
            acc <= limit,
            i > 0 ==> digits_value(digits@.take(i as int)) == Some(acc as nat),
            i == 0 ==> acc == 0,
        decreases digits.len() - i,
    {
        let d = digits[i];
        proof {
            assert(digits@.take(i + 1).drop_last() =~= digits@.take(i as int));
        }
        if d < 48 || d > 57 {
            proof {
                lemma_digits_bad(digits@, i as int);
            }
            return None;
        }
        let next: u128 = acc as u128 * 10 + (d - 48) as u128;
        if next > limit as u128 {
            proof {
                if digits_value(digits@) is Some {
                    lemma_digits_grow(digits@, i + 1);
                }
            }
            return None;
        }
        acc = next as u64;
        i += 1;
    }
    assert(digits@.take(digits.len() as int) =~= digits@);
    Some(acc)
}

/// A string with a byte that is no digit stands for nothing.
pub proof fn lemma_digits_bad(digits: Seq<u8>, at: int)
    requires
        0 <= at < digits.len(),
        !(48 <= digits[at] <= 57),
    ensures
        digits_value(digits) is None,
    decreases digits.len(),
{
    if at < digits.len() - 1 {
        lemma_digits_bad(digits.drop_last(), at);
    }
}

/// Reads an integer: decimal digits after an optional sign.
pub fn read_integer(text: &[u8]) -> (value: Option<i64>)
    ensures
        value == integer_value(text@),
{
    if text.len() > 0 && text[0] == 45 {
        let digits = vstd::slice::slice_subrange(text, 1, text.len());
        match read_digits(digits, 0x8000_0000_0000_0000) {
            Some(v) => if v == 0x8000_0000_0000_0000 {
                Some(i64::MIN)
            } else {
                Some(-(v as i64))
            },
            None => None,
        }
    } else {
        let digits = if text.len() > 0 && text[0] == 43 {
            vstd::slice::slice_subrange(text, 1, text.len())
        } else {
            text
        };
        match read_digits(digits, 0x7fff_ffff_ffff_ffff) {
            Some(v) => Some(v as i64),
            None => None,
        }
    }
}

/// A value as an integer: an integer is itself, bytes are read as the text
/// of one.
pub open spec fn value_as_int(value: Value) -> Result<i64, ErrorKind> {
    match value {
        Value::Int(i) => Ok(i),
        Value::Bytes(b) => if !valid_utf8(b) {
            Err(ErrorKind::InvalidUtf8)
        } else {
            match integer_value(b) {
                Some(i) => Ok(i),
                None => Err(ErrorKind::InvalidNumber),
            }
        },
    }
}

impl NodeResult {
    /// The value as an integer.
    pub fn as_int(self) -> (number: Result<i64, ErrorKind>)
        ensures
            number == value_as_int(self@),
    {
        match self {
            NodeResult::Int(i) => Ok(i),
            NodeResult::Bytes(b) => match utf8_text(b.as_slice()) {
                None => Err(ErrorKind::InvalidUtf8),
                Some(_) => match read_integer(b.as_slice()) {
                    Some(i) => Ok(i),
                    None => Err(ErrorKind::InvalidNumber),
                },
            },
        }
    }
}

/// What a unary operator makes of an integer: itself, its negation, or its
/// bitwise complement.  Negation must not overflow; no other operator is unary.
pub open spec fn apply_unary(operator: Operator, child: i64) -> Result<i64, ErrorKind> {
    match operator {
        Operator::Add => Ok(child),
        Operator::Sub => if child == i64::MIN {
            Err(ErrorKind::ArithmeticError)
        } else {
            Ok((-child) as i64)
        },
        Operator::Neg => Ok(!child),
        _ => Err(ErrorKind::InvalidOperator),
    }
}

/// The result of a checked operation.
pub open spec fn checked(result: Option<i64>) -> Result<i64, ErrorKind> {
    match result {
        Some(v) => Ok(v),
        None => Err(ErrorKind::ArithmeticError),
    }
}

/// What a binary operator makes of two integers.  Sums, differences and
/// products must not overflow; division truncates towards zero and must not
/// divide by zero; shifts must be by less than 64 bits.  Negation is not
/// binary.
pub open spec fn apply_binary(operator: Operator, lhs: i64, rhs: i64) -> Result<i64, ErrorKind> {
    match operator {
        Operator::Add => checked(lhs.checked_add(rhs)),
        Operator::Sub => checked(lhs.checked_sub(rhs)),
        Operator::Mul => checked(lhs.checked_mul(rhs)),
        Operator::Div => checked(lhs.checked_div(rhs)),
        Operator::Mod => checked(lhs.checked_rem(rhs)),
        Operator::And => Ok(lhs & rhs),
        Operator::Or => Ok(lhs | rhs),
        Operator::Xor => Ok(lhs ^ rhs),
        Operator::Sll => if 0 <= rhs < 64 {
            Ok(lhs << rhs)
        } else {
            Err(ErrorKind::ArithmeticError)
        },
        Operator::Slr => if 0 <= rhs < 64 {
            Ok(lhs >> rhs)
        } else {
            Err(ErrorKind::ArithmeticError)
        },
        Operator::Neg => Err(ErrorKind::InvalidOperator),
    }
}

/// Applies a unary operator.
pub fn unary(operator: Operator, child: i64) -> (value: Result<i64, ErrorKind>)
    ensures
        value == apply_unary(operator, child),
{
    match operator {
        Operator::Add => Ok(child),
        Operator::Sub => if child == i64::MIN {
            Err(ErrorKind::ArithmeticError)
        } else {
            Ok(-child)
        },
        Operator::Neg => Ok(!child),
        _ => Err(ErrorKind::InvalidOperator),
    }
}

fn check(result: Option<i64>) -> (value: Result<i64, ErrorKind>)
    ensures
        value == checked(result),
{
    match result {
        Some(v) => Ok(v),
        None => Err(ErrorKind::ArithmeticError),
    }
}

/// Applies a binary operator.
pub fn binary(operator: Operator, lhs: i64, rhs: i64) -> (value: Result<i64, ErrorKind>)
    ensures
        value == apply_binary(operator, lhs, rhs),
{
    match operator {
        Operator::Add => check(lhs.checked_add(rhs)),
        Operator::Sub => check(lhs.checked_sub(rhs)),
        Operator::Mul => check(lhs.checked_mul(rhs)),
        Operator::Div => check(lhs.checked_div(rhs)),
        Operator::Mod => check(lhs.checked_rem(rhs)),
        Operator::And => Ok(lhs & rhs),
        Operator::Or => Ok(lhs | rhs),
        Operator::Xor => Ok(lhs ^ rhs),
        Operator::Sll => if 0 <= rhs && rhs < 64 {
            Ok(lhs << rhs)
        } else {
            Err(ErrorKind::ArithmeticError)
        },
        Operator::Slr => if 0 <= rhs && rhs < 64 {
            Ok(lhs >> rhs)
        } else {
            Err(ErrorKind::ArithmeticError)
        },
        Operator::Neg => Err(ErrorKind::InvalidOperator),
    }
}

/// The value of an expression over the registers: an integer is itself, a
/// register is its content, looked up by its name without the sigil, and an
/// operator is applied to the integers that its operands stand for, the left
/// one first.
pub open spec fn eval(node: NodeView, registers: Map<Seq<char>, Seq<u8>>) -> Result<
    Value,
    ErrorKind,
>
    decreases node,
{
    match node {
        NodeView::Int(x) => Ok(Value::Int(x)),
        NodeView::Reg(x) => if x.len() > 0 && registers.contains_key(x.skip(1)) {
            Ok(Value::Bytes(registers[x.skip(1)]))
        } else {
            Err(ErrorKind::InvalidRegister)
        },
        NodeView::Unary(operator, child) => match eval(*child, registers) {
            Err(e) => Err(e),
            Ok(value) => match value_as_int(value) {
                Err(e) => Err(e),
                Ok(i) => match apply_unary(operator, i) {
                    Err(e) => Err(e),
                    Ok(v) => Ok(Value::Int(v)),
                },
            },
        },
        NodeView::Binary(operator, lhs, rhs) => match eval(*lhs, registers) {
            Err(e) => Err(e),
            Ok(left) => match value_as_int(left) {
                Err(e) => Err(e),
                Ok(l) => match eval(*rhs, registers) {
                    Err(e) => Err(e),
                    Ok(right) => match value_as_int(right) {
                        Err(e) => Err(e),
                        Ok(r) => match apply_binary(operator, l, r) {
                            Err(e) => Err(e),
                            Ok(v) => Ok(Value::Int(v)),
                        },
                    },
                },
            },
        },
    }
}

/// Whether an exec result is the given model result.
pub open spec fn is_value(result: Result<NodeResult, ErrorKind>, model: Result<Value, ErrorKind>) -> bool {
    match result {
        Ok(v) => model == Ok::<Value, ErrorKind>(v@),
        Err(e) => model == Err::<Value, ErrorKind>(e),
    }
}

/// Evaluates an expression over the registers.
pub fn evaluate(node: &Node, registers: &Registers) -> (value: Result<NodeResult, ErrorKind>)
    requires
        registers.wf(),
    ensures
        is_value(value, eval(node@, registers@)),
    decreases node,
{
    match node {
        Node::Int(x) => Ok(NodeResult::Int(*x)),
        Node::Reg(x) => {
            let len = x.as_str().unicode_len();
            if len == 0 {
                return Err(ErrorKind::InvalidRegister);
            }
            let name = x.as_str().substring_char(1, len);
            match registers.get(name) {
                Some(content) => Ok(NodeResult::Bytes(vstd::slice::slice_to_vec(content))),
                None => Err(ErrorKind::InvalidRegister),
            }
        },
        Node::UnaryExpression { operator, child } => {
            let value = match evaluate(child, registers) {
                Ok(value) => value,
                Err(e) => {
                    return Err(e);
                },
            };
            let i = match value.as_int() {
                Ok(i) => i,
                Err(e) => {
                    return Err(e);
                },
            };
            match unary(*operator, i) {
                Ok(v) => Ok(NodeResult::Int(v)),
                Err(e) => Err(e),
            }
        },
        Node::BinaryExpr { operator, lhs, rhs } => {
            let left = match evaluate(lhs, registers) {
                Ok(value) => value,
                Err(e) => {
                    return Err(e);
                },
            };
            let l = match left.as_int() {
                Ok(i) => i,
                Err(e) => {
                    return Err(e);
                },
            };
            let right = match evaluate(rhs, registers) {
                Ok(value) => value,
                Err(e) => {
                    return Err(e);
                },
            };
            let r = match right.as_int() {
                Ok(i) => i,
                Err(e) => {
                    return Err(e);
                },
            };
            match binary(*operator, l, r) {
                Ok(v) => Ok(NodeResult::Int(v)),
                Err(e) => Err(e),
            }
        },
    }
}

/// The text of an integer: its digits in decimal, after a minus sign where
/// it is negative.
pub open spec fn integer_text(i: i64) -> Seq<u8> {
    if i < 0 {
        seq![45u8] + decimal_bytes((-i) as nat)
    } else {
        decimal_bytes(i as nat)
    }
}

/// Writes an integer out as text.
pub fn integer_bytes(i: i64) -> (text: Vec<u8>)
    ensures
        text@ == integer_text(i),
{
    let mut text: Vec<u8> = Vec::new();
    if i < 0 {
        text.push(45);
        let magnitude: u64 = if i == i64::MIN {
            0x8000_0000_0000_0000
        } else {
            (-i) as u64
        };
        push_decimal_bytes(&mut text, magnitude);
    } else {
        push_decimal_bytes(&mut text, i as u64);
    }
    text
}

/// The bytes that a value is handed on as: an integer as its text, bytes as
/// they are.
pub open spec fn value_bytes(value: Value) -> Seq<u8> {
    match value {
        Value::Int(i) => integer_text(i),
        Value::Bytes(b) => b,
    }
}

/// The end of the blanks that start at `pos`.
pub open spec fn skip_blanks(s: Seq<u8>, pos: int) -> int
    decreases s.len() - pos,
{
    if 0 <= pos < s.len() && s[pos] == 32 {
        skip_blanks(s, pos + 1)
    } else {
        pos
    }
}

/// A decimal digit.
pub open spec fn is_digit(b: u8) -> bool {
    48 <= b <= 57
}

/// A hexadecimal digit in either case.
pub open spec fn is_hex_digit(b: u8) -> bool {
    is_digit(b) || 65 <= b <= 70 || 97 <= b <= 102
}

/// A letter, a digit or an underscore.
pub open spec fn is_name_byte(b: u8) -> bool {
    is_digit(b) || 65 <= b <= 90 || 97 <= b <= 122 || b == 95
}

/// The lexical classes of the language.
#[derive(Debug, Copy, Clone, PartialEq, Eq, Structural)]
pub enum ByteClass {
    Digit,
    HexDigit,
    Name,
}

/// Whether a byte belongs to a class.
pub open spec fn in_class(b: u8, class: ByteClass) -> bool {
    match class {
        ByteClass::Digit => is_digit(b),
        ByteClass::HexDigit => is_hex_digit(b),
        ByteClass::Name => is_name_byte(b),
    }
}

/// The end of the run of bytes of a class that starts at `pos`.
pub open spec fn run_end(s: Seq<u8>, pos: int, class: ByteClass) -> int
    decreases s.len() - pos,
{
    if 0 <= pos < s.len() && in_class(s[pos], class) {
        run_end(s, pos + 1, class)
    } else {
        pos
    }
}

/// The value of a hexadecimal digit.
pub open spec fn hex_digit_value(b: u8) -> nat {
    if is_digit(b) {
        (b - 48) as nat
    } else if 65 <= b <= 70 {
        (b - 55) as nat
    } else {
        (b - 87) as nat
    }
}

/// The number that a string of hexadecimal digits stands for.
pub open spec fn hex_number(digits: Seq<u8>) -> nat
    decreases digits.len(),
{
    if digits.len() == 0 {
        0
    } else {
        hex_number(digits.drop_last()) * 16 + hex_digit_value(digits.last())
    }
}

/// The number that a string of decimal digits stands for.
pub open spec fn decimal_number(digits: Seq<u8>) -> nat
    decreases digits.len(),
{
    if digits.len() == 0 {
        0
    } else {
        decimal_number(digits.drop_last()) * 10 + (digits.last() - 48) as nat
    }
}

/// An integer literal as a node, where its value fits in 64 bits.
pub open spec fn literal(value: nat) -> Option<NodeView> {
    if value <= i64::MAX {
        Some(NodeView::Int(value as i64))
    } else {
        None
    }
}

/// The bytes of an ASCII text as characters.
pub open spec fn ascii_text(bytes: Seq<u8>) -> Seq<char> {
    Seq::new(bytes.len(), |i: int| bytes[i] as char)
}

/// What was read of a script: where the reading ended, and the tree, unless
/// it cannot be built (a literal out of range, or an operator applied to
/// another unary operator).
pub struct Parsed {
    pub node: Option<NodeView>,
    pub end: int,
}

/// The unary operator that a byte stands for.
pub open spec fn unary_operator(b: u8) -> Option<Operator> {
    if b == 43 {
        Some(Operator::Add)
    } else if b == 45 {
        Some(Operator::Sub)
    } else if b == 126 {
        Some(Operator::Neg)
    } else {
        None
    }
}

/// The binary operator of a level of precedence that stands at `pos`, and its
/// length: sums at level 2, products at level 1, shifts and bitwise
/// operators at level 0.
pub open spec fn binary_operator(s: Seq<u8>, pos: int, level: int) -> Option<(Operator, int)> {
    if pos < 0 || pos >= s.len() {
        None
    } else if level == 2 {
        if s[pos] == 43 {
            Some((Operator::Add, 1int))
        } else if s[pos] == 45 {
            Some((Operator::Sub, 1int))
        } else {
            None
        }
    } else if level == 1 {
        if s[pos] == 42 {
            Some((Operator::Mul, 1int))
        } else if s[pos] == 47 {
            Some((Operator::Div, 1int))
        } else if s[pos] == 37 {
            Some((Operator::Mod, 1int))
        } else {
            None
        }
    } else {
        if pos + 1 < s.len() && s[pos] == 60 && s[pos + 1] == 60 {
            Some((Operator::Sll, 2int))
        } else if pos + 1 < s.len() && s[pos] == 62 && s[pos + 1] == 62 {
            Some((Operator::Slr, 2int))
        } else if s[pos] == 38 {
            Some((Operator::And, 1int))
        } else if s[pos] == 124 {
            Some((Operator::Or, 1int))
        } else if s[pos] == 94 {
            Some((Operator::Xor, 1int))
        } else {
            None
        }
    }
}

/// The tree of a binary expression, where both operands have one.
pub open spec fn join(operator: Operator, lhs: Option<NodeView>, rhs: Option<NodeView>) -> Option<
    NodeView,
> {
    match (lhs, rhs) {
        (Some(l), Some(r)) => Some(NodeView::Binary(operator, Box::new(l), Box::new(r))),
        _ => None,
    }
}

/// A term at `pos`: a hexadecimal literal `0x...`, a decimal literal, a
/// register `$name`, or an expression in parentheses.
pub open spec fn parse_term(s: Seq<u8>, pos: int) -> Option<Parsed>
    decreases s.len() - pos, 0int,
{
    if pos < 0 || pos >= s.len() {
        None
    } else if pos + 1 < s.len() && s[pos] == 48 && s[pos + 1] == 120 && run_end(
        s,
        pos + 2,
        ByteClass::HexDigit,
    ) > pos + 2 {
        let end = run_end(s, pos + 2, ByteClass::HexDigit);
        Some(Parsed { node: literal(hex_number(s.subrange(pos + 2, end))), end })
    } else if is_digit(s[pos]) {
        let end = run_end(s, pos, ByteClass::Digit);
        Some(Parsed { node: literal(decimal_number(s.subrange(pos, end))), end })
    } else if s[pos] == 36 && run_end(s, pos + 1, ByteClass::Name) > pos + 1 {
        let end = run_end(s, pos + 1, ByteClass::Name);
        Some(Parsed { node: Some(NodeView::Reg(ascii_text(s.subrange(pos, end)))), end })
    } else if s[pos] == 40 {
        let start = skip_blanks(s, pos + 1);
        if start <= pos || start > s.len() {
            None
        } else {
            match parse_level(s, start, 2) {
                None => None,
                Some(inner) => {
                    let close = skip_blanks(s, inner.end);
                    if 0 <= close < s.len() && s[close] == 41 {
                        Some(Parsed { node: inner.node, end: close + 1 })
                    } else {
                        None
                    }
                },
            }
        }
    } else {
        None
    }
}

/// A unary expression at `pos`: a unary operator before a unary expression,
/// or a term.  The tree is built only where the operator stands before a
/// term.
pub open spec fn parse_unary(s: Seq<u8>, pos: int) -> Option<Parsed>
    decreases s.len() - pos, 1int,
{
    if 0 <= pos < s.len() && unary_operator(s[pos]) is Some {
        let start = skip_blanks(s, pos + 1);
        if start <= pos || start > s.len() {
            None
        } else {
            match parse_unary(s, start) {
                None => None,
                Some(inner) => Some(
                    Parsed {
                        node: if 0 <= start < s.len() && unary_operator(s[start]) is Some {
                            None
                        } else {
                            match inner.node {
                                Some(child) => Some(
                                    NodeView::Unary(unary_operator(s[pos]).unwrap(), Box::new(child)),
                                ),
                                None => None,
                            }
                        },
                        end: inner.end,
                    },
                ),
            }
        }
    } else {
        parse_term(s, pos)
    }
}

/// An expression of a level of precedence at `pos`: an operand of the next
/// level and, where an operator of this level and an expression of this
/// level follow, those too.  Operators of one level group to the right.
pub open spec fn parse_level(s: Seq<u8>, pos: int, level: int) -> Option<Parsed>
    decreases s.len() - pos, level + 2,
{
    if level < 0 {
        None
    } else {
        let operand = if level == 0 {
            parse_unary(s, pos)
        } else {
            parse_level(s, pos, level - 1)
        };
        match operand {
            None => None,
            Some(lhs) => {
                let at = skip_blanks(s, lhs.end);
                match binary_operator(s, at, level) {
                    None => Some(lhs),
                    Some((operator, width)) => {
                        let start = skip_blanks(s, at + width);
                        if start <= pos || start > s.len() {
                            Some(lhs)
                        } else {
                            match parse_level(s, start, level) {
                                None => Some(lhs),
                                Some(rhs) => Some(
                                    Parsed {
                                        node: join(operator, lhs.node, rhs.node),
                                        end: rhs.end,
                                    },
                                ),
                            }
                        }
                    },
                }
            },
        }
    }
}

/// The tree of a script: one expression, with blanks around it at most.
pub open spec fn parse_script(s: Seq<u8>) -> Result<NodeView, ErrorKind> {
    match parse_level(s, skip_blanks(s, 0), 2) {
        Some(parsed) => if skip_blanks(s, parsed.end) == s.len() && parsed.node is Some {
            Ok(parsed.node.unwrap())
        } else {
            Err(ErrorKind::SyntaxError)
        },
        None => Err(ErrorKind::SyntaxError),
    }
}

/// Skipping blanks moves forward, to a byte that is no blank.
pub proof fn lemma_skip_blanks(s: Seq<u8>, pos: int)
    requires
        0 <= pos <= s.len(),
    ensures
        pos <= skip_blanks(s, pos) <= s.len(),
        skip_blanks(s, pos) < s.len() ==> s[skip_blanks(s, pos)] != 32,
        forall|i: int| pos <= i < skip_blanks(s, pos) ==> s[i] == 32,
    decreases s.len() - pos,
{
    if pos < s.len() && s[pos] == 32 {
        lemma_skip_blanks(s, pos + 1);
    }
}

/// A run ends at or after its start, at a byte that is not of its class.
pub proof fn lemma_run_end(s: Seq<u8>, pos: int, class: ByteClass)
    requires
        0 <= pos <= s.len(),
    ensures
        pos <= run_end(s, pos, class) <= s.len(),
        run_end(s, pos, class) < s.len() ==> !in_class(s[run_end(s, pos, class)], class),
        forall|i: int| pos <= i < run_end(s, pos, class) ==> in_class(s[i], class),
        pos < s.len() && in_class(s[pos], class) ==> run_end(s, pos, class) > pos,
    decreases s.len() - pos,
{
    if pos < s.len() && in_class(s[pos], class) {
        lemma_run_end(s, pos + 1, class);
    }
}

fn skip(s: &[u8], pos: usize) -> (end: usize)
    requires
        pos <= s@.len(),
    ensures
        end == skip_blanks(s@, pos as int),
        pos <= end <= s@.len(),
{
    let mut end = pos;
    while end < s.len() && s[end] == 32
        invariant
            pos <= end <= s@.len(),
            skip_blanks(s@, pos as int) == skip_blanks(s@, end as int),
        decreases s@.len() - end,
    {
        end += 1;
    }
    end
}

fn class_of(b: u8, class: ByteClass) -> (inside: bool)
    ensures
        inside == in_class(b, class),
{
    let digit = b >= 48 && b <= 57;
    match class {
        ByteClass::Digit => digit,
        ByteClass::HexDigit => digit || (b >= 65 && b <= 70) || (b >= 97 && b <= 102),
        ByteClass::Name => digit || (b >= 65 && b <= 90) || (b >= 97 && b <= 122) || b == 95,
    }
}

fn run(s: &[u8], pos: usize, class: ByteClass) -> (end: usize)
    requires
        pos <= s@.len(),
    ensures
        end == run_end(s@, pos as int, class),
        pos <= end <= s@.len(),
        forall|i: int| pos <= i < end ==> in_class(s@[i], class),
{
    let mut end = pos;
    while end < s.len() && class_of(s[end], class)
        invariant
            pos <= end <= s@.len(),
            run_end(s@, pos as int, class) == run_end(s@, end as int, class),
            forall|i: int| pos <= i < end ==> in_class(s@[i], class),
        decreases s@.len() - end,
    {
        end += 1;
    }
    end
}

/// Reads a literal of digits in base ten or sixteen; `None` where its value
/// does not fit in 64 bits.
fn read_literal(s: &[u8], from: usize, to: usize, hexadecimal: bool) -> (node: Option<Node>)
    requires
        from <= to <= s@.len(),
        forall|i: int|
            from <= i < to ==> in_class(
                s@[i],
                if hexadecimal {
                    ByteClass::HexDigit
                } else {
                    ByteClass::Digit
                },
            ),
    ensures
        match node {
            Some(n) => Some(n@),
            None => None,
        } == literal(
            if hexadecimal {
                hex_number(s@.subrange(from as int, to as int))
            } else {
                decimal_number(s@.subrange(from as int, to as int))
            },
        ),
{
    let ghost digits = s@.subrange(from as int, to as int);
    let base: u128 = if hexadecimal {
        16
    } else {
        10
    };
    let mut acc: u128 = 0;
    let mut i: usize = from;
    let mut fits = true;
    while i < to
        invariant
            from <= i <= to <= s@.len(),
            digits == s@.subrange(from as int, to as int),
            base == (if hexadecimal {
                16u128
            } else {
                10u128
            }),
            forall|j: int|
                from <= j < to ==> in_class(
                    s@[j],
                    if hexadecimal {
                        ByteClass::HexDigit
                    } else {
                        ByteClass::Digit
                    },
                ),
            fits ==> acc <= i64::MAX && acc == (if hexadecimal {
                hex_number(digits.take(i - from))
            } else {
                decimal_number(digits.take(i - from))
            }),
            !fits ==> (if hexadecimal {
                hex_number(digits.take(i - from))
            } else {
                decimal_number(digits.take(i - from))
            }) > i64::MAX,
        decreases to - i,
    {
        let b = s[i];
        proof {
            assert(digits.take(i - from + 1).drop_last() =~= digits.take(i - from));
        }
        if fits {
            let d: u128 = if b >= 48 && b <= 57 {
                (b - 48) as u128
            } else if b >= 65 && b <= 70 {
                (b - 55) as u128
            } else {
                (b - 87) as u128
            };
            let next = acc * base + d;
            if next > 0x7fff_ffff_ffff_ffff {
                fits = false;
            } else {
                acc = next;
            }
        }
        i += 1;
    }
    assert(digits.take(to - from) =~= digits);
    if fits {
        Some(Node::Int(acc as i64))
    } else {
        None
    }
}

fn read_register(s: &[u8], from: usize, to: usize) -> (node: Node)
    requires
        from <= to <= s@.len(),
    ensures
        node@ == NodeView::Reg(ascii_text(s@.subrange(from as int, to as int))),
{
    let mut name = String::new();
    let mut i: usize = from;
    while i < to
        invariant
            from <= i <= to <= s@.len(),
            name@ == ascii_text(s@.subrange(from as int, to as int)).take(i - from),
        decreases to - i,
    {
        push_char(&mut name, s[i] as char);
        i += 1;
    }
    assert(name@ =~= ascii_text(s@.subrange(from as int, to as int)));
    Node::Reg(name)
}

/// Whether what was read is what the grammar says.
pub open spec fn is_parsed(read: Option<(Option<Node>, usize)>, model: Option<Parsed>) -> bool {
    match read {
        None => model is None,
        Some((node, end)) => model == Some(
            Parsed {
                node: match node {
                    Some(n) => Some(n@),
                    None => None,
                },
                end: end as int,
            },
        ),
    }
}

fn term(s: &[u8], pos: usize) -> (read: Option<(Option<Node>, usize)>)
    requires
        pos <= s@.len(),
    ensures
        is_parsed(read, parse_term(s@, pos as int)),
        read is Some ==> pos < read.unwrap().1 <= s@.len(),
    decreases s@.len() - pos, 0int,
{
    if pos >= s.len() {
        return None;
    }
    proof {
        lemma_run_end(s@, pos as int, ByteClass::Digit);
    }
    if pos + 1 < s.len() && s[pos] == 48 && s[pos + 1] == 120 {
        let end = run(s, pos + 2, ByteClass::HexDigit);
        if end > pos + 2 {
            return Some((read_literal(s, pos + 2, end, true), end));
        }
    }
    if class_of(s[pos], ByteClass::Digit) {
        let end = run(s, pos, ByteClass::Digit);
        return Some((read_literal(s, pos, end, false), end));
    }
    if s[pos] == 36 {
        let end = run(s, pos + 1, ByteClass::Name);
        if end > pos + 1 {
            return Some((Some(read_register(s, pos, end)), end));
        }
    }
    if s[pos] == 40 {
        let start = skip(s, pos + 1);
        match level(s, start, 2) {
            None => None,
            Some((node, end)) => {
                let close = skip(s, end);
                if close < s.len() && s[close] == 41 {
                    Some((node, close + 1))
                } else {
                    None
                }
            },
        }
    } else {
        None
    }
}

fn unary_at(b: u8) -> (operator: Option<Operator>)
    ensures
        operator == unary_operator(b),
{
    if b == 43 {
        Some(Operator::Add)
    } else if b == 45 {
        Some(Operator::Sub)
    } else if b == 126 {
        Some(Operator::Neg)
    } else {
        None
    }
}

fn unary_expression(s: &[u8], pos: usize) -> (read: Option<(Option<Node>, usize)>)
    requires
        pos <= s@.len(),
    ensures
        is_parsed(read, parse_unary(s@, pos as int)),
        read is Some ==> pos < read.unwrap().1 <= s@.len(),
    decreases s@.len() - pos, 1int,
{
    if pos < s.len() {
        match unary_at(s[pos]) {
            Some(operator) => {
                let start = skip(s, pos + 1);
                let nested = start < s.len() && unary_at(s[start]).is_some();
                return match unary_expression(s, start) {
                    None => None,
                    Some((node, end)) => Some(
                        (
                            if nested {
                                None
                            } else {
                                match node {
                                    Some(child) => Some(
                                        Node::UnaryExpression { operator, child: Box::new(child) },
                                    ),
                                    None => None,
                                }
                            },
                            end,
                        ),
                    ),
                };
            },
            None => {},
        }
    }
    term(s, pos)
}

fn operator_at(s: &[u8], pos: usize, rank: u8) -> (found: Option<(Operator, usize)>)
    requires
        pos <= s@.len(),
        rank <= 2,
    ensures
        match found {
            Some((operator, after)) => binary_operator(s@, pos as int, rank as int) == Some(
                (operator, after - pos),
            ) && pos < after <= s@.len(),
            None => binary_operator(s@, pos as int, rank as int) is None,
        },
{
    if pos >= s.len() {
        return None;
    }
    let b = s[pos];
    if rank == 2 {
        if b == 43 {
            Some((Operator::Add, pos + 1))
        } else if b == 45 {
            Some((Operator::Sub, pos + 1))
        } else {
            None
        }
    } else if rank == 1 {
        if b == 42 {
            Some((Operator::Mul, pos + 1))
        } else if b == 47 {
            Some((Operator::Div, pos + 1))
        } else if b == 37 {
            Some((Operator::Mod, pos + 1))
        } else {
            None
        }
    } else {
        if pos + 1 < s.len() && b == 60 && s[pos + 1] == 60 {
            Some((Operator::Sll, pos + 2))
        } else if pos + 1 < s.len() && b == 62 && s[pos + 1] == 62 {
            Some((Operator::Slr, pos + 2))
        } else if b == 38 {
            Some((Operator::And, pos + 1))
        } else if b == 124 {
            Some((Operator::Or, pos + 1))
        } else if b == 94 {
            Some((Operator::Xor, pos + 1))
        } else {
            None
        }
    }
}

fn level(s: &[u8], pos: usize, rank: u8) -> (read: Option<(Option<Node>, usize)>)
    requires
        pos <= s@.len(),
        rank <= 2,
    ensures
        is_parsed(read, parse_level(s@, pos as int, rank as int)),
        read is Some ==> pos < read.unwrap().1 <= s@.len(),
    decreases s@.len() - pos, rank + 2,
{
    let operand = if rank == 0 {
        unary_expression(s, pos)
    } else {
        level(s, pos, rank - 1)
    };
    let (lhs, lhs_end) = match operand {
        None => {
            return None;
        },
        Some(read) => read,
    };
    let at = skip(s, lhs_end);
    match operator_at(s, at, rank) {
        None => Some((lhs, lhs_end)),
        Some((operator, after)) => {
            let start = skip(s, after);
            match level(s, start, rank) {
                None => Some((lhs, lhs_end)),
                Some((rhs, end)) => Some(
                    (
                        match (lhs, rhs) {
                            (Some(l), Some(r)) => Some(
                                Node::BinaryExpr {
                                    operator,
                                    lhs: Box::new(l),
                                    rhs: Box::new(r),
                                },
                            ),
                            _ => None,
                        },
                        end,
                    ),
                ),
            }
        },
    }
}

/// The tree of an expression.
#[derive(Debug, PartialEq, Eq)]
pub struct Ast {
    pub root: Box<Node>,
}

impl Ast {
    /// Parses a script and builds its tree.
    pub fn new(script: &str) -> (ast: Result<Ast, ErrorKind>)
        ensures
            match ast {
                Ok(a) => parse_script(script.spec_bytes()) == Ok::<NodeView, ErrorKind>(a.root@),
                Err(e) => e == ErrorKind::SyntaxError && parse_script(script.spec_bytes()) is Err,
            },
    {
        let s = script.as_bytes();
        let start = skip(s, 0);
        match level(s, start, 2) {
            Some((Some(root), end)) => {
                if skip(s, end) == s.len() {
                    Ok(Ast { root: Box::new(root) })
                } else {
                    Err(ErrorKind::SyntaxError)
                }
            },
            _ => Err(ErrorKind::SyntaxError),
        }
    }

    /// Evaluates the expression over the registers of `state` and hands its
    /// value on as bytes: an integer as its decimal text, the content of a
    /// register as it is.
    pub fn get_result(&self, state: &State) -> (bytes: Result<Vec<u8>, ErrorKind>)
        requires
            state.registers.wf(),
        ensures
            match bytes {
                Ok(b) => eval(self.root@, state.registers@) is Ok && b@ == value_bytes(
                    eval(self.root@, state.registers@).unwrap(),
                ),
                Err(e) => eval(self.root@, state.registers@) == Err::<Value, ErrorKind>(e),
            },
    {
        match evaluate(&self.root, &state.registers) {
            Ok(NodeResult::Int(i)) => Ok(integer_bytes(i)),
            Ok(NodeResult::Bytes(b)) => Ok(b),
            Err(e) => Err(e),
        }
    }
}

} // verus!
