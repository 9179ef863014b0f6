//! Numeric expressions: reading them from source text and working out their
//! values.
use vstd::prelude::*;
use vstd::hash_map::StringHashMap;
use vstd::string::*;
use crate::error::{EvaluateError, EvaluateErrorView};
use crate::parser::opcode::{mnemonic_at, mnemonic_at_spec};
use crate::text::{
    is_alpha, is_alpha_spec, is_digit_spec, lemma_skip, number_text_spec, push_number, skip_spec,
    CharClass, Source,
};

verus! {

/// A leaf of an expression: a number or a label.
#[derive(Debug, PartialEq, Eq)]
pub enum ExprValue {
    Number(i64),
    Label(String),
}

/// An expression over numbers and labels.
#[derive(Debug, PartialEq, Eq)]
pub enum NumericExpr {
    Value(ExprValue),
    Add(Box<NumericExpr>, Box<NumericExpr>),
    Subtract(Box<NumericExpr>, Box<NumericExpr>),
    Multiply(Box<NumericExpr>, Box<NumericExpr>),
    Divide(Box<NumericExpr>, Box<NumericExpr>),
    Modulo(Box<NumericExpr>, Box<NumericExpr>),
    Paren(Box<NumericExpr>),
}

/// A [`NumericExpr`] as mathematics: numbers are integers and labels are
/// sequences of characters.
pub enum ExprView {
    Number(int),
    Label(Seq<char>),
    Add(Box<ExprView>, Box<ExprView>),
    Subtract(Box<ExprView>, Box<ExprView>),
    Multiply(Box<ExprView>, Box<ExprView>),
    Divide(Box<ExprView>, Box<ExprView>),
    Modulo(Box<ExprView>, Box<ExprView>),
    Paren(Box<ExprView>),
}

/// An expression as mathematics.
pub open spec fn expr_view(expr: NumericExpr) -> ExprView
    decreases expr,
{
    match expr {
        NumericExpr::Value(ExprValue::Number(n)) => ExprView::Number(n as int),
        NumericExpr::Value(ExprValue::Label(l)) => ExprView::Label(l@),
        NumericExpr::Add(a, b) => ExprView::Add(Box::new(expr_view(*a)), Box::new(expr_view(*b))),
        NumericExpr::Subtract(a, b) => ExprView::Subtract(
            Box::new(expr_view(*a)),
            Box::new(expr_view(*b)),
        ),
        NumericExpr::Multiply(a, b) => ExprView::Multiply(
            Box::new(expr_view(*a)),
            Box::new(expr_view(*b)),
        ),
        NumericExpr::Divide(a, b) => ExprView::Divide(
            Box::new(expr_view(*a)),
            Box::new(expr_view(*b)),
        ),
        NumericExpr::Modulo(a, b) => ExprView::Modulo(
            Box::new(expr_view(*a)),
            Box::new(expr_view(*b)),
        ),
        NumericExpr::Paren(a) => ExprView::Paren(Box::new(expr_view(*a))),
    }
}

impl View for NumericExpr {
    type V = ExprView;

    open spec fn view(&self) -> ExprView {
        expr_view(*self)
    }
}

/// The number that a digit stands for.
pub open spec fn digit_spec(c: char) -> nat {
    if is_digit_spec(c) {
        (c as nat - '0' as nat) as nat
    } else {
        0
    }
}

/// The number that a run of digits writes in base ten.
pub open spec fn decimal_spec(digits: Seq<char>) -> nat
    decreases digits.len(),
{
    if digits.len() == 0 {
        0
    } else {
        10 * decimal_spec(digits.drop_last()) + digit_spec(digits.last())
    }
}

/// A run of digits writes at least what its beginning writes.
pub proof fn lemma_decimal_grows(digits: Seq<char>, k: int)
    requires
        0 <= k <= digits.len(),
    ensures
        decimal_spec(digits.take(k)) <= decimal_spec(digits),
    decreases digits.len(),
{
    if k < digits.len() {
        lemma_decimal_grows(digits.drop_last(), k);
        assert(digits.drop_last().take(k) =~= digits.take(k));
    } else {
        assert(digits.take(k) =~= digits);
    }
}

/// A number at `pos`: a sign if one stands there, then digits, at least one.
/// Given are the place after it and its value, which has to fit in 64 bits.
pub open spec fn number_spec(s: Seq<char>, pos: int) -> Option<(int, int)> {
    let signed = 0 <= pos < s.len() && (s[pos] == '+' || s[pos] == '-');
    let start = if signed {
        pos + 1
    } else {
        pos
    };
    let end = skip_spec(s, start, CharClass::Digit);
    let size = decimal_spec(s.subrange(start, end)) as int;
    let value = if signed && s[pos] == '-' {
        -size
    } else {
        size
    };
    if 0 <= pos && start < end && i64::MIN <= value <= i64::MAX {
        Some((end, value))
    } else {
        None
    }
}

/// Reads a number at `pos`.
pub fn number(src: &Source, pos: usize) -> (found: Option<(usize, i64)>)
    ensures
        match found {
            Some((end, value)) => number_spec(src@, pos as int) == Some((end as int, value as int))
                && pos < end <= src@.len(),
            None => number_spec(src@, pos as int) is None,
        },
{
    let n = src.len();
    if pos >= n {
        proof {
            if pos == n {
                lemma_skip(src@, pos as int, CharClass::Digit);
            }
        }
        return None;
    }
    let negative = src.at(pos) == '-';
    let start = if negative || src.at(pos) == '+' {
        pos + 1
    } else {
        pos
    };
    let end = src.skip(start, CharClass::Digit);
    if end == start {
        return None;
    }
    proof {
        lemma_skip(src@, start as int, CharClass::Digit);
    }
    let ghost digits = src@.subrange(start as int, end as int);
    let mut size: u128 = 0;
    let mut i = start;
    while i < end
        invariant
            start <= i <= end <= n == src@.len(),
            pos < n,
            start == if src@[pos as int] == '+' || src@[pos as int] == '-' {
                pos + 1
            } else {
                pos as int
            },
            end == skip_spec(src@, start as int, CharClass::Digit),
            digits == src@.subrange(start as int, end as int),
            forall|k: int| start <= k < end ==> is_digit_spec(#[trigger] src@[k]),
            size == decimal_spec(digits.take(i - start)),
            size <= 0x8000_0000_0000_0000,
        decreases end - i,
    {
        let c = src.at(i);
        let digit = (c as u8 - '0' as u8) as u128;
        assert(digits.take(i + 1 - start).drop_last() =~= digits.take(i - start));
        assert(digits.take(i + 1 - start).last() == c);
        size = size * 10 + digit;
        i += 1;
        assert(size == decimal_spec(digits.take(i - start)));
        if size > 0x8000_0000_0000_0000 {
            proof {
                lemma_decimal_grows(digits, i - start);
            }
            return None;
        }
    }
    assert(digits.take(end - start) =~= digits);
    if negative {
        Some((end, (-(size as i128)) as i64))
    } else if size > 0x7fff_ffff_ffff_ffff {
        None
    } else {
        Some((end, size as i64))
    }
}

/// A label at `pos`: a letter, then letters and digits, as far as they go;
/// but no word that the language keeps for itself. Given is the place after
/// the label.
pub open spec fn label_spec(s: Seq<char>, pos: int) -> Option<int> {
    if 0 <= pos < s.len() && is_alpha_spec(s[pos]) {
        let end = skip_spec(s, pos + 1, CharClass::Alphanumeric);
        if end == pos + 3 && mnemonic_at_spec(s, pos) is Some {
            None
        } else {
            Some(end)
        }
    } else {
        None
    }
}

/// Reads a label at `pos`.
pub fn label(src: &Source, pos: usize) -> (found: Option<(usize, String)>)
    ensures
        match found {
            Some((end, text)) => label_spec(src@, pos as int) == Some(end as int) && pos < end
                <= src@.len() && text@ == src@.subrange(pos as int, end as int),
            None => label_spec(src@, pos as int) is None,
        },
{
    if pos >= src.len() || !is_alpha(src.at(pos)) {
        return None;
    }
    let end = src.skip(pos + 1, CharClass::Alphanumeric);
    if end - pos == 3 && mnemonic_at(src, pos).is_some() {
        return None;
    }
    Some((end, src.slice(pos, end).to_owned()))
}

/// The expression that an operator sign makes of two.
pub open spec fn joined_spec(sign: char, left: ExprView, right: ExprView) -> ExprView {
    match sign {
        '+' => ExprView::Add(Box::new(left), Box::new(right)),
        '-' => ExprView::Subtract(Box::new(left), Box::new(right)),
        '*' => ExprView::Multiply(Box::new(left), Box::new(right)),
        '/' => ExprView::Divide(Box::new(left), Box::new(right)),
        _ => ExprView::Modulo(Box::new(left), Box::new(right)),
    }
}

/// The expression that an operator sign makes of two.
fn joined(sign: char, left: NumericExpr, right: NumericExpr) -> (both: NumericExpr)
    ensures
        both@ == joined_spec(sign, left@, right@),
{
    match sign {
        '+' => NumericExpr::Add(Box::new(left), Box::new(right)),
        '-' => NumericExpr::Subtract(Box::new(left), Box::new(right)),
        '*' => NumericExpr::Multiply(Box::new(left), Box::new(right)),
        '/' => NumericExpr::Divide(Box::new(left), Box::new(right)),
        _ => NumericExpr::Modulo(Box::new(left), Box::new(right)),
    }
}

/// Whether `c` is a sign of multiplication, division or remainder.
pub open spec fn is_term_sign(c: char) -> bool {
    c == '*' || c == '/' || c == '%'
}

/// Whether `c` is a sign of addition or subtraction.
pub open spec fn is_expr_sign(c: char) -> bool {
    c == '+' || c == '-'
}

/// A factor at `pos`, with blanks around it: a number, a label, or an
/// expression in round brackets. Given are the place after it and the
/// expression.
pub open spec fn factor_spec(s: Seq<char>, pos: int) -> Option<(int, ExprView)>
    decreases s.len() - pos, 1int,
{
    let p = skip_spec(s, pos, CharClass::Space);
    if number_spec(s, p) is Some {
        let (end, value) = number_spec(s, p)->0;
        Some((skip_spec(s, end, CharClass::Space), ExprView::Number(value)))
    } else if label_spec(s, p) is Some {
        let end = label_spec(s, p)->0;
        Some((skip_spec(s, end, CharClass::Space), ExprView::Label(s.subrange(p, end))))
    } else if 0 <= pos <= p < s.len() && s[p] == '(' {
        match expr_spec(s, p + 1) {
            Some((end, inner)) => {
                if 0 <= end < s.len() && s[end] == ')' {
                    Some((skip_spec(s, end + 1, CharClass::Space), ExprView::Paren(Box::new(inner))))
                } else {
                    None
                }
            },
            None => None,
        }
    } else {
        None
    }
}

/// What follows the first factor of a term: as long as a sign of
/// multiplication, division or remainder stands at `pos` with a factor after
/// it, the factor is joined to what was read before, from left to right.
pub open spec fn term_rest_spec(s: Seq<char>, pos: int, left: ExprView) -> (int, ExprView)
    decreases s.len() - pos, 2int,
{
    if 0 <= pos < s.len() && is_term_sign(s[pos]) {
        match factor_spec(s, pos + 1) {
            Some((end, right)) => {
                if pos < end <= s.len() {
                    term_rest_spec(s, end, joined_spec(s[pos], left, right))
                } else {
                    (pos, left)
                }
            },
            None => (pos, left),
        }
    } else {
        (pos, left)
    }
}

/// A term at `pos`: factors joined by signs of multiplication, division and
/// remainder.
pub open spec fn term_spec(s: Seq<char>, pos: int) -> Option<(int, ExprView)>
    decreases s.len() - pos, 3int,
{
    match factor_spec(s, pos) {
        Some((end, first)) => {
            if pos <= end <= s.len() {
                Some(term_rest_spec(s, end, first))
            } else {
                None
            }
        },
        None => None,
    }
}

/// What follows the first term of an expression: as long as a sign of
/// addition or subtraction stands at `pos` with a term after it, the term is
/// joined to what was read before, from left to right.
pub open spec fn expr_rest_spec(s: Seq<char>, pos: int, left: ExprView) -> (int, ExprView)
    decreases s.len() - pos, 4int,
{
    if 0 <= pos < s.len() && is_expr_sign(s[pos]) {
        match term_spec(s, pos + 1) {
            Some((end, right)) => {
                if pos < end <= s.len() {
                    expr_rest_spec(s, end, joined_spec(s[pos], left, right))
                } else {
                    (pos, left)
                }
            },
            None => (pos, left),
        }
    } else {
        (pos, left)
    }
}

/// An expression at `pos`: terms joined by signs of addition and
/// subtraction. Given are the place after it and the expression.
pub open spec fn expr_spec(s: Seq<char>, pos: int) -> Option<(int, ExprView)>
    decreases s.len() - pos, 5int,
{
    match term_spec(s, pos) {
        Some((end, first)) => {
            if pos <= end <= s.len() {
                Some(expr_rest_spec(s, end, first))
            } else {
                None
            }
        },
        None => None,
    }
}

/// Reads a factor at `pos`.
pub fn factor(src: &Source, pos: usize) -> (found: Option<(usize, NumericExpr)>)
    requires
        pos <= src@.len(),
    ensures
        match found {
            Some((end, expr)) => factor_spec(src@, pos as int) == Some((end as int, expr@)) && pos
                < end <= src@.len(),
            None => factor_spec(src@, pos as int) is None,
        },
    decreases src@.len() - pos, 1int,
{
    let n = src.len();
    let p = src.skip(pos, CharClass::Space);
    match number(src, p) {
        Some((end, value)) => {
            return Some(
                (src.skip(end, CharClass::Space), NumericExpr::Value(ExprValue::Number(value))),
            );
        },
        None => {},
    }
    match label(src, p) {
        Some((end, text)) => {
            return Some(
                (src.skip(end, CharClass::Space), NumericExpr::Value(ExprValue::Label(text))),
            );
        },
        None => {},
    }
    if !src.has(p, '(') {
        return None;
    }
    match expr(src, p + 1) {
        Some((end, inner)) => {
            if src.has(end, ')') {
                Some((src.skip(end + 1, CharClass::Space), NumericExpr::Paren(Box::new(inner))))
            } else {
                None
            }
        },
        None => None,
    }
}

/// Reads a term at `pos`.
pub fn term(src: &Source, pos: usize) -> (found: Option<(usize, NumericExpr)>)
    requires
        pos <= src@.len(),
    ensures
        match found {
            Some((end, expr)) => term_spec(src@, pos as int) == Some((end as int, expr@)) && pos
                < end <= src@.len(),
            None => term_spec(src@, pos as int) is None,
        },
    decreases src@.len() - pos, 3int,
{
    let n = src.len();
    let (first_end, first) = match factor(src, pos) {
        Some(found) => found,
        None => {
            return None;
        },
    };
    let ghost start = first_end;
    let ghost start_left = first@;
    let mut end = first_end;
    let mut left = first;
    loop
        invariant
            pos < end <= src@.len() == n,
            term_rest_spec(src@, start as int, start_left) == term_rest_spec(
                src@,
                end as int,
                left@,
            ),
        ensures
            pos < end <= src@.len(),
            term_rest_spec(src@, start as int, start_left) == (end as int, left@),
        decreases src@.len() - end,
    {
        if !(src.has(end, '*') || src.has(end, '/') || src.has(end, '%')) {
            break ;
        }
        match factor(src, end + 1) {
            Some((after, right)) => {
                left = joined(src.at(end), left, right);
                end = after;
            },
            None => {
                break ;
            },
        }
    }
    Some((end, left))
}

/// Reads an expression at `pos`.
pub fn expr(src: &Source, pos: usize) -> (found: Option<(usize, NumericExpr)>)
    requires
        pos <= src@.len(),
    ensures
        match found {
            Some((end, expr)) => expr_spec(src@, pos as int) == Some((end as int, expr@)) && pos
                < end <= src@.len(),
            None => expr_spec(src@, pos as int) is None,
        },
    decreases src@.len() - pos, 5int,
{
    let n = src.len();
    let (first_end, first) = match term(src, pos) {
        Some(found) => found,
        None => {
            return None;
        },
    };
    let ghost start = first_end;
    let ghost start_left = first@;
    let mut end = first_end;
    let mut left = first;
    loop
        invariant
            pos < end <= src@.len() == n,
            expr_rest_spec(src@, start as int, start_left) == expr_rest_spec(
                src@,
                end as int,
                left@,
            ),
        ensures
            pos < end <= src@.len(),
            expr_rest_spec(src@, start as int, start_left) == (end as int, left@),
        decreases src@.len() - end,
    {
        if !(src.has(end, '+') || src.has(end, '-')) {
            break ;
        }
        match term(src, end + 1) {
            Some((after, right)) => {
                left = joined(src.at(end), left, right);
                end = after;
            },
            None => {
                break ;
            },
        }
    }
    Some((end, left))
}

/// Whether an expression names a label anywhere.
pub open spec fn has_label_spec(expr: ExprView) -> bool
    decreases expr,
{
    match expr {
        ExprView::Number(_) => false,
        ExprView::Label(_) => true,
        ExprView::Add(a, b) => has_label_spec(*a) || has_label_spec(*b),
        ExprView::Subtract(a, b) => has_label_spec(*a) || has_label_spec(*b),
        ExprView::Multiply(a, b) => has_label_spec(*a) || has_label_spec(*b),
        ExprView::Divide(a, b) => has_label_spec(*a) || has_label_spec(*b),
        ExprView::Modulo(a, b) => has_label_spec(*a) || has_label_spec(*b),
        ExprView::Paren(a) => has_label_spec(*a),
    }
}

/// The size of a number without its sign.
pub open spec fn magnitude_spec(x: int) -> int {
    if x < 0 {
        -x
    } else {
        x
    }
}

/// The quotient of `x` by `y`, rounded towards zero; `y` is not zero.
pub open spec fn quotient_spec(x: int, y: int) -> int {
    let q = magnitude_spec(x) / magnitude_spec(y);
    if (x < 0) != (y < 0) {
        -q
    } else {
        q
    }
}

/// What is left of `x` after division by `y`, rounded towards zero: it has
/// the sign of `x`; `y` is not zero.
pub open spec fn remainder_spec(x: int, y: int) -> int {
    let r = magnitude_spec(x) % magnitude_spec(y);
    if x < 0 {
        -r
    } else {
        r
    }
}

/// A value as a result: it has to fit in 64 bits.
pub open spec fn checked_spec(value: int) -> Result<int, EvaluateErrorView> {
    if i64::MIN <= value <= i64::MAX {
        Ok(value)
    } else {
        Err(EvaluateErrorView::Overflow)
    }
}

/// The kinds of expression that join two.
#[derive(Debug, Clone, Copy, PartialEq, Eq, Structural)]
pub enum Operation {
    Add,
    Subtract,
    Multiply,
    Divide,
    Modulo,
}

/// The value of an operation on two values. Division and remainder by zero
/// fail, and so does a value that does not fit in 64 bits.
pub open spec fn applied_spec(operation: Operation, x: int, y: int) -> Result<
    int,
    EvaluateErrorView,
> {
    match operation {
        Operation::Add => checked_spec(x + y),
        Operation::Subtract => checked_spec(x - y),
        Operation::Multiply => checked_spec(x * y),
        Operation::Divide => if y == 0 {
            Err(EvaluateErrorView::DivideByZero)
        } else {
            checked_spec(quotient_spec(x, y))
        },
        Operation::Modulo => if y == 0 {
            Err(EvaluateErrorView::DivideByZero)
        } else {
            checked_spec(remainder_spec(x, y))
        },
    }
}

/// The value of two expressions joined by an operation: the left one is
/// worked out first, and the first failure is the result.
pub open spec fn joined_value_spec(
    operation: Operation,
    left: Result<int, EvaluateErrorView>,
    right: Result<int, EvaluateErrorView>,
) -> Result<int, EvaluateErrorView> {
    match left {
        Err(error) => Err(error),
        Ok(x) => match right {
            Err(error) => Err(error),
            Ok(y) => applied_spec(operation, x, y),
        },
    }
}

/// The value of an expression with each label standing for its line.
pub open spec fn absolute_spec(expr: ExprView, labels: Map<Seq<char>, i64>) -> Result<
    int,
    EvaluateErrorView,
>
    decreases expr,
{
    match expr {
        ExprView::Number(n) => Ok(n),
        ExprView::Label(l) => if labels.contains_key(l) {
            Ok(labels[l] as int)
        } else {
            Err(EvaluateErrorView::UndefinedLabel(l))
        },
        ExprView::Add(a, b) => joined_value_spec(
            Operation::Add,
            absolute_spec(*a, labels),
            absolute_spec(*b, labels),
        ),
        ExprView::Subtract(a, b) => joined_value_spec(
            Operation::Subtract,
            absolute_spec(*a, labels),
            absolute_spec(*b, labels),
        ),
        ExprView::Multiply(a, b) => joined_value_spec(
            Operation::Multiply,
            absolute_spec(*a, labels),
            absolute_spec(*b, labels),
        ),
        ExprView::Divide(a, b) => joined_value_spec(
            Operation::Divide,
            absolute_spec(*a, labels),
            absolute_spec(*b, labels),
        ),
        ExprView::Modulo(a, b) => joined_value_spec(
            Operation::Modulo,
            absolute_spec(*a, labels),
            absolute_spec(*b, labels),
        ),
        ExprView::Paren(a) => absolute_spec(*a, labels),
    }
}

/// The value of an expression in the line `current_line`: its absolute
/// value, less the line's number where the expression names a label.
pub open spec fn evaluate_spec(expr: ExprView, labels: Map<Seq<char>, i64>, current_line: int)
    -> Result<int, EvaluateErrorView> {
    match absolute_spec(expr, labels) {
        Ok(value) => if has_label_spec(expr) {
            checked_spec(value - current_line)
        } else {
            Ok(value)
        },
        Err(error) => Err(error),
    }
}

/// A result of the evaluator as mathematics.
pub open spec fn result_view(result: Result<i64, EvaluateError>) -> Result<int, EvaluateErrorView> {
    match result {
        Ok(value) => Ok(value as int),
        Err(error) => Err(error@),
    }
}

/// A wide value as a result of 64 bits.
fn checked(value: i128) -> (result: Result<i64, EvaluateError>)
    ensures
        result_view(result) == checked_spec(value as int),
{
    if value < -0x8000_0000_0000_0000 || value > 0x7fff_ffff_ffff_ffff {
        Err(EvaluateError::Overflow)
    } else {
        Ok(value as i64)
    }
}

/// The size of a number without its sign.
fn magnitude(x: i64) -> (size: u128)
    ensures
        size == magnitude_spec(x as int),
        size <= 0x8000_0000_0000_0000,
{
    if x < 0 {
        (-(x as i128)) as u128
    } else {
        x as u128
    }
}

/// The value of an operation on two values.
pub fn applied(operation: Operation, x: i64, y: i64) -> (result: Result<i64, EvaluateError>)
    ensures
        result_view(result) == applied_spec(operation, x as int, y as int),
{
    match operation {
        Operation::Add => checked(x as i128 + y as i128),
        Operation::Subtract => checked(x as i128 - y as i128),
        Operation::Multiply => {
            assert(-0x4000_0000_0000_0000_0000_0000_0000_0000 <= (x as int) * (y as int)
                <= 0x4000_0000_0000_0000_0000_0000_0000_0000) by (nonlinear_arith)
                requires
                    -0x8000_0000_0000_0000 <= x <= 0x8000_0000_0000_0000,
                    -0x8000_0000_0000_0000 <= y <= 0x8000_0000_0000_0000,
            ;
            checked((x as i128) * (y as i128))
        },
        Operation::Divide => {
            if y == 0 {
                return Err(EvaluateError::DivideByZero);
            }
            let q = (magnitude(x) / magnitude(y)) as i128;
            if (x < 0) != (y < 0) {
                checked(-q)
            } else {
                checked(q)
            }
        },
        Operation::Modulo => {
            if y == 0 {
                return Err(EvaluateError::DivideByZero);
            }
            let r = (magnitude(x) % magnitude(y)) as i128;
            if x < 0 {
                checked(-r)
            } else {
                checked(r)
            }
        },
    }
}

/// The value of two expressions joined by an operation, from their values.
pub fn joined_value(
    operation: Operation,
    left: Result<i64, EvaluateError>,
    right: Result<i64, EvaluateError>,
) -> (result: Result<i64, EvaluateError>)
    ensures
        result_view(result) == joined_value_spec(operation, result_view(left), result_view(right)),
{
    match left {
        Err(error) => Err(error),
        Ok(x) => match right {
            Err(error) => Err(error),
            Ok(y) => applied(operation, x, y),
        },
    }
}

impl NumericExpr {
    /// Whether the expression names a label anywhere.
    pub fn has_label(&self) -> (yes: bool)
        ensures
            yes == has_label_spec(self@),
        decreases self,
    {
        match self {
            NumericExpr::Value(ExprValue::Number(_)) => false,
            NumericExpr::Value(ExprValue::Label(_)) => true,
            NumericExpr::Add(a, b) => a.has_label() || b.has_label(),
            NumericExpr::Subtract(a, b) => a.has_label() || b.has_label(),
            NumericExpr::Multiply(a, b) => a.has_label() || b.has_label(),
            NumericExpr::Divide(a, b) => a.has_label() || b.has_label(),
            NumericExpr::Modulo(a, b) => a.has_label() || b.has_label(),
            NumericExpr::Paren(a) => a.has_label(),
        }
    }

    /// The value of the expression with each label standing for its line.
    pub fn absolute(&self, labels: &StringHashMap<i64>) -> (result: Result<i64, EvaluateError>)
        ensures
            result_view(result) == absolute_spec(self@, labels@),
        decreases *self,
    {
        match self {
            NumericExpr::Value(ExprValue::Number(n)) => Ok(*n),
            NumericExpr::Value(ExprValue::Label(l)) => match labels.get(l.as_str()) {
                Some(line) => Ok(*line),
                None => Err(EvaluateError::UndefinedLabel(l.clone())),
            },
            NumericExpr::Add(a, b) => joined_value(
                Operation::Add,
                a.absolute(labels),
                b.absolute(labels),
            ),
            NumericExpr::Subtract(a, b) => joined_value(
                Operation::Subtract,
                a.absolute(labels),
                b.absolute(labels),
            ),
            NumericExpr::Multiply(a, b) => joined_value(
                Operation::Multiply,
                a.absolute(labels),
                b.absolute(labels),
            ),
            NumericExpr::Divide(a, b) => joined_value(
                Operation::Divide,
                a.absolute(labels),
                b.absolute(labels),
            ),
            NumericExpr::Modulo(a, b) => joined_value(
                Operation::Modulo,
                a.absolute(labels),
                b.absolute(labels),
            ),
            NumericExpr::Paren(a) => a.absolute(labels),
        }
    }

    /// The value of the expression in the line `current_line`.
    ///
    /// Each label stands for the line it marks. Where the expression names a
    /// label, the line's own number is taken off the value, so that the
    /// result counts from the line itself. Fails with `UndefinedLabel` on a
    /// label that the table lacks, with `DivideByZero` on a division or a
    /// remainder by zero, and with `Overflow` where a value on the way does
    /// not fit in 64 bits.
    pub fn evaluate(&self, labels: &StringHashMap<i64>, current_line: usize) -> (result: Result<
        i64,
        EvaluateError,
    >)
        ensures
            result_view(result) == evaluate_spec(self@, labels@, current_line as int),
    {
        let value = match self.absolute(labels) {
            Ok(value) => value,
            Err(error) => {
                return Err(error);
            },
        };
        if self.has_label() {
            checked(value as i128 - current_line as i128)
        } else {
            Ok(value)
        }
    }
}

/// The text of an expression: numbers in base ten, labels as they are, each
/// operator sign between blanks, round brackets where the expression has
/// them.
pub open spec fn expr_text_spec(expr: ExprView) -> Seq<char>
    decreases expr,
{
    match expr {
        ExprView::Number(n) => number_text_spec(n),
        ExprView::Label(l) => l,
        ExprView::Add(a, b) => expr_text_spec(*a) + " + "@ + expr_text_spec(*b),
        ExprView::Subtract(a, b) => expr_text_spec(*a) + " - "@ + expr_text_spec(*b),
        ExprView::Multiply(a, b) => expr_text_spec(*a) + " * "@ + expr_text_spec(*b),
        ExprView::Divide(a, b) => expr_text_spec(*a) + " / "@ + expr_text_spec(*b),
        ExprView::Modulo(a, b) => expr_text_spec(*a) + " % "@ + expr_text_spec(*b),
        ExprView::Paren(a) => "("@ + expr_text_spec(*a) + ")"@,
    }
}

impl NumericExpr {
    /// Writes the expression at the end of `out`.
    pub fn push_text(&self, out: &mut String)
        ensures
            final(out)@ == old(out)@ + expr_text_spec(self@),
        decreases *self,
    {
        match self {
            NumericExpr::Value(ExprValue::Number(n)) => push_number(out, *n as i128),
            NumericExpr::Value(ExprValue::Label(l)) => out.append(l.as_str()),
            NumericExpr::Add(a, b) => {
                a.push_text(out);
                out.append(" + ");
                b.push_text(out);
                assert(out@ =~= old(out)@ + expr_text_spec(self@));
            },
            NumericExpr::Subtract(a, b) => {
                a.push_text(out);
                out.append(" - ");
                b.push_text(out);
                assert(out@ =~= old(out)@ + expr_text_spec(self@));
            },
            NumericExpr::Multiply(a, b) => {
                a.push_text(out);
                out.append(" * ");
                b.push_text(out);
                assert(out@ =~= old(out)@ + expr_text_spec(self@));
            },
            NumericExpr::Divide(a, b) => {
                a.push_text(out);
                out.append(" / ");
                b.push_text(out);
                assert(out@ =~= old(out)@ + expr_text_spec(self@));
            },
            NumericExpr::Modulo(a, b) => {
                a.push_text(out);
                out.append(" % ");
                b.push_text(out);
                assert(out@ =~= old(out)@ + expr_text_spec(self@));
            },
            NumericExpr::Paren(a) => {
                out.append("(");
                a.push_text(out);
                out.append(")");
                assert(out@ =~= old(out)@ + expr_text_spec(self@));
            },
        }
    }

    /// The expression as text, such as `3 * (tag + 4)`.
    pub fn to_string(&self) -> (text: String)
        ensures
            text@ == expr_text_spec(self@),
    {
        let mut text = String::new();
        self.push_text(&mut text);
        assert(text@ =~= expr_text_spec(self@));
        text
    }
}

} // verus!
