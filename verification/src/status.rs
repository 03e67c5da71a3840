//! HTTP status codes in attribute arguments.

use crate::error::{MacroError, Messages};
use crate::syntax::{segment_names, Expr, ExprKind, ExprKindModel};
use crate::text::{join3, text_is};
use proc_macro2::Span;
use vstd::prelude::*;

verus! {

/// The number that a text of decimal digits stands for; `None` where a character
/// is no digit.
pub open spec fn decimal_value(digits: Seq<char>) -> Option<nat>
    decreases digits.len(),
{
    if digits.len() == 0 {
        Some(0)
    } else {
        match decimal_value(digits.drop_last()) {
            Some(n) => if '0' <= digits.last() <= '9' {
                Some((n * 10 + (digits.last() as u32 - '0' as u32)) as nat)
            } else {
                None
            },
            None => None,
        }
    }
}

/// The code that a text of decimal digits stands for, or why it stands for none.
pub open spec fn code_of_digits(digits: Seq<char>) -> Result<u16, Messages> {
    if digits.len() == 0 {
        Err(seq!["cannot parse integer from empty string"@])
    } else {
        match decimal_value(digits) {
            Some(n) => if n <= u16::MAX {
                Ok(n as u16)
            } else {
                Err(seq!["number too large to fit in target type"@])
            },
            None => Err(seq!["invalid digit found in string"@]),
        }
    }
}

/// The code of a `Status::*` constant.
pub open spec fn code_of_constant(name: Seq<char>) -> Option<u16> {
    if name == "OK"@ {
        Some(200)
    } else if name == "CREATED"@ {
        Some(201)
    } else if name == "ACCEPTED"@ {
        Some(202)
    } else if name == "NO_CONTENT"@ {
        Some(204)
    } else if name == "BAD_REQUEST"@ {
        Some(400)
    } else if name == "UNAUTHORIZED"@ {
        Some(401)
    } else if name == "FORBIDDEN"@ {
        Some(403)
    } else if name == "NOT_FOUND"@ {
        Some(404)
    } else if name == "CONFLICT"@ {
        Some(409)
    } else if name == "UNPROCESSABLE_ENTITY"@ {
        Some(422)
    } else if name == "TOO_MANY_REQUESTS"@ {
        Some(429)
    } else if name == "INTERNAL_SERVER_ERROR"@ {
        Some(500)
    } else if name == "NOT_IMPLEMENTED"@ {
        Some(501)
    } else if name == "SERVICE_UNAVAILABLE"@ {
        Some(503)
    } else if name == "GATEWAY_TIMEOUT"@ {
        Some(504)
    } else {
        None
    }
}

/// The code that the value of `status` stands for: an integer literal or a
/// `Status::*` constant.
pub open spec fn status_of(kind: ExprKindModel) -> Result<u16, Messages> {
    match kind {
        ExprKindModel::Int(digits) => code_of_digits(digits),
        ExprKindModel::Path(names) => if names.len() == 0 {
            Err(seq!["expected `Status::UNPROCESSABLE_ENTITY`"@])
        } else {
            match code_of_constant(names.last()) {
                Some(code) => Ok(code),
                None => Err(
                    seq!["expected a `Status::*` constant, found `"@ + names.last() + "`"@],
                ),
            }
        },
        ExprKindModel::Str(_) => Err(
            seq!["expected a status code like `422` or `Status::UNPROCESSABLE_ENTITY`"@],
        ),
        ExprKindModel::Lit => Err(
            seq!["expected a status code like `422` or `Status::UNPROCESSABLE_ENTITY`"@],
        ),
        ExprKindModel::Other => Err(seq!["expected `422` or `Status::UNPROCESSABLE_ENTITY`"@]),
    }
}

/// Where a complaint about the value of `status` is reported: at the last segment
/// of a path, and at the whole of any other expression.
pub open spec fn status_place(expr: Expr) -> Span {
    match expr.kind {
        ExprKind::Path(segments) => if segments@.len() == 0 {
            expr.span
        } else {
            segments@.last().span
        },
        _ => expr.span,
    }
}

/// Once a character is no digit, or the number is out of range, nothing that
/// follows mends it.
proof fn lemma_decimal_value_prefix(digits: Seq<char>, i: int)
    requires
        0 <= i <= digits.len(),
    ensures
        decimal_value(digits.take(i)) is None ==> decimal_value(digits) is None,
        decimal_value(digits) is Some ==> decimal_value(digits.take(i)) is Some && decimal_value(
            digits,
        )->0 >= decimal_value(digits.take(i))->0,
    decreases digits.len() - i,
{
    if i < digits.len() {
        lemma_decimal_value_prefix(digits, i + 1);
        assert(digits.take(i + 1).drop_last() =~= digits.take(i));
    } else {
        assert(digits.take(i) =~= digits);
    }
}

fn parse_code(digits: &str, span: Span) -> (code: Result<u16, MacroError>)
    ensures
        code matches Ok(c) ==> (code_of_digits(digits@) matches Ok(d) && d == c),
        code matches Err(e) ==> (code_of_digits(digits@) matches Err(m) && m == e@) && e.place() == span,
{
    let chars = str_chars(digits);
    if chars.len() == 0 {
        return Err(MacroError::new(span, "cannot parse integer from empty string".to_owned()));
    }
    let mut value: u32 = 0;
    let mut large = false;
    let mut i: usize = 0;
    while i < chars.len()
        invariant
            i <= chars.len(),
            chars@ == digits@,
            chars.len() > 0,
            decimal_value(digits@.take(i as int)) is Some,
            large == (decimal_value(digits@.take(i as int))->0 > u16::MAX),
            !large ==> value == decimal_value(digits@.take(i as int))->0,
        decreases chars.len() - i,
    {
        let c = chars[i];
        proof {
            assert(digits@.take(i + 1).drop_last() =~= digits@.take(i as int));
            lemma_decimal_value_prefix(digits@, i + 1);
        }
        if c < '0' || c > '9' {
            return Err(MacroError::new(span, "invalid digit found in string".to_owned()));
        }
        if !large {
            value = value * 10 + (c as u32 - '0' as u32);
            large = value > 65535;
        }
        i += 1;
    }
    assert(digits@.take(i as int) =~= digits@);
    if large {
        return Err(MacroError::new(span, "number too large to fit in target type".to_owned()));
    }
    Ok(value as u16)
}

/// The characters of a text.
fn str_chars(text: &str) -> (chars: Vec<char>)
    ensures
        chars@ == text@,
{
    let mut chars: Vec<char> = Vec::new();
    let n: usize = text.unicode_len();
    let mut i: usize = 0;
    while i < n
        invariant
            i <= n,
            n == text@.len(),
            chars@ =~= text@.take(i as int),
        decreases n - i,
    {
        chars.push(text.get_char(i));
        i += 1;
    }
    chars
}

/// The code of a `Status::*` constant.
pub fn constant_code(name: &String) -> (code: Option<u16>)
    ensures
        code == code_of_constant(name@),
{
    if text_is(name, "OK") {
        Some(200)
    } else if text_is(name, "CREATED") {
        Some(201)
    } else if text_is(name, "ACCEPTED") {
        Some(202)
    } else if text_is(name, "NO_CONTENT") {
        Some(204)
    } else if text_is(name, "BAD_REQUEST") {
        Some(400)
    } else if text_is(name, "UNAUTHORIZED") {
        Some(401)
    } else if text_is(name, "FORBIDDEN") {
        Some(403)
    } else if text_is(name, "NOT_FOUND") {
        Some(404)
    } else if text_is(name, "CONFLICT") {
        Some(409)
    } else if text_is(name, "UNPROCESSABLE_ENTITY") {
        Some(422)
    } else if text_is(name, "TOO_MANY_REQUESTS") {
        Some(429)
    } else if text_is(name, "INTERNAL_SERVER_ERROR") {
        Some(500)
    } else if text_is(name, "NOT_IMPLEMENTED") {
        Some(501)
    } else if text_is(name, "SERVICE_UNAVAILABLE") {
        Some(503)
    } else if text_is(name, "GATEWAY_TIMEOUT") {
        Some(504)
    } else {
        None
    }
}

/// Normalizes the value of `status`: `422` and `Status::UNPROCESSABLE_ENTITY`
/// both become 422.
pub fn status_from_expr(expr: &Expr) -> (code: Result<u16, MacroError>)
    ensures
        code matches Ok(c) ==> (status_of(expr@.kind) matches Ok(d) && d == c),
        code matches Err(e) ==> (status_of(expr@.kind) matches Err(m) && m == e@) && e.place() == status_place(*expr),
{
    let span = expr.span;
    match &expr.kind {
        ExprKind::Int(digits) => parse_code(digits.as_str(), span),
        ExprKind::Path(segments) => {
            if segments.len() == 0 {
                return Err(
                    MacroError::new(span, "expected `Status::UNPROCESSABLE_ENTITY`".to_owned()),
                );
            }
            let last = &segments[segments.len() - 1];
            assert(segment_names(segments@).last() == last.ident@);
            match constant_code(&last.ident) {
                Some(code) => Ok(code),
                None => Err(
                    MacroError::new(
                        last.span,
                        join3(
                            "expected a `Status::*` constant, found `",
                            last.ident.as_str(),
                            "`",
                        ),
                    ),
                ),
            }
        },
        ExprKind::Other => Err(
            MacroError::new(
                span,
                "expected `422` or `Status::UNPROCESSABLE_ENTITY`".to_owned(),
            ),
        ),
        _ => Err(
            MacroError::new(
                span,
                "expected a status code like `422` or `Status::UNPROCESSABLE_ENTITY`".to_owned(),
            ),
        ),
    }
}

} // verus!
