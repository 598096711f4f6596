use crate::ast::{
    spec_expr_of, spec_wf_expr, BinaryExpression, Expression, GroupingExpression,
    LiteralExpression, SpecExpr, SpecLiteral, UnaryExpression,
};
use crate::number::{
    add_numbers, div_numbers, eq_numbers, ge_numbers, gt_numbers, le_numbers, lt_numbers,
    mul_numbers, neg_number, num_add, num_div, num_eq, num_ge, num_gt, num_le, num_lt, num_mul,
    num_neg, num_sub, sub_numbers,
};
use crate::token::{SpecToken, SpecTokenType, Token, TokenType};
use crate::value::{spec_equal_values, spec_truthy, LiteralValue, SpecValue};
use crate::visitor::{visit_expression, Visitor};
use vstd::prelude::*;
use vstd::string::StringExecFns;

verus! {

/// A structured runtime failure: the offending operator token and a message.
/// The first such error anywhere in a tree aborts the whole evaluation.
#[derive(Debug)]
pub struct RuntimeError {
    pub message: String,
    pub token: Token,
}

/// The message reported when an operator needs numeric operands and is
/// given anything else.
pub open spec fn spec_msg_operand_number() -> Seq<char> {
    "invalid operand type: a numerical value is expected"@
}

/// The message reported when `+` is given operands that are neither two
/// numbers nor two strings.
pub open spec fn spec_msg_plus_operands() -> Seq<char> {
    "operands must be two numbers or two strings."@
}

/// The message reported for a binary token outside the operator table.
pub open spec fn spec_msg_operator_unsupported() -> Seq<char> {
    "operator not supported"@
}

/// The value a literal leaf denotes: its token carries the decoded payload.
pub open spec fn spec_literal_value(l: SpecLiteral) -> SpecValue {
    match l {
        SpecLiteral::Bool(t) => SpecValue::Bool(t.kind is True),
        SpecLiteral::Nil(_) => SpecValue::Nil,
        SpecLiteral::Number(t) => match t.kind {
            SpecTokenType::Number(bits) => SpecValue::Number(bits),
            _ => SpecValue::Nil,
        },
        SpecLiteral::String(t) => match t.kind {
            SpecTokenType::String(s) => SpecValue::String(s),
            _ => SpecValue::Nil,
        },
    }
}

/// The operator table for a binary application: `-` `/` `*` and the four
/// orderings need two numbers, `+` takes two numbers or two strings with no
/// coercion, and `==` / `!=` compare any two values structurally and never
/// fail.
pub open spec fn spec_apply_binary(op: SpecToken, l: SpecValue, r: SpecValue) -> Result<
    SpecValue,
    (SpecToken, Seq<char>),
> {
    match op.kind {
        SpecTokenType::Minus => match (l, r) {
            (SpecValue::Number(a), SpecValue::Number(b)) => Ok(SpecValue::Number(num_sub(a, b))),
            _ => Err((op, spec_msg_operand_number())),
        },
        SpecTokenType::Slash => match (l, r) {
            (SpecValue::Number(a), SpecValue::Number(b)) => Ok(SpecValue::Number(num_div(a, b))),
            _ => Err((op, spec_msg_operand_number())),
        },
        SpecTokenType::Star => match (l, r) {
            (SpecValue::Number(a), SpecValue::Number(b)) => Ok(SpecValue::Number(num_mul(a, b))),
            _ => Err((op, spec_msg_operand_number())),
        },
        SpecTokenType::Plus => match (l, r) {
            (SpecValue::Number(a), SpecValue::Number(b)) => Ok(SpecValue::Number(num_add(a, b))),
            (SpecValue::String(x), SpecValue::String(y)) => Ok(SpecValue::String(x + y)),
            _ => Err((op, spec_msg_plus_operands())),
        },
        SpecTokenType::Greater => match (l, r) {
            (SpecValue::Number(a), SpecValue::Number(b)) => Ok(SpecValue::Bool(num_gt(a, b))),
            _ => Err((op, spec_msg_operand_number())),
        },
        SpecTokenType::GreaterEqual => match (l, r) {
            (SpecValue::Number(a), SpecValue::Number(b)) => Ok(SpecValue::Bool(num_ge(a, b))),
            _ => Err((op, spec_msg_operand_number())),
        },
        SpecTokenType::Less => match (l, r) {
            (SpecValue::Number(a), SpecValue::Number(b)) => Ok(SpecValue::Bool(num_lt(a, b))),
            _ => Err((op, spec_msg_operand_number())),
        },
        SpecTokenType::LessEqual => match (l, r) {
            (SpecValue::Number(a), SpecValue::Number(b)) => Ok(SpecValue::Bool(num_le(a, b))),
            _ => Err((op, spec_msg_operand_number())),
        },
        SpecTokenType::EqualEqual => Ok(SpecValue::Bool(spec_equal_values(l, r))),
        SpecTokenType::BangEqual => Ok(SpecValue::Bool(!spec_equal_values(l, r))),
        _ => Err((op, spec_msg_operator_unsupported())),
    }
}

/// Post-order evaluation of a tree to a runtime value or the first runtime
/// error: for a binary application the left operand is evaluated first, then
/// the right, then the operator is applied.
pub open spec fn spec_eval(e: SpecExpr) -> Result<SpecValue, (SpecToken, Seq<char>)>
    decreases e,
{
    match e {
        SpecExpr::Literal(l) => Ok(spec_literal_value(l)),
        SpecExpr::Grouping(inner) => spec_eval(*inner),
        SpecExpr::Unary { operator, operand } => match spec_eval(*operand) {
            Err(er) => Err(er),
            Ok(v) => match operator.kind {
                SpecTokenType::Minus => match v {
                    SpecValue::Number(n) => Ok(SpecValue::Number(num_neg(n))),
                    _ => Err((operator, spec_msg_operand_number())),
                },
                SpecTokenType::Bang => Ok(SpecValue::Bool(!spec_truthy(v))),
                _ => Err((operator, spec_msg_operand_number())),
            },
        },
        SpecExpr::Binary { left, operator, right } => match spec_eval(*left) {
            Err(er) => Err(er),
            Ok(lv) => match spec_eval(*right) {
                Err(er) => Err(er),
                Ok(rv) => spec_apply_binary(operator, lv, rv),
            },
        },
    }
}

/// How an executable evaluation relates to `spec_eval`: the same value, or
/// the same offending token and message.
pub open spec fn spec_eval_matches(e: SpecExpr, r: Result<LiteralValue, RuntimeError>) -> bool {
    match spec_eval(e) {
        Ok(v) => r matches Ok(rv) && rv@ == v,
        Err((t, m)) => r matches Err(re) && re.token@ == t && re.message@ == m,
    }
}

/// The evaluating visitor.
struct TreeWalker;

impl TreeWalker {
    /// Evaluates any well-formed node as `spec_eval` describes.
    fn eval(&self, expr: &Expression) -> (r: Result<LiteralValue, RuntimeError>)
        requires
            spec_wf_expr(expr@),
        ensures
            spec_eval_matches(expr@, r),
        decreases *expr,
    {
        match expr {
            Expression::Binary(b) => self.visit_binary_expression(b),
            Expression::Grouping(g) => self.visit_grouping_expression(g),
            Expression::Literal(l) => self.visit_literal_expression(l),
            Expression::Unary(u) => self.visit_unary_expression(u),
        }
    }
}

impl Visitor<Result<LiteralValue, RuntimeError>> for TreeWalker {
    open spec fn pre(&self, e: SpecExpr) -> bool {
        spec_wf_expr(e)
    }

    open spec fn post(&self, e: SpecExpr, r: Result<LiteralValue, RuntimeError>) -> bool {
        spec_eval_matches(e, r)
    }

    #[verifier::rlimit(100)]
    fn visit_binary_expression(&self, expr: &BinaryExpression) -> (r: Result<
        LiteralValue,
        RuntimeError,
    >)
        decreases *expr,
    {
        let left_val = match self.eval(&*expr.left) {
            Ok(v) => v,
            Err(er) => {
                return Err(er);
            },
        };
        let right_val = match self.eval(&*expr.right) {
            Ok(v) => v,
            Err(er) => {
                return Err(er);
            },
        };
        match &expr.operator.kind {
            TokenType::Minus => match (left_val, right_val) {
                (LiteralValue::Number(a), LiteralValue::Number(b)) => Ok(
                    LiteralValue::Number(sub_numbers(a, b)),
                ),
                _ => Err(
                    RuntimeError {
                        message: String::from_str(
                            "invalid operand type: a numerical value is expected",
                        ),
                        token: expr.operator.clone(),
                    },
                ),
            },
            TokenType::Slash => match (left_val, right_val) {
                (LiteralValue::Number(a), LiteralValue::Number(b)) => Ok(
                    LiteralValue::Number(div_numbers(a, b)),
                ),
                _ => Err(
                    RuntimeError {
                        message: String::from_str(
                            "invalid operand type: a numerical value is expected",
                        ),
                        token: expr.operator.clone(),
                    },
                ),
            },
            TokenType::Star => match (left_val, right_val) {
                (LiteralValue::Number(a), LiteralValue::Number(b)) => Ok(
                    LiteralValue::Number(mul_numbers(a, b)),
                ),
                _ => Err(
                    RuntimeError {
                        message: String::from_str(
                            "invalid operand type: a numerical value is expected",
                        ),
                        token: expr.operator.clone(),
                    },
                ),
            },
            TokenType::Plus => match (left_val, right_val) {
                (LiteralValue::Number(a), LiteralValue::Number(b)) => Ok(
                    LiteralValue::Number(add_numbers(a, b)),
                ),
                (LiteralValue::String(x), LiteralValue::String(y)) => Ok(
                    LiteralValue::String(x.concat(y.as_str())),
                ),
                _ => Err(
                    RuntimeError {
                        message: String::from_str("operands must be two numbers or two strings."),
                        token: expr.operator.clone(),
                    },
                ),
            },
            TokenType::Greater => match (left_val, right_val) {
                (LiteralValue::Number(a), LiteralValue::Number(b)) => Ok(
                    LiteralValue::Bool(gt_numbers(a, b)),
                ),
                _ => Err(
                    RuntimeError {
                        message: String::from_str(
                            "invalid operand type: a numerical value is expected",
                        ),
                        token: expr.operator.clone(),
                    },
                ),
            },
            TokenType::GreaterEqual => match (left_val, right_val) {
                (LiteralValue::Number(a), LiteralValue::Number(b)) => Ok(
                    LiteralValue::Bool(ge_numbers(a, b)),
                ),
                _ => Err(
                    RuntimeError {
                        message: String::from_str(
                            "invalid operand type: a numerical value is expected",
                        ),
                        token: expr.operator.clone(),
                    },
                ),
            },
            TokenType::Less => match (left_val, right_val) {
                (LiteralValue::Number(a), LiteralValue::Number(b)) => Ok(
                    LiteralValue::Bool(lt_numbers(a, b)),
                ),
                _ => Err(
                    RuntimeError {
                        message: String::from_str(
                            "invalid operand type: a numerical value is expected",
                        ),
                        token: expr.operator.clone(),
                    },
                ),
            },
            TokenType::LessEqual => match (left_val, right_val) {
                (LiteralValue::Number(a), LiteralValue::Number(b)) => Ok(
                    LiteralValue::Bool(le_numbers(a, b)),
                ),
                _ => Err(
                    RuntimeError {
                        message: String::from_str(
                            "invalid operand type: a numerical value is expected",
                        ),
                        token: expr.operator.clone(),
                    },
                ),
            },
            TokenType::EqualEqual => Ok(LiteralValue::Bool(left_val.equals(&right_val))),
            TokenType::BangEqual => Ok(LiteralValue::Bool(!left_val.equals(&right_val))),
            _ => Err(
                RuntimeError {
                    message: String::from_str("operator not supported"),
                    token: expr.operator.clone(),
                },
            ),
        }
    }

    fn visit_grouping_expression(&self, expr: &GroupingExpression) -> (r: Result<
        LiteralValue,
        RuntimeError,
    >)
        decreases *expr,
    {
        self.eval(&*expr.0)
    }

    fn visit_literal_expression(&self, expr: &LiteralExpression) -> (r: Result<
        LiteralValue,
        RuntimeError,
    >)
        decreases *expr,
    {
        match expr {
            LiteralExpression::Nil(_) => Ok(LiteralValue::Nil),
            LiteralExpression::Bool(token) => {
                let b = match &token.kind {
                    TokenType::True => true,
                    _ => false,
                };
                Ok(LiteralValue::Bool(b))
            },
            LiteralExpression::String(token) => match &token.kind {
                TokenType::String(s) => Ok(LiteralValue::String(s.clone())),
                _ => Ok(LiteralValue::Nil),
            },
            LiteralExpression::Number(token) => match &token.kind {
                TokenType::Number(bits) => Ok(LiteralValue::Number(*bits)),
                _ => Ok(LiteralValue::Nil),
            },
        }
    }

    fn visit_unary_expression(&self, expr: &UnaryExpression) -> (r: Result<
        LiteralValue,
        RuntimeError,
    >)
        decreases *expr,
    {
        match &expr.operator.kind {
            TokenType::Minus => match self.eval(&*expr.operand) {
                Err(er) => Err(er),
                Ok(v) => match v {
                    LiteralValue::Number(n) => Ok(LiteralValue::Number(neg_number(n))),
                    _ => Err(
                        RuntimeError {
                            message: String::from_str(
                                "invalid operand type: a numerical value is expected",
                            ),
                            token: expr.operator.clone(),
                        },
                    ),
                },
            },
            TokenType::Bang => match self.eval(&*expr.operand) {
                Err(er) => Err(er),
                Ok(v) => Ok(LiteralValue::Bool(!v.is_truthy())),
            },
            _ => Err(
                RuntimeError {
                    message: String::from_str(
                        "invalid operand type: a numerical value is expected",
                    ),
                    token: expr.operator.clone(),
                },
            ),
        }
    }
}

/// The public face of the evaluator.
pub struct Interpreter {
    tree_walker: TreeWalker,
}

impl Interpreter {
    pub fn new() -> (r: Self) {
        Interpreter { tree_walker: TreeWalker }
    }

    /// Evaluates a well-formed tree, as the parser builds it, to its runtime
    /// value, or to the first runtime error with its offending operator
    /// token.
    pub fn interpret(&self, expr: &Expression) -> (r: Result<LiteralValue, RuntimeError>)
        requires
            spec_wf_expr(expr@),
        ensures
            spec_eval_matches(expr@, r),
    {
        visit_expression(&self.tree_walker, expr)
    }
}

/// Equality comparisons never fail: `==` and `!=` are defined on any two
/// values, however their variants differ.
pub proof fn lemma_equality_never_fails(op: SpecToken, l: SpecValue, r: SpecValue)
    requires
        op.kind is EqualEqual || op.kind is BangEqual,
    ensures
        spec_apply_binary(op, l, r) is Ok,
{
}

/// `+` on two strings concatenates them.
pub proof fn lemma_plus_concatenates_strings(op: SpecToken, x: Seq<char>, y: Seq<char>)
    requires
        op.kind is Plus,
    ensures
        spec_apply_binary(op, SpecValue::String(x), SpecValue::String(y)) == Ok::<
            SpecValue,
            (SpecToken, Seq<char>),
        >(SpecValue::String(x + y)),
{
}

/// `+` between a number and a string is a runtime type error: there is no
/// implicit coercion.
pub proof fn lemma_plus_mixed_types_fail(op: SpecToken, l: SpecValue, r: SpecValue)
    requires
        op.kind is Plus,
        !(l is Number && r is Number),
        !(l is String && r is String),
    ensures
        spec_apply_binary(op, l, r) == Err::<SpecValue, (SpecToken, Seq<char>)>(
            (op, spec_msg_plus_operands()),
        ),
{
}

/// A grouping is transparent to evaluation: parentheses only override how
/// the parser associates operands, never what a tree means.
pub proof fn lemma_grouping_transparent(e: SpecExpr)
    ensures
        spec_eval(SpecExpr::Grouping(Box::new(e))) == spec_eval(e),
{
}

} // verus!
