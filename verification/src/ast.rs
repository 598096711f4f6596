use crate::token::{SpecToken, SpecTokenType, Token};
use vstd::prelude::*;

verus! {

/// A binary application: `left operator right`.
#[derive(Debug)]
pub struct BinaryExpression {
    pub left: Box<Expression>,
    pub operator: Token,
    pub right: Box<Expression>,
}

/// A parenthesized expression.
#[derive(Debug)]
pub struct GroupingExpression(pub Box<Expression>);

/// A unary application: `operator operand`.
#[derive(Debug)]
pub struct UnaryExpression {
    pub operator: Token,
    pub operand: Box<Expression>,
}

/// An expression tree node: a closed variant set, immutable once built. Each
/// node exclusively owns its children.
#[derive(Debug)]
pub enum Expression {
    Binary(BinaryExpression),
    Grouping(GroupingExpression),
    Literal(LiteralExpression),
    Unary(UnaryExpression),
}

/// A literal leaf, carrying the token it was parsed from.
#[derive(Debug)]
pub enum LiteralExpression {
    Bool(Token),
    Nil(Token),
    Number(Token),
    String(Token),
}

/// The mathematical model of an expression tree.
pub enum SpecExpr {
    Binary { left: Box<SpecExpr>, operator: SpecToken, right: Box<SpecExpr> },
    Grouping(Box<SpecExpr>),
    Literal(SpecLiteral),
    Unary { operator: SpecToken, operand: Box<SpecExpr> },
}

/// The mathematical model of a literal leaf.
pub enum SpecLiteral {
    Bool(SpecToken),
    Nil(SpecToken),
    Number(SpecToken),
    String(SpecToken),
}

impl View for LiteralExpression {
    type V = SpecLiteral;

    open spec fn view(&self) -> SpecLiteral {
        match self {
            LiteralExpression::Bool(t) => SpecLiteral::Bool(t@),
            LiteralExpression::Nil(t) => SpecLiteral::Nil(t@),
            LiteralExpression::Number(t) => SpecLiteral::Number(t@),
            LiteralExpression::String(t) => SpecLiteral::String(t@),
        }
    }
}

/// The model of an expression tree, node by node.
pub open spec fn spec_expr_of(e: Expression) -> SpecExpr
    decreases e,
{
    match e {
        Expression::Binary(b) => SpecExpr::Binary {
            left: Box::new(spec_expr_of(*b.left)),
            operator: b.operator@,
            right: Box::new(spec_expr_of(*b.right)),
        },
        Expression::Grouping(g) => SpecExpr::Grouping(Box::new(spec_expr_of(*g.0))),
        Expression::Literal(l) => SpecExpr::Literal(l@),
        Expression::Unary(u) => SpecExpr::Unary {
            operator: u.operator@,
            operand: Box::new(spec_expr_of(*u.operand)),
        },
    }
}

impl View for Expression {
    type V = SpecExpr;

    open spec fn view(&self) -> SpecExpr {
        spec_expr_of(*self)
    }
}

/// The binary operators of the grammar, one precedence level each.
pub open spec fn spec_is_binary_op(k: SpecTokenType) -> bool {
    ||| k is BangEqual
    ||| k is EqualEqual
    ||| k is Less
    ||| k is LessEqual
    ||| k is Greater
    ||| k is GreaterEqual
    ||| k is Minus
    ||| k is Plus
    ||| k is Slash
    ||| k is Star
}

/// Well-formedness of an expression tree as the parser builds it: every
/// operator token is one of the grammar's operators and every literal leaf
/// carries a token of the matching kind.
pub open spec fn spec_wf_expr(e: SpecExpr) -> bool
    decreases e,
{
    match e {
        SpecExpr::Binary { left, operator, right } => {
            &&& spec_is_binary_op(operator.kind)
            &&& spec_wf_expr(*left)
            &&& spec_wf_expr(*right)
        },
        SpecExpr::Grouping(inner) => spec_wf_expr(*inner),
        SpecExpr::Literal(l) => match l {
            SpecLiteral::Bool(t) => t.kind is True || t.kind is False,
            SpecLiteral::Nil(t) => t.kind is Nil,
            SpecLiteral::Number(t) => t.kind is Number,
            SpecLiteral::String(t) => t.kind is String,
        },
        SpecExpr::Unary { operator, operand } => {
            &&& (operator.kind is Bang || operator.kind is Minus)
            &&& spec_wf_expr(*operand)
        },
    }
}

impl Expression {
    pub fn binary(left: Expression, operator: Token, right: Expression) -> (r: Self)
        ensures
            r@ == (SpecExpr::Binary {
                left: Box::new(left@),
                operator: operator@,
                right: Box::new(right@),
            }),
    {
        Self::Binary(
            BinaryExpression { left: Box::new(left), operator, right: Box::new(right) },
        )
    }

    pub fn grouping(expr: Expression) -> (r: Self)
        ensures
            r@ == SpecExpr::Grouping(Box::new(expr@)),
    {
        Self::Grouping(GroupingExpression(Box::new(expr)))
    }

    pub fn unary(operator: Token, operand: Expression) -> (r: Self)
        ensures
            r@ == (SpecExpr::Unary { operator: operator@, operand: Box::new(operand@) }),
    {
        Self::Unary(UnaryExpression { operator, operand: Box::new(operand) })
    }

    pub fn bool(token: Token) -> (r: Self)
        ensures
            r@ == SpecExpr::Literal(SpecLiteral::Bool(token@)),
    {
        Self::Literal(LiteralExpression::Bool(token))
    }

    pub fn nil(token: Token) -> (r: Self)
        ensures
            r@ == SpecExpr::Literal(SpecLiteral::Nil(token@)),
    {
        Self::Literal(LiteralExpression::Nil(token))
    }

    pub fn number(token: Token) -> (r: Self)
        ensures
            r@ == SpecExpr::Literal(SpecLiteral::Number(token@)),
    {
        Self::Literal(LiteralExpression::Number(token))
    }

    pub fn string(token: Token) -> (r: Self)
        ensures
            r@ == SpecExpr::Literal(SpecLiteral::String(token@)),
    {
        Self::Literal(LiteralExpression::String(token))
    }
}

} // verus!
