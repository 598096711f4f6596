use crate::ast::{
    spec_expr_of, BinaryExpression, Expression, GroupingExpression, LiteralExpression, SpecExpr,
    SpecLiteral, UnaryExpression,
};
use vstd::prelude::*;
use vstd::string::StringExecFns;

verus! {

/// Double dispatch over expression trees: one generic traversal accepts any
/// node and dispatches by variant to the four handlers a concrete visitor
/// supplies, so that new consumers of a tree can be added without touching
/// the node definitions. A visitor states what it asks of a node in `pre`
/// and what its result means in `post`; the traversal guarantees exactly
/// that relation.
pub trait Visitor<T> {
    /// What the visitor requires of a node before visiting it.
    spec fn pre(&self, e: SpecExpr) -> bool;

    /// What the visitor's result means for the node it was produced from.
    spec fn post(&self, e: SpecExpr, r: T) -> bool;

    fn visit_binary_expression(&self, expr: &BinaryExpression) -> (r: T)
        requires
            self.pre(spec_expr_of(Expression::Binary(*expr))),
        ensures
            self.post(spec_expr_of(Expression::Binary(*expr)), r),
        decreases *expr,
    ;

    fn visit_grouping_expression(&self, expr: &GroupingExpression) -> (r: T)
        requires
            self.pre(spec_expr_of(Expression::Grouping(*expr))),
        ensures
            self.post(spec_expr_of(Expression::Grouping(*expr)), r),
        decreases *expr,
    ;

    fn visit_literal_expression(&self, expr: &LiteralExpression) -> (r: T)
        requires
            self.pre(spec_expr_of(Expression::Literal(*expr))),
        ensures
            self.post(spec_expr_of(Expression::Literal(*expr)), r),
        decreases *expr,
    ;

    fn visit_unary_expression(&self, expr: &UnaryExpression) -> (r: T)
        requires
            self.pre(spec_expr_of(Expression::Unary(*expr))),
        ensures
            self.post(spec_expr_of(Expression::Unary(*expr)), r),
        decreases *expr,
    ;
}

/// The single traversal entry: dispatches any node by variant to the
/// visitor's handler for it.
pub fn visit_expression<T, V: Visitor<T>>(v: &V, expr: &Expression) -> (r: T)
    requires
        v.pre(expr@),
    ensures
        v.post(expr@, r),
    decreases *expr,
{
    match expr {
        Expression::Binary(b) => v.visit_binary_expression(b),
        Expression::Grouping(g) => v.visit_grouping_expression(g),
        Expression::Literal(l) => v.visit_literal_expression(l),
        Expression::Unary(u) => v.visit_unary_expression(u),
    }
}

/// The parenthesized text a tree renders to: every binary or unary
/// application is wrapped in parentheses, with the operator's own lexeme
/// between or before its operands, and every literal prints its lexeme; the
/// rendering of a tree re-parses to a tree with the same value.
pub open spec fn spec_print(e: SpecExpr) -> Seq<char>
    decreases e,
{
    match e {
        SpecExpr::Binary { left, operator, right } => "("@ + spec_print(*left) + " "@
            + operator.lexeme + " "@ + spec_print(*right) + ")"@,
        SpecExpr::Grouping(inner) => "("@ + spec_print(*inner) + ")"@,
        SpecExpr::Literal(l) => match l {
            SpecLiteral::Bool(t) => t.lexeme,
            SpecLiteral::Nil(t) => t.lexeme,
            SpecLiteral::Number(t) => t.lexeme,
            SpecLiteral::String(t) => t.lexeme,
        },
        SpecExpr::Unary { operator, operand } => "("@ + operator.lexeme + " "@ + spec_print(
            *operand,
        ) + ")"@,
    }
}

/// Renders a parsed tree back to parenthesized text.
pub struct PrettyPrinter;

impl PrettyPrinter {
    /// Renders any node to the text `spec_print` describes.
    pub fn print(&self, expr: &Expression) -> (r: String)
        ensures
            r@ == spec_print(expr@),
        decreases *expr,
    {
        match expr {
            Expression::Binary(b) => self.visit_binary_expression(b),
            Expression::Grouping(g) => self.visit_grouping_expression(g),
            Expression::Literal(l) => self.visit_literal_expression(l),
            Expression::Unary(u) => self.visit_unary_expression(u),
        }
    }
}

impl Visitor<String> for PrettyPrinter {
    open spec fn pre(&self, e: SpecExpr) -> bool {
        true
    }

    open spec fn post(&self, e: SpecExpr, r: String) -> bool {
        r@ == spec_print(e)
    }

    fn visit_binary_expression(&self, expr: &BinaryExpression) -> (r: String)
        decreases *expr,
    {
        let left = self.print(&*expr.left);
        let right = self.print(&*expr.right);
        let mut s = String::from_str("(");
        s.append(left.as_str());
        s.append(" ");
        s.append(expr.operator.lexeme.as_str());
        s.append(" ");
        s.append(right.as_str());
        s.append(")");
        proof {
            assert(s@ =~= spec_print(spec_expr_of(Expression::Binary(*expr))));
        }
        s
    }

    fn visit_grouping_expression(&self, expr: &GroupingExpression) -> (r: String)
        decreases *expr,
    {
        let inner = self.print(&*expr.0);
        let mut s = String::from_str("(");
        s.append(inner.as_str());
        s.append(")");
        proof {
            assert(s@ =~= spec_print(spec_expr_of(Expression::Grouping(*expr))));
        }
        s
    }

    fn visit_literal_expression(&self, expr: &LiteralExpression) -> (r: String)
        decreases *expr,
    {
        match expr {
            LiteralExpression::Bool(token) => token.lexeme.clone(),
            LiteralExpression::Nil(token) => token.lexeme.clone(),
            LiteralExpression::Number(token) => token.lexeme.clone(),
            LiteralExpression::String(token) => token.lexeme.clone(),
        }
    }

    fn visit_unary_expression(&self, expr: &UnaryExpression) -> (r: String)
        decreases *expr,
    {
        let operand = self.print(&*expr.operand);
        let mut s = String::from_str("(");
        s.append(expr.operator.lexeme.as_str());
        s.append(" ");
        s.append(operand.as_str());
        s.append(")");
        proof {
            assert(s@ =~= spec_print(spec_expr_of(Expression::Unary(*expr))));
        }
        s
    }
}

} // verus!
