use crate::ast::{spec_wf_expr, Expression, SpecExpr, SpecLiteral};
use crate::token::{spec_eof_token, spec_tokens, SpecToken, SpecTokenType, Token, TokenType};
use vstd::prelude::*;

verus! {

/// A structured parse failure: the offending token and a message. Parsing
/// stops at the first such error.
#[derive(Debug)]
pub struct ParseError {
    pub token: Token,
    pub message: String,
}

/// The message reported when the end of the stream is reached where an
/// expression was required.
pub open spec fn spec_msg_no_expression() -> Seq<char> {
    "no expression found"@
}

/// The message reported when no grammar rule applies to the current token.
pub open spec fn spec_msg_unexpected_token() -> Seq<char> {
    "token not expected"@
}

/// The message reported when a parenthesized expression is not closed.
pub open spec fn spec_msg_expect_right_paren() -> Seq<char> {
    "expected ')' after expression"@
}

/// A token stream the parser accepts: nonempty and closed by an
/// end-of-stream token, exactly what the lexer yields.
pub open spec fn spec_stream_ok(toks: Seq<SpecToken>) -> bool {
    toks.len() > 0 && toks.last().kind is EOF
}

/// The error value of branches that no stream satisfying `spec_stream_ok`
/// can reach; it only keeps the grammar functions total.
pub open spec fn spec_guard_err() -> (SpecToken, Seq<char>) {
    (spec_eof_token(0), Seq::<char>::empty())
}

/// The operators of the equality precedence level.
pub open spec fn spec_is_equality_op(k: SpecTokenType) -> bool {
    k is BangEqual || k is EqualEqual
}

/// The operators of the comparison precedence level.
pub open spec fn spec_is_comparison_op(k: SpecTokenType) -> bool {
    k is Less || k is LessEqual || k is Greater || k is GreaterEqual
}

/// The operators of the term precedence level.
pub open spec fn spec_is_term_op(k: SpecTokenType) -> bool {
    k is Minus || k is Plus
}

/// The operators of the factor precedence level.
pub open spec fn spec_is_factor_op(k: SpecTokenType) -> bool {
    k is Slash || k is Star
}

/// A parse at one position either yields the tree and the position after it,
/// or the offending token with a message.
pub open spec fn spec_expression(toks: Seq<SpecToken>, i: int) -> Result<
    (SpecExpr, int),
    (SpecToken, Seq<char>),
>
    decreases toks.len() - i, 6int,
{
    spec_equality(toks, i)
}

/// The equality level: a comparison, then left-folded `!=` / `==` chains.
pub open spec fn spec_equality(toks: Seq<SpecToken>, i: int) -> Result<
    (SpecExpr, int),
    (SpecToken, Seq<char>),
>
    decreases toks.len() - i, 5int,
{
    match spec_comparison(toks, i) {
        Err(e) => Err(e),
        Ok((e0, j)) => if i < j <= toks.len() {
            spec_equality_rest(toks, e0, j)
        } else {
            Err(spec_guard_err())
        },
    }
}

/// While the next token is an equality operator: consume it, parse another
/// comparison, and fold the two operands into a `Binary` node on the left.
pub open spec fn spec_equality_rest(toks: Seq<SpecToken>, left: SpecExpr, i: int) -> Result<
    (SpecExpr, int),
    (SpecToken, Seq<char>),
>
    decreases toks.len() - i, 0int,
{
    if 0 <= i < toks.len() && spec_is_equality_op(toks[i].kind) {
        match spec_comparison(toks, i + 1) {
            Err(e) => Err(e),
            Ok((r0, j)) => if i + 1 < j <= toks.len() {
                spec_equality_rest(
                    toks,
                    SpecExpr::Binary {
                        left: Box::new(left),
                        operator: toks[i],
                        right: Box::new(r0),
                    },
                    j,
                )
            } else {
                Err(spec_guard_err())
            },
        }
    } else {
        Ok((left, i))
    }
}

/// The comparison level: a term, then left-folded `<` `<=` `>` `>=` chains.
pub open spec fn spec_comparison(toks: Seq<SpecToken>, i: int) -> Result<
    (SpecExpr, int),
    (SpecToken, Seq<char>),
>
    decreases toks.len() - i, 4int,
{
    match spec_term(toks, i) {
        Err(e) => Err(e),
        Ok((e0, j)) => if i < j <= toks.len() {
            spec_comparison_rest(toks, e0, j)
        } else {
            Err(spec_guard_err())
        },
    }
}

/// While the next token is a comparison operator: fold to the left.
pub open spec fn spec_comparison_rest(toks: Seq<SpecToken>, left: SpecExpr, i: int) -> Result<
    (SpecExpr, int),
    (SpecToken, Seq<char>),
>
    decreases toks.len() - i, 0int,
{
    if 0 <= i < toks.len() && spec_is_comparison_op(toks[i].kind) {
        match spec_term(toks, i + 1) {
            Err(e) => Err(e),
            Ok((r0, j)) => if i + 1 < j <= toks.len() {
                spec_comparison_rest(
                    toks,
                    SpecExpr::Binary {
                        left: Box::new(left),
                        operator: toks[i],
                        right: Box::new(r0),
                    },
                    j,
                )
            } else {
                Err(spec_guard_err())
            },
        }
    } else {
        Ok((left, i))
    }
}

/// The term level: a factor, then left-folded `-` / `+` chains.
pub open spec fn spec_term(toks: Seq<SpecToken>, i: int) -> Result<
    (SpecExpr, int),
    (SpecToken, Seq<char>),
>
    decreases toks.len() - i, 3int,
{
    match spec_factor(toks, i) {
        Err(e) => Err(e),
        Ok((e0, j)) => if i < j <= toks.len() {
            spec_term_rest(toks, e0, j)
        } else {
            Err(spec_guard_err())
        },
    }
}

/// While the next token is a term operator: fold to the left.
pub open spec fn spec_term_rest(toks: Seq<SpecToken>, left: SpecExpr, i: int) -> Result<
    (SpecExpr, int),
    (SpecToken, Seq<char>),
>
    decreases toks.len() - i, 0int,
{
    if 0 <= i < toks.len() && spec_is_term_op(toks[i].kind) {
        match spec_factor(toks, i + 1) {
            Err(e) => Err(e),
            Ok((r0, j)) => if i + 1 < j <= toks.len() {
                spec_term_rest(
                    toks,
                    SpecExpr::Binary {
                        left: Box::new(left),
                        operator: toks[i],
                        right: Box::new(r0),
                    },
                    j,
                )
            } else {
                Err(spec_guard_err())
            },
        }
    } else {
        Ok((left, i))
    }
}

/// The factor level: a unary, then left-folded `/` / `*` chains.
pub open spec fn spec_factor(toks: Seq<SpecToken>, i: int) -> Result<
    (SpecExpr, int),
    (SpecToken, Seq<char>),
>
    decreases toks.len() - i, 2int,
{
    match spec_unary(toks, i) {
        Err(e) => Err(e),
        Ok((e0, j)) => if i < j <= toks.len() {
            spec_factor_rest(toks, e0, j)
        } else {
            Err(spec_guard_err())
        },
    }
}

/// While the next token is a factor operator: fold to the left.
pub open spec fn spec_factor_rest(toks: Seq<SpecToken>, left: SpecExpr, i: int) -> Result<
    (SpecExpr, int),
    (SpecToken, Seq<char>),
>
    decreases toks.len() - i, 0int,
{
    if 0 <= i < toks.len() && spec_is_factor_op(toks[i].kind) {
        match spec_unary(toks, i + 1) {
            Err(e) => Err(e),
            Ok((r0, j)) => if i + 1 < j <= toks.len() {
                spec_factor_rest(
                    toks,
                    SpecExpr::Binary {
                        left: Box::new(left),
                        operator: toks[i],
                        right: Box::new(r0),
                    },
                    j,
                )
            } else {
                Err(spec_guard_err())
            },
        }
    } else {
        Ok((left, i))
    }
}

/// The unary level, right-recursive: `!` or `-` applied to another unary
/// expression; otherwise a primary.
pub open spec fn spec_unary(toks: Seq<SpecToken>, i: int) -> Result<
    (SpecExpr, int),
    (SpecToken, Seq<char>),
>
    decreases toks.len() - i, 1int,
{
    if 0 <= i < toks.len() && (toks[i].kind is Bang || toks[i].kind is Minus) {
        match spec_unary(toks, i + 1) {
            Err(e) => Err(e),
            Ok((e0, j)) => Ok(
                (SpecExpr::Unary { operator: toks[i], operand: Box::new(e0) }, j),
            ),
        }
    } else {
        spec_primary(toks, i)
    }
}

/// The primary level: literal tokens map directly to `Literal` nodes, and
/// `(` must be followed by an expression and a matching `)`. Where no rule
/// applies the parse fails with the offending token: with "no expression
/// found" at the end of the stream, "token not expected" otherwise.
pub open spec fn spec_primary(toks: Seq<SpecToken>, i: int) -> Result<
    (SpecExpr, int),
    (SpecToken, Seq<char>),
>
    decreases toks.len() - i, 0int,
{
    if !(0 <= i < toks.len()) {
        Err(spec_guard_err())
    } else {
        let t = toks[i];
        match t.kind {
            SpecTokenType::True => Ok((SpecExpr::Literal(SpecLiteral::Bool(t)), i + 1)),
            SpecTokenType::False => Ok((SpecExpr::Literal(SpecLiteral::Bool(t)), i + 1)),
            SpecTokenType::Nil => Ok((SpecExpr::Literal(SpecLiteral::Nil(t)), i + 1)),
            SpecTokenType::String(_) => Ok((SpecExpr::Literal(SpecLiteral::String(t)), i + 1)),
            SpecTokenType::Number(_) => Ok((SpecExpr::Literal(SpecLiteral::Number(t)), i + 1)),
            SpecTokenType::LeftParen => match spec_expression(toks, i + 1) {
                Err(e) => Err(e),
                Ok((e0, j)) => if 0 <= j < toks.len() {
                    if toks[j].kind is RightParen {
                        Ok((SpecExpr::Grouping(Box::new(e0)), j + 1))
                    } else {
                        Err((toks[j], spec_msg_expect_right_paren()))
                    }
                } else {
                    Err(spec_guard_err())
                },
            },
            SpecTokenType::EOF => Err((t, spec_msg_no_expression())),
            _ => Err((t, spec_msg_unexpected_token())),
        }
    }
}

/// The whole parse: one expression from the start of the stream; tokens
/// after it are left unread.
pub open spec fn spec_parse(toks: Seq<SpecToken>) -> Result<SpecExpr, (SpecToken, Seq<char>)> {
    match spec_expression(toks, 0) {
        Ok((e, j)) => Ok(e),
        Err(e) => Err(e),
    }
}

/// How an executable parse relates to its grammar function: on success the
/// built tree is the well-formed tree of the grammar and the cursor stands
/// just past it (and never on or past the closing end-of-stream token); on
/// failure the error carries the grammar's offending token and message.
pub open spec fn spec_outcome(
    toks: Seq<SpecToken>,
    res: Result<(SpecExpr, int), (SpecToken, Seq<char>)>,
    r: Result<Expression, ParseError>,
    i0: int,
    i1: int,
) -> bool {
    match res {
        Ok((e, j)) => {
            &&& r matches Ok(expr) && expr@ == e
            &&& spec_wf_expr(e)
            &&& i1 == j
            &&& i0 < j < toks.len()
        },
        Err((t, m)) => r matches Err(pe) && pe.token@ == t && pe.message@ == m,
    }
}

/// Consumes a token stream with a single-token cursor, no backtracking, and
/// builds one expression tree, or stops at the first structured error.
pub struct Parser {
    pub tokens: Vec<Token>,
    pub current: usize,
}

impl Parser {
    /// The model of the parser's remaining input.
    pub open spec fn spec_toks(&self) -> Seq<SpecToken> {
        spec_tokens(self.tokens@)
    }

    pub fn new(tokens: Vec<Token>) -> (r: Parser)
        ensures
            r.tokens == tokens,
            r.current == 0,
    {
        Parser { tokens, current: 0 }
    }

    /// Parses one expression from the start of the stream.
    pub fn parse(&mut self) -> (r: Result<Expression, ParseError>)
        requires
            spec_stream_ok(old(self).spec_toks()),
            old(self).current == 0,
        ensures
            match spec_parse(old(self).spec_toks()) {
                Ok(e) => r matches Ok(expr) && expr@ == e && spec_wf_expr(e),
                Err((t, m)) => r matches Err(pe) && pe.token@ == t && pe.message@ == m,
            },
    {
        self.expression()
    }

    fn peek_is_equality_op(&self) -> (b: bool)
        requires
            self.current < self.tokens@.len(),
        ensures
            b == spec_is_equality_op(self.spec_toks()[self.current as int].kind),
    {
        match &self.tokens[self.current].kind {
            TokenType::BangEqual => true,
            TokenType::EqualEqual => true,
            _ => false,
        }
    }

    fn peek_is_comparison_op(&self) -> (b: bool)
        requires
            self.current < self.tokens@.len(),
        ensures
            b == spec_is_comparison_op(self.spec_toks()[self.current as int].kind),
    {
        match &self.tokens[self.current].kind {
            TokenType::Less => true,
            TokenType::LessEqual => true,
            TokenType::Greater => true,
            TokenType::GreaterEqual => true,
            _ => false,
        }
    }

    fn peek_is_term_op(&self) -> (b: bool)
        requires
            self.current < self.tokens@.len(),
        ensures
            b == spec_is_term_op(self.spec_toks()[self.current as int].kind),
    {
        match &self.tokens[self.current].kind {
            TokenType::Minus => true,
            TokenType::Plus => true,
            _ => false,
        }
    }

    fn peek_is_factor_op(&self) -> (b: bool)
        requires
            self.current < self.tokens@.len(),
        ensures
            b == spec_is_factor_op(self.spec_toks()[self.current as int].kind),
    {
        match &self.tokens[self.current].kind {
            TokenType::Slash => true,
            TokenType::Star => true,
            _ => false,
        }
    }

    fn expression(&mut self) -> (r: Result<Expression, ParseError>)
        requires
            spec_stream_ok(old(self).spec_toks()),
            old(self).current < old(self).tokens@.len(),
        ensures
            final(self).tokens == old(self).tokens,
            spec_outcome(
                old(self).spec_toks(),
                spec_expression(old(self).spec_toks(), old(self).current as int),
                r,
                old(self).current as int,
                final(self).current as int,
            ),
        decreases self.tokens@.len() - self.current, 6int,
    {
        self.equality()
    }

    #[verifier::rlimit(100)]
    fn equality(&mut self) -> (r: Result<Expression, ParseError>)
        requires
            spec_stream_ok(old(self).spec_toks()),
            old(self).current < old(self).tokens@.len(),
        ensures
            final(self).tokens == old(self).tokens,
            spec_outcome(
                old(self).spec_toks(),
                spec_equality(old(self).spec_toks(), old(self).current as int),
                r,
                old(self).current as int,
                final(self).current as int,
            ),
        decreases self.tokens@.len() - self.current, 5int,
    {
        let ghost toks = self.spec_toks();
        let ghost i0 = self.current as int;
        proof {
            assert(self.tokens@.len() == self.tokens.len());
        }
        let mut expr = match self.comparison() {
            Ok(e) => e,
            Err(pe) => {
                return Err(pe);
            },
        };
        while self.peek_is_equality_op()
            invariant
                spec_stream_ok(toks),
                self.tokens == old(self).tokens,
                self.spec_toks() == toks,
                self.tokens@.len() == self.tokens.len(),
                i0 == old(self).current,
                i0 < self.current < self.tokens@.len(),
                spec_wf_expr(expr@),
                spec_equality(toks, i0) == spec_equality_rest(toks, expr@, self.current as int),
            decreases self.tokens@.len() - self.current,
        {
            let ghost c = self.current as int;
            let operator = self.tokens[self.current].clone();
            self.current = self.current + 1;
            proof {
                assert(toks[c].kind is BangEqual || toks[c].kind is EqualEqual);
                assert(toks[toks.len() - 1].kind is EOF);
                assert(c < toks.len() - 1);
            }
            let right = match self.comparison() {
                Ok(e) => e,
                Err(pe) => {
                    return Err(pe);
                },
            };
            expr = Expression::binary(expr, operator, right);
        }
        Ok(expr)
    }

    #[verifier::rlimit(100)]
    fn comparison(&mut self) -> (r: Result<Expression, ParseError>)
        requires
            spec_stream_ok(old(self).spec_toks()),
            old(self).current < old(self).tokens@.len(),
        ensures
            final(self).tokens == old(self).tokens,
            spec_outcome(
                old(self).spec_toks(),
                spec_comparison(old(self).spec_toks(), old(self).current as int),
                r,
                old(self).current as int,
                final(self).current as int,
            ),
        decreases self.tokens@.len() - self.current, 4int,
    {
        let ghost toks = self.spec_toks();
        let ghost i0 = self.current as int;
        proof {
            assert(self.tokens@.len() == self.tokens.len());
        }
        let mut expr = match self.term() {
            Ok(e) => e,
            Err(pe) => {
                return Err(pe);
            },
        };
        while self.peek_is_comparison_op()
            invariant
                spec_stream_ok(toks),
                self.tokens == old(self).tokens,
                self.spec_toks() == toks,
                self.tokens@.len() == self.tokens.len(),
                i0 == old(self).current,
                i0 < self.current < self.tokens@.len(),
                spec_wf_expr(expr@),
                spec_comparison(toks, i0) == spec_comparison_rest(
                    toks,
                    expr@,
                    self.current as int,
                ),
            decreases self.tokens@.len() - self.current,
        {
            let ghost c = self.current as int;
            let operator = self.tokens[self.current].clone();
            self.current = self.current + 1;
            proof {
                assert(toks[toks.len() - 1].kind is EOF);
                assert(c < toks.len() - 1);
            }
            let right = match self.term() {
                Ok(e) => e,
                Err(pe) => {
                    return Err(pe);
                },
            };
            expr = Expression::binary(expr, operator, right);
        }
        Ok(expr)
    }

    #[verifier::rlimit(100)]
    fn term(&mut self) -> (r: Result<Expression, ParseError>)
        requires
            spec_stream_ok(old(self).spec_toks()),
            old(self).current < old(self).tokens@.len(),
        ensures
            final(self).tokens == old(self).tokens,
            spec_outcome(
                old(self).spec_toks(),
                spec_term(old(self).spec_toks(), old(self).current as int),
                r,
                old(self).current as int,
                final(self).current as int,
            ),
        decreases self.tokens@.len() - self.current, 3int,
    {
        let ghost toks = self.spec_toks();
        let ghost i0 = self.current as int;
        proof {
            assert(self.tokens@.len() == self.tokens.len());
        }
        let mut expr = match self.factor() {
            Ok(e) => e,
            Err(pe) => {
                return Err(pe);
            },
        };
        while self.peek_is_term_op()
            invariant
                spec_stream_ok(toks),
                self.tokens == old(self).tokens,
                self.spec_toks() == toks,
                self.tokens@.len() == self.tokens.len(),
                i0 == old(self).current,
                i0 < self.current < self.tokens@.len(),
                spec_wf_expr(expr@),
                spec_term(toks, i0) == spec_term_rest(toks, expr@, self.current as int),
            decreases self.tokens@.len() - self.current,
        {
            let ghost c = self.current as int;
            let operator = self.tokens[self.current].clone();
            self.current = self.current + 1;
            proof {
                assert(toks[toks.len() - 1].kind is EOF);
                assert(c < toks.len() - 1);
            }
            let right = match self.factor() {
                Ok(e) => e,
                Err(pe) => {
                    return Err(pe);
                },
            };
            expr = Expression::binary(expr, operator, right);
        }
        Ok(expr)
    }

    #[verifier::rlimit(100)]
    fn factor(&mut self) -> (r: Result<Expression, ParseError>)
        requires
            spec_stream_ok(old(self).spec_toks()),
            old(self).current < old(self).tokens@.len(),
        ensures
            final(self).tokens == old(self).tokens,
            spec_outcome(
                old(self).spec_toks(),
                spec_factor(old(self).spec_toks(), old(self).current as int),
                r,
                old(self).current as int,
                final(self).current as int,
            ),
        decreases self.tokens@.len() - self.current, 2int,
    {
        let ghost toks = self.spec_toks();
        let ghost i0 = self.current as int;
        proof {
            assert(self.tokens@.len() == self.tokens.len());
        }
        let mut expr = match self.unary() {
            Ok(e) => e,
            Err(pe) => {
                return Err(pe);
            },
        };
        while self.peek_is_factor_op()
            invariant
                spec_stream_ok(toks),
                self.tokens == old(self).tokens,
                self.spec_toks() == toks,
                self.tokens@.len() == self.tokens.len(),
                i0 == old(self).current,
                i0 < self.current < self.tokens@.len(),
                spec_wf_expr(expr@),
                spec_factor(toks, i0) == spec_factor_rest(toks, expr@, self.current as int),
            decreases self.tokens@.len() - self.current,
        {
            let ghost c = self.current as int;
            let operator = self.tokens[self.current].clone();
            self.current = self.current + 1;
            proof {
                assert(toks[toks.len() - 1].kind is EOF);
                assert(c < toks.len() - 1);
            }
            let right = match self.unary() {
                Ok(e) => e,
                Err(pe) => {
                    return Err(pe);
                },
            };
            expr = Expression::binary(expr, operator, right);
        }
        Ok(expr)
    }

    #[verifier::rlimit(100)]
    fn unary(&mut self) -> (r: Result<Expression, ParseError>)
        requires
            spec_stream_ok(old(self).spec_toks()),
            old(self).current < old(self).tokens@.len(),
        ensures
            final(self).tokens == old(self).tokens,
            spec_outcome(
                old(self).spec_toks(),
                spec_unary(old(self).spec_toks(), old(self).current as int),
                r,
                old(self).current as int,
                final(self).current as int,
            ),
        decreases self.tokens@.len() - self.current, 1int,
    {
        let ghost toks = self.spec_toks();
        let ghost i0 = self.current as int;
        proof {
            assert(self.tokens@.len() == self.tokens.len());
        }
        let is_unary_op = match &self.tokens[self.current].kind {
            TokenType::Bang => true,
            TokenType::Minus => true,
            _ => false,
        };
        if is_unary_op {
            let operator = self.tokens[self.current].clone();
            self.current = self.current + 1;
            proof {
                assert(toks[toks.len() - 1].kind is EOF);
                assert(i0 < toks.len() - 1);
            }
            match self.unary() {
                Ok(operand) => Ok(Expression::unary(operator, operand)),
                Err(pe) => Err(pe),
            }
        } else {
            self.primary()
        }
    }

    #[verifier::rlimit(100)]
    fn primary(&mut self) -> (r: Result<Expression, ParseError>)
        requires
            spec_stream_ok(old(self).spec_toks()),
            old(self).current < old(self).tokens@.len(),
        ensures
            final(self).tokens == old(self).tokens,
            spec_outcome(
                old(self).spec_toks(),
                spec_primary(old(self).spec_toks(), old(self).current as int),
                r,
                old(self).current as int,
                final(self).current as int,
            ),
        decreases self.tokens@.len() - self.current, 0int,
    {
        let ghost toks = self.spec_toks();
        let ghost i0 = self.current as int;
        proof {
            assert(self.tokens@.len() == self.tokens.len());
        }
        let tok = self.tokens[self.current].clone();
        match &tok.kind {
            TokenType::True => {
                self.current = self.current + 1;
                proof {
                    assert(toks[toks.len() - 1].kind is EOF);
                }
                Ok(Expression::bool(tok))
            },
            TokenType::False => {
                self.current = self.current + 1;
                proof {
                    assert(toks[toks.len() - 1].kind is EOF);
                }
                Ok(Expression::bool(tok))
            },
            TokenType::Nil => {
                self.current = self.current + 1;
                proof {
                    assert(toks[toks.len() - 1].kind is EOF);
                }
                Ok(Expression::nil(tok))
            },
            TokenType::String(_) => {
                self.current = self.current + 1;
                proof {
                    assert(toks[toks.len() - 1].kind is EOF);
                }
                Ok(Expression::string(tok))
            },
            TokenType::Number(_) => {
                self.current = self.current + 1;
                proof {
                    assert(toks[toks.len() - 1].kind is EOF);
                }
                Ok(Expression::number(tok))
            },
            TokenType::LeftParen => {
                self.current = self.current + 1;
                proof {
                    assert(toks[toks.len() - 1].kind is EOF);
                    assert(i0 < toks.len() - 1);
                }
                let inner = match self.expression() {
                    Ok(e) => e,
                    Err(pe) => {
                        return Err(pe);
                    },
                };
                let closes = match &self.tokens[self.current].kind {
                    TokenType::RightParen => true,
                    _ => false,
                };
                if closes {
                    proof {
                        assert(toks[toks.len() - 1].kind is EOF);
                        assert((self.current as int) < toks.len() - 1);
                    }
                    self.current = self.current + 1;
                    Ok(Expression::grouping(inner))
                } else {
                    Err(
                        ParseError {
                            token: self.tokens[self.current].clone(),
                            message: String::from_str("expected ')' after expression"),
                        },
                    )
                }
            },
            TokenType::EOF => Err(
                ParseError { token: tok, message: String::from_str("no expression found") },
            ),
            _ => Err(
                ParseError { token: tok, message: String::from_str("token not expected") },
            ),
        }
    }
}


/// The links of an operator chain after its first operand: one operator
/// token and one number token per link, interleaved.
pub open spec fn spec_chain_tokens(links: Seq<(SpecToken, SpecToken)>) -> Seq<SpecToken>
    decreases links.len(),
{
    if links.len() == 0 {
        Seq::empty()
    } else {
        seq![links[0].0, links[0].1] + spec_chain_tokens(links.drop_first())
    }
}

/// The strictly left-leaning grouping of a chain: each link's operator
/// applied to everything before it on the left and the link's literal on
/// the right.
pub open spec fn spec_left_fold(acc: SpecExpr, links: Seq<(SpecToken, SpecToken)>) -> SpecExpr
    decreases links.len(),
{
    if links.len() == 0 {
        acc
    } else {
        spec_left_fold(
            SpecExpr::Binary {
                left: Box::new(acc),
                operator: links[0].0,
                right: Box::new(SpecExpr::Literal(SpecLiteral::Number(links[0].1))),
            },
            links.drop_first(),
        )
    }
}

/// Every link holds a term operator and a number literal.
pub open spec fn spec_chain_ok(links: Seq<(SpecToken, SpecToken)>) -> bool {
    forall|k: int|
        0 <= k < links.len() ==> spec_is_term_op(#[trigger] links[k].0.kind) && links[k].1.kind
            is Number
}

proof fn lemma_chain_tokens_len(links: Seq<(SpecToken, SpecToken)>)
    ensures
        spec_chain_tokens(links).len() == 2 * links.len(),
    decreases links.len(),
{
    if links.len() > 0 {
        lemma_chain_tokens_len(links.drop_first());
    }
}

/// Folding a chain from position `j`: while the next token is one of the
/// chain's operators, the term level consumes one link and folds it onto
/// the accumulated left operand.
#[verifier::rlimit(100)]
#[verifier::spinoff_prover]
proof fn lemma_chain_fold(
    toks: Seq<SpecToken>,
    acc: SpecExpr,
    links: Seq<(SpecToken, SpecToken)>,
    j: int,
)
    requires
        spec_chain_ok(links),
        0 <= j,
        j + 2 * links.len() + 1 <= toks.len(),
        toks.subrange(j, j + 2 * links.len()) == spec_chain_tokens(links),
        toks[j + 2 * links.len()].kind is EOF,
    ensures
        spec_term_rest(toks, acc, j) == Ok::<(SpecExpr, int), (SpecToken, Seq<char>)>(
            (spec_left_fold(acc, links), j + 2 * links.len()),
        ),
    decreases links.len(),
{
    lemma_chain_tokens_len(links);
    let n2 = 2 * links.len() as int;
    let chain = spec_chain_tokens(links);
    assert forall|k: int| 0 <= k < n2 implies toks[j + k] == chain[k] by {
        assert(toks.subrange(j, j + n2)[k] == toks[j + k]);
    }
    if links.len() == 0 {
        assert(!spec_is_term_op(toks[j].kind));
    } else {
        let op = links[0].0;
        let t = links[0].1;
        let rest = links.drop_first();
        lemma_chain_tokens_len(rest);
        assert(chain[0] == op);
        assert(chain[1] == t);
        assert(spec_is_term_op(links[0].0.kind) && links[0].1.kind is Number);
        let lit = SpecExpr::Literal(SpecLiteral::Number(t));
        assert(spec_primary(toks, j + 1) == Ok::<(SpecExpr, int), (SpecToken, Seq<char>)>(
            (lit, j + 2),
        ));
        assert(spec_unary(toks, j + 1) == Ok::<(SpecExpr, int), (SpecToken, Seq<char>)>(
            (lit, j + 2),
        ));
        if rest.len() > 0 {
            assert(chain[2] == spec_chain_tokens(rest)[0]);
            assert(spec_chain_tokens(rest)[0] == rest[0].0);
            assert(spec_is_term_op(toks[j + 2].kind));
            assert(!spec_is_factor_op(toks[j + 2].kind));
        } else {
            assert(toks[j + 2].kind is EOF);
        }
        assert(spec_factor_rest(toks, lit, j + 2) == Ok::<
            (SpecExpr, int),
            (SpecToken, Seq<char>),
        >((lit, j + 2)));
        assert(spec_factor(toks, j + 1) == Ok::<(SpecExpr, int), (SpecToken, Seq<char>)>(
            (lit, j + 2),
        ));
        let acc2 = SpecExpr::Binary { left: Box::new(acc), operator: op, right: Box::new(lit) };
        assert forall|k: int| 0 <= k < 2 * rest.len() implies toks[j + 2 + k]
            == spec_chain_tokens(rest)[k] by {
            assert(chain[2 + k] == spec_chain_tokens(rest)[k]);
        }
        assert(toks.subrange(j + 2, j + 2 + 2 * rest.len()) =~= spec_chain_tokens(rest));
        lemma_chain_fold(toks, acc2, rest, j + 2);
        assert(spec_term_rest(toks, acc, j) == spec_term_rest(toks, acc2, j + 2));
    }
}

/// Left-associativity, for any chain length: a stream of number literals
/// joined by term operators, `t0 op1 t1 ... opN tN`, parses to the strictly
/// left-leaning fold `((..(t0 op1 t1)..) opN tN)`, never to a right-leaning
/// grouping.
#[verifier::rlimit(100)]
#[verifier::spinoff_prover]
pub proof fn lemma_left_associative_chain(
    first: SpecToken,
    links: Seq<(SpecToken, SpecToken)>,
    eof: SpecToken,
)
    requires
        first.kind is Number,
        spec_chain_ok(links),
        eof.kind is EOF,
    ensures
        ({
            let toks = seq![first] + spec_chain_tokens(links) + seq![eof];
            &&& spec_stream_ok(toks)
            &&& spec_parse(toks) == Ok::<SpecExpr, (SpecToken, Seq<char>)>(
                spec_left_fold(SpecExpr::Literal(SpecLiteral::Number(first)), links),
            )
        }),
{
    lemma_chain_tokens_len(links);
    let chain = spec_chain_tokens(links);
    let toks = seq![first] + chain + seq![eof];
    let n2 = 2 * links.len() as int;
    let end = 1 + n2;
    assert(toks.len() == end + 1);
    assert(toks[0] == first);
    assert(toks[end] == eof);
    assert(toks.last().kind is EOF);
    assert forall|k: int| 0 <= k < n2 implies toks[1 + k] == chain[k] by {}
    assert(toks.subrange(1, 1 + n2) =~= chain);
    let lit0 = SpecExpr::Literal(SpecLiteral::Number(first));
    assert(spec_primary(toks, 0) == Ok::<(SpecExpr, int), (SpecToken, Seq<char>)>((lit0, 1)));
    assert(spec_unary(toks, 0) == Ok::<(SpecExpr, int), (SpecToken, Seq<char>)>((lit0, 1)));
    if links.len() > 0 {
        assert(chain[0] == links[0].0);
        assert(spec_is_term_op(toks[1].kind));
        assert(!spec_is_factor_op(toks[1].kind));
    } else {
        assert(toks[1].kind is EOF);
    }
    assert(spec_factor_rest(toks, lit0, 1) == Ok::<(SpecExpr, int), (SpecToken, Seq<char>)>(
        (lit0, 1),
    ));
    assert(spec_factor(toks, 0) == Ok::<(SpecExpr, int), (SpecToken, Seq<char>)>((lit0, 1)));
    lemma_chain_fold(toks, lit0, links, 1);
    let folded = spec_left_fold(lit0, links);
    assert(spec_term(toks, 0) == Ok::<(SpecExpr, int), (SpecToken, Seq<char>)>((folded, end)));
    assert(spec_comparison_rest(toks, folded, end) == Ok::<
        (SpecExpr, int),
        (SpecToken, Seq<char>),
    >((folded, end)));
    assert(spec_comparison(toks, 0) == Ok::<(SpecExpr, int), (SpecToken, Seq<char>)>(
        (folded, end),
    ));
    assert(spec_equality_rest(toks, folded, end) == Ok::<
        (SpecExpr, int),
        (SpecToken, Seq<char>),
    >((folded, end)));
    assert(spec_equality(toks, 0) == Ok::<(SpecExpr, int), (SpecToken, Seq<char>)>(
        (folded, end),
    ));
    assert(spec_expression(toks, 0) == Ok::<(SpecExpr, int), (SpecToken, Seq<char>)>(
        (folded, end),
    ));
}

/// Parses a token stream, as the lexer yields it, into one expression tree.
pub fn parse(tokens: Vec<Token>) -> (r: Result<Expression, ParseError>)
    requires
        spec_stream_ok(spec_tokens(tokens@)),
    ensures
        match spec_parse(spec_tokens(tokens@)) {
            Ok(e) => r matches Ok(expr) && expr@ == e && spec_wf_expr(e),
            Err((t, m)) => r matches Err(pe) && pe.token@ == t && pe.message@ == m,
        },
{
    let mut parser = Parser::new(tokens);
    parser.parse()
}

} // verus!
