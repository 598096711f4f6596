//! The round trip from a parsed tree through its parenthesized rendering and
//! back: the rendering of a well-formed tree re-parses, and the tree it
//! re-parses to evaluates to exactly the same outcome. The law is stated over
//! the rendering's token sequence, which `spec_print_tokens` gives node by
//! node just as `spec_print` gives its text.

use crate::ast::{spec_wf_expr, SpecExpr, SpecLiteral};
use crate::interpreter::spec_eval;
use crate::parser::{
    spec_comparison, spec_comparison_rest, spec_equality, spec_equality_rest, spec_expression,
    spec_factor, spec_factor_rest, spec_is_comparison_op, spec_is_equality_op, spec_is_factor_op,
    spec_is_term_op, spec_parse, spec_primary, spec_stream_ok, spec_term, spec_term_rest,
    spec_unary,
};
use crate::token::{spec_eof_token, SpecToken, SpecTokenType};
use vstd::prelude::*;

verus! {

/// The `(` token of a rendering.
pub open spec fn spec_left_paren_token() -> SpecToken {
    SpecToken { kind: SpecTokenType::LeftParen, lexeme: "("@, line: 1 }
}

/// The `)` token of a rendering.
pub open spec fn spec_right_paren_token() -> SpecToken {
    SpecToken { kind: SpecTokenType::RightParen, lexeme: ")"@, line: 1 }
}

/// The token sequence of a tree's parenthesized rendering: parentheses
/// around every application, the tree's own operator and literal tokens
/// between them, exactly as `spec_print` lays out their lexemes.
pub open spec fn spec_print_tokens(e: SpecExpr) -> Seq<SpecToken>
    decreases e,
{
    match e {
        SpecExpr::Binary { left, operator, right } => seq![spec_left_paren_token()]
            + spec_print_tokens(*left) + seq![operator] + spec_print_tokens(*right) + seq![
            spec_right_paren_token(),
        ],
        SpecExpr::Grouping(inner) => seq![spec_left_paren_token()] + spec_print_tokens(*inner)
            + seq![spec_right_paren_token()],
        SpecExpr::Literal(l) => match l {
            SpecLiteral::Bool(t) => seq![t],
            SpecLiteral::Nil(t) => seq![t],
            SpecLiteral::Number(t) => seq![t],
            SpecLiteral::String(t) => seq![t],
        },
        SpecExpr::Unary { operator, operand } => seq![spec_left_paren_token(), operator]
            + spec_print_tokens(*operand) + seq![spec_right_paren_token()],
    }
}

/// A token a rendering can begin with: an opening parenthesis or a literal.
spec fn spec_atom_start(k: SpecTokenType) -> bool {
    ||| k is LeftParen
    ||| k is True
    ||| k is False
    ||| k is Nil
    ||| k is String
    ||| k is Number
}

/// `part` stands in `toks` at position `i`.
pub open spec fn spec_occurs(toks: Seq<SpecToken>, i: int, part: Seq<SpecToken>) -> bool {
    &&& 0 <= i
    &&& i + part.len() <= toks.len()
    &&& toks.subrange(i, i + part.len()) == part
}

/// What re-parsing one rendered subtree must give: success, the cursor just
/// past the rendering, and a well-formed tree with the original's value.
pub open spec fn spec_reparses(
    toks: Seq<SpecToken>,
    i: int,
    res: Result<(SpecExpr, int), (SpecToken, Seq<char>)>,
    e: SpecExpr,
) -> bool {
    match res {
        Ok((e2, j)) => {
            &&& j == i + spec_print_tokens(e).len()
            &&& spec_wf_expr(e2)
            &&& spec_eval(e2) == spec_eval(e)
        },
        Err(_) => false,
    }
}

proof fn lemma_occurs_index(toks: Seq<SpecToken>, i: int, part: Seq<SpecToken>)
    requires
        spec_occurs(toks, i, part),
    ensures
        forall|k: int| 0 <= k < part.len() ==> toks[i + k] == part[k],
{
    assert forall|k: int| 0 <= k < part.len() implies toks[i + k] == part[k] by {
        assert(toks.subrange(i, i + part.len())[k] == toks[i + k]);
    }
}

proof fn lemma_occurs_slice(toks: Seq<SpecToken>, i: int, part: Seq<SpecToken>, lo: int, hi: int)
    requires
        spec_occurs(toks, i, part),
        0 <= lo <= hi <= part.len(),
    ensures
        spec_occurs(toks, i + lo, part.subrange(lo, hi)),
{
    lemma_occurs_index(toks, i, part);
    assert(toks.subrange(i + lo, i + lo + part.subrange(lo, hi).len()) =~= part.subrange(lo, hi));
}

/// A rendering is never empty and begins with `(` or a literal token.
proof fn lemma_pt_shape(e: SpecExpr)
    requires
        spec_wf_expr(e),
    ensures
        spec_print_tokens(e).len() >= 1,
        spec_atom_start(spec_print_tokens(e)[0].kind),
    decreases e,
{
}

// The level lemmas below climb the grammar for one rendered subtree standing
// at `i`: the rendering is consumed entirely by `primary`, and each binary
// level's folding loop exits at once because the token after the rendering
// is not one of that level's operators.
#[verifier::rlimit(100)]
#[verifier::spinoff_prover]
proof fn lemma_rt_primary(e: SpecExpr, toks: Seq<SpecToken>, i: int)
    requires
        spec_wf_expr(e),
        spec_occurs(toks, i, spec_print_tokens(e)),
    ensures
        spec_reparses(toks, i, spec_primary(toks, i), e),
    decreases e, 2int,
{
    let pt = spec_print_tokens(e);
    lemma_occurs_index(toks, i, pt);
    match e {
        SpecExpr::Literal(l) => {
            assert(toks[i] == pt[0]);
        },
        SpecExpr::Grouping(inner) => {
            let n_in = spec_print_tokens(*inner).len() as int;
            assert(pt[0] == spec_left_paren_token());
            assert(pt.subrange(1, 1 + n_in) =~= spec_print_tokens(*inner));
            lemma_occurs_slice(toks, i, pt, 1, 1 + n_in);
            let j = i + 1 + n_in;
            assert(toks[j] == pt[1 + n_in]);
            assert(toks[j] == spec_right_paren_token());
            lemma_rt_expression(*inner, toks, i + 1);
        },
        SpecExpr::Unary { operator, operand } => {
            lemma_rt_unary_inner(e, operator, *operand, toks, i);
            let j = i + pt.len() - 1;
            assert(toks[i] == pt[0]);
            assert(toks[j] == pt[pt.len() - 1]);
            assert(toks[j] == spec_right_paren_token());
            let inner_res = spec_expression(toks, i + 1);
            match inner_res {
                Ok((e2, j2)) => {
                    assert(j2 == j);
                    assert(spec_eval(SpecExpr::Grouping(Box::new(e2))) == spec_eval(e2));
                },
                Err(_) => {
                    assert(false);
                },
            }
        },
        SpecExpr::Binary { left, operator, right } => {
            lemma_rt_binary_inner(e, *left, operator, *right, toks, i);
            let j = i + pt.len() - 1;
            assert(toks[i] == pt[0]);
            assert(toks[j] == pt[pt.len() - 1]);
            assert(toks[j] == spec_right_paren_token());
            let inner_res = spec_expression(toks, i + 1);
            match inner_res {
                Ok((e2, j2)) => {
                    assert(j2 == j);
                    assert(spec_eval(SpecExpr::Grouping(Box::new(e2))) == spec_eval(e2));
                },
                Err(_) => {
                    assert(false);
                },
            }
        },
    }
}

proof fn lemma_rt_unary(e: SpecExpr, toks: Seq<SpecToken>, i: int)
    requires
        spec_wf_expr(e),
        spec_occurs(toks, i, spec_print_tokens(e)),
    ensures
        spec_reparses(toks, i, spec_unary(toks, i), e),
    decreases e, 3int,
{
    lemma_pt_shape(e);
    lemma_occurs_index(toks, i, spec_print_tokens(e));
    assert(toks[i] == spec_print_tokens(e)[0]);
    lemma_rt_primary(e, toks, i);
}

proof fn lemma_rt_factor(e: SpecExpr, toks: Seq<SpecToken>, i: int)
    requires
        spec_wf_expr(e),
        spec_occurs(toks, i, spec_print_tokens(e)),
        ({
            let j = i + spec_print_tokens(e).len();
            j == toks.len() || !spec_is_factor_op(toks[j].kind)
        }),
    ensures
        spec_reparses(toks, i, spec_factor(toks, i), e),
    decreases e, 4int,
{
    lemma_pt_shape(e);
    lemma_rt_unary(e, toks, i);
}

proof fn lemma_rt_term(e: SpecExpr, toks: Seq<SpecToken>, i: int)
    requires
        spec_wf_expr(e),
        spec_occurs(toks, i, spec_print_tokens(e)),
        ({
            let j = i + spec_print_tokens(e).len();
            j == toks.len() || (!spec_is_factor_op(toks[j].kind) && !spec_is_term_op(
                toks[j].kind,
            ))
        }),
    ensures
        spec_reparses(toks, i, spec_term(toks, i), e),
    decreases e, 5int,
{
    lemma_pt_shape(e);
    lemma_rt_factor(e, toks, i);
}

proof fn lemma_rt_comparison(e: SpecExpr, toks: Seq<SpecToken>, i: int)
    requires
        spec_wf_expr(e),
        spec_occurs(toks, i, spec_print_tokens(e)),
        ({
            let j = i + spec_print_tokens(e).len();
            j == toks.len() || (!spec_is_factor_op(toks[j].kind) && !spec_is_term_op(toks[j].kind)
                && !spec_is_comparison_op(toks[j].kind))
        }),
    ensures
        spec_reparses(toks, i, spec_comparison(toks, i), e),
    decreases e, 6int,
{
    lemma_pt_shape(e);
    lemma_rt_term(e, toks, i);
}

proof fn lemma_rt_equality(e: SpecExpr, toks: Seq<SpecToken>, i: int)
    requires
        spec_wf_expr(e),
        spec_occurs(toks, i, spec_print_tokens(e)),
        ({
            let j = i + spec_print_tokens(e).len();
            j == toks.len() || (!spec_is_factor_op(toks[j].kind) && !spec_is_term_op(toks[j].kind)
                && !spec_is_comparison_op(toks[j].kind) && !spec_is_equality_op(toks[j].kind))
        }),
    ensures
        spec_reparses(toks, i, spec_equality(toks, i), e),
    decreases e, 7int,
{
    lemma_pt_shape(e);
    lemma_rt_comparison(e, toks, i);
}

proof fn lemma_rt_expression(e: SpecExpr, toks: Seq<SpecToken>, i: int)
    requires
        spec_wf_expr(e),
        spec_occurs(toks, i, spec_print_tokens(e)),
        ({
            let j = i + spec_print_tokens(e).len();
            j == toks.len() || (!spec_is_factor_op(toks[j].kind) && !spec_is_term_op(toks[j].kind)
                && !spec_is_comparison_op(toks[j].kind) && !spec_is_equality_op(toks[j].kind))
        }),
    ensures
        spec_reparses(toks, i, spec_expression(toks, i), e),
    decreases e, 8int,
{
    lemma_rt_equality(e, toks, i);
}

/// The body of a rendered unary application, between its parentheses: the
/// operator token, then the operand's rendering, parses at every level into
/// the same unary application.
proof fn lemma_rt_unary_inner(
    e: SpecExpr,
    operator: SpecToken,
    operand: SpecExpr,
    toks: Seq<SpecToken>,
    i: int,
)
    requires
        spec_wf_expr(e),
        e == (SpecExpr::Unary { operator, operand: Box::new(operand) }),
        spec_occurs(toks, i, spec_print_tokens(e)),
    ensures
        ({
            let j2 = i + spec_print_tokens(e).len() - 1;
            match spec_expression(toks, i + 1) {
                Ok((e2, j)) => {
                    &&& j == j2
                    &&& spec_wf_expr(e2)
                    &&& spec_eval(e2) == spec_eval(e)
                },
                Err(_) => false,
            }
        }),
    decreases e, 1int,
{
    let pt = spec_print_tokens(e);
    let nx = spec_print_tokens(operand).len() as int;
    lemma_occurs_index(toks, i, pt);
    assert(toks[i + 1] == pt[1]);
    assert(toks[i + 1] == operator);
    assert(pt.subrange(2, 2 + nx) =~= spec_print_tokens(operand));
    lemma_occurs_slice(toks, i, pt, 2, 2 + nx);
    let j2 = i + 2 + nx;
    assert(toks[j2] == pt[2 + nx]);
    assert(toks[j2] == spec_right_paren_token());
    lemma_rt_unary(operand, toks, i + 2);
    match spec_unary(toks, i + 2) {
        Ok((x2, j)) => {
            let u2 = SpecExpr::Unary { operator, operand: Box::new(x2) };
            assert(spec_unary(toks, i + 1) == Ok::<(SpecExpr, int), (SpecToken, Seq<char>)>(
                (u2, j2),
            ));
            assert(spec_eval(u2) == spec_eval(e));
        },
        Err(_) => {
            assert(false);
        },
    }
}

/// The facts every binary-application case starts from: where the left and
/// right renderings and the operator stand, and that a closing parenthesis
/// follows them.
proof fn lemma_rt_binary_layout(
    e: SpecExpr,
    left: SpecExpr,
    operator: SpecToken,
    right: SpecExpr,
    toks: Seq<SpecToken>,
    i: int,
)
    requires
        spec_wf_expr(e),
        e == (SpecExpr::Binary { left: Box::new(left), operator, right: Box::new(right) }),
        spec_occurs(toks, i, spec_print_tokens(e)),
    ensures
        ({
            let nl = spec_print_tokens(left).len() as int;
            let nr = spec_print_tokens(right).len() as int;
            &&& spec_print_tokens(e).len() == nl + nr + 3
            &&& spec_occurs(toks, i + 1, spec_print_tokens(left))
            &&& toks[i + 1 + nl] == operator
            &&& spec_occurs(toks, i + 2 + nl, spec_print_tokens(right))
            &&& toks[i + 2 + nl + nr] == spec_right_paren_token()
        }),
{
    let pt = spec_print_tokens(e);
    let nl = spec_print_tokens(left).len() as int;
    let nr = spec_print_tokens(right).len() as int;
    lemma_occurs_index(toks, i, pt);
    assert(pt.subrange(1, 1 + nl) =~= spec_print_tokens(left));
    lemma_occurs_slice(toks, i, pt, 1, 1 + nl);
    assert(toks[i + 1 + nl] == pt[1 + nl]);
    assert(pt.subrange(2 + nl, 2 + nl + nr) =~= spec_print_tokens(right));
    lemma_occurs_slice(toks, i, pt, 2 + nl, 2 + nl + nr);
    assert(toks[i + 2 + nl + nr] == pt[2 + nl + nr]);
}

/// A folded application passes unchanged through every level's loop above
/// its own when the next token closes it.
#[verifier::spinoff_prover]
proof fn lemma_rt_climb(toks: Seq<SpecToken>, b2: SpecExpr, i: int, j2: int, level: int)
    requires
        0 <= j2 <= toks.len(),
        j2 == toks.len() || (!spec_is_factor_op(toks[j2].kind) && !spec_is_term_op(toks[j2].kind)
            && !spec_is_comparison_op(toks[j2].kind) && !spec_is_equality_op(toks[j2].kind)),
        i < j2,
        1 <= level <= 4,
        level == 1 ==> spec_factor(toks, i) == Ok::<(SpecExpr, int), (SpecToken, Seq<char>)>(
            (b2, j2),
        ),
        level == 2 ==> spec_term(toks, i) == Ok::<(SpecExpr, int), (SpecToken, Seq<char>)>(
            (b2, j2),
        ),
        level == 3 ==> spec_comparison(toks, i) == Ok::<(SpecExpr, int), (SpecToken, Seq<char>)>(
            (b2, j2),
        ),
        level == 4 ==> spec_equality(toks, i) == Ok::<(SpecExpr, int), (SpecToken, Seq<char>)>(
            (b2, j2),
        ),
    ensures
        spec_expression(toks, i) == Ok::<(SpecExpr, int), (SpecToken, Seq<char>)>((b2, j2)),
{
    if level <= 1 {
        assert(spec_term_rest(toks, b2, j2) == Ok::<(SpecExpr, int), (SpecToken, Seq<char>)>(
            (b2, j2),
        ));
        assert(spec_term(toks, i) == Ok::<(SpecExpr, int), (SpecToken, Seq<char>)>((b2, j2)));
    }
    if level <= 2 {
        assert(spec_comparison_rest(toks, b2, j2) == Ok::<(SpecExpr, int), (SpecToken, Seq<char>)>(
            (b2, j2),
        ));
        assert(spec_comparison(toks, i) == Ok::<(SpecExpr, int), (SpecToken, Seq<char>)>(
            (b2, j2),
        ));
    }
    if level <= 3 {
        assert(spec_equality_rest(toks, b2, j2) == Ok::<(SpecExpr, int), (SpecToken, Seq<char>)>(
            (b2, j2),
        ));
        assert(spec_equality(toks, i) == Ok::<(SpecExpr, int), (SpecToken, Seq<char>)>((b2, j2)));
    }
    assert(spec_expression(toks, i) == Ok::<(SpecExpr, int), (SpecToken, Seq<char>)>((b2, j2)));
}

/// One case of a rendered binary application, where the operator belongs to
/// the factor level: the levels below consume the two renderings, that
/// level folds them into the same application, and `lemma_rt_climb` carries
/// it to the top of the grammar.
#[verifier::rlimit(100)]
#[verifier::spinoff_prover]
proof fn lemma_rt_binary_factor(
    e: SpecExpr,
    left: SpecExpr,
    operator: SpecToken,
    right: SpecExpr,
    toks: Seq<SpecToken>,
    i: int,
)
    requires
        spec_wf_expr(e),
        e == (SpecExpr::Binary { left: Box::new(left), operator, right: Box::new(right) }),
        spec_occurs(toks, i, spec_print_tokens(e)),
        spec_is_factor_op(operator.kind),
    ensures
        ({
            let j2 = i + spec_print_tokens(e).len() - 1;
            match spec_expression(toks, i + 1) {
                Ok((e2, j)) => {
                    &&& j == j2
                    &&& spec_wf_expr(e2)
                    &&& spec_eval(e2) == spec_eval(e)
                },
                Err(_) => false,
            }
        }),
    decreases e, 0int,
{
    let nl = spec_print_tokens(left).len() as int;
    let nr = spec_print_tokens(right).len() as int;
    let j1 = i + 1 + nl;
    let j2 = j1 + 1 + nr;
    lemma_rt_binary_layout(e, left, operator, right, toks, i);
    lemma_rt_unary(left, toks, i + 1);
    lemma_rt_unary(right, toks, j1 + 1);
    match (spec_unary(toks, i + 1), spec_unary(toks, j1 + 1)) {
        (Ok((l2, _)), Ok((r2, _))) => {
            let b2 = SpecExpr::Binary { left: Box::new(l2), operator, right: Box::new(r2) };
            assert(spec_factor_rest(toks, b2, j2) == Ok::<(SpecExpr, int), (SpecToken, Seq<char>)>(
                (b2, j2),
            ));
            assert(spec_factor_rest(toks, l2, j1) == Ok::<(SpecExpr, int), (SpecToken, Seq<char>)>(
                (b2, j2),
            ));
            assert(spec_factor(toks, i + 1) == Ok::<(SpecExpr, int), (SpecToken, Seq<char>)>(
                (b2, j2),
            ));
            lemma_rt_climb(toks, b2, i + 1, j2, 1);
            assert(spec_eval(b2) == spec_eval(e));
        },
        _ => {
            assert(false);
        },
    }
}

/// One case of a rendered binary application, where the operator belongs to
/// the term level: the levels below consume the two renderings, that
/// level folds them into the same application, and `lemma_rt_climb` carries
/// it to the top of the grammar.
#[verifier::rlimit(100)]
#[verifier::spinoff_prover]
proof fn lemma_rt_binary_term(
    e: SpecExpr,
    left: SpecExpr,
    operator: SpecToken,
    right: SpecExpr,
    toks: Seq<SpecToken>,
    i: int,
)
    requires
        spec_wf_expr(e),
        e == (SpecExpr::Binary { left: Box::new(left), operator, right: Box::new(right) }),
        spec_occurs(toks, i, spec_print_tokens(e)),
        spec_is_term_op(operator.kind),
    ensures
        ({
            let j2 = i + spec_print_tokens(e).len() - 1;
            match spec_expression(toks, i + 1) {
                Ok((e2, j)) => {
                    &&& j == j2
                    &&& spec_wf_expr(e2)
                    &&& spec_eval(e2) == spec_eval(e)
                },
                Err(_) => false,
            }
        }),
    decreases e, 0int,
{
    let nl = spec_print_tokens(left).len() as int;
    let nr = spec_print_tokens(right).len() as int;
    let j1 = i + 1 + nl;
    let j2 = j1 + 1 + nr;
    lemma_rt_binary_layout(e, left, operator, right, toks, i);
    lemma_rt_factor(left, toks, i + 1);
    lemma_rt_factor(right, toks, j1 + 1);
    match (spec_factor(toks, i + 1), spec_factor(toks, j1 + 1)) {
        (Ok((l2, _)), Ok((r2, _))) => {
            let b2 = SpecExpr::Binary { left: Box::new(l2), operator, right: Box::new(r2) };
            assert(spec_term_rest(toks, b2, j2) == Ok::<(SpecExpr, int), (SpecToken, Seq<char>)>(
                (b2, j2),
            ));
            assert(spec_term_rest(toks, l2, j1) == Ok::<(SpecExpr, int), (SpecToken, Seq<char>)>(
                (b2, j2),
            ));
            assert(spec_term(toks, i + 1) == Ok::<(SpecExpr, int), (SpecToken, Seq<char>)>(
                (b2, j2),
            ));
            lemma_rt_climb(toks, b2, i + 1, j2, 2);
            assert(spec_eval(b2) == spec_eval(e));
        },
        _ => {
            assert(false);
        },
    }
}

/// One case of a rendered binary application, where the operator belongs to
/// the comparison level: the levels below consume the two renderings, that
/// level folds them into the same application, and `lemma_rt_climb` carries
/// it to the top of the grammar.
#[verifier::rlimit(100)]
#[verifier::spinoff_prover]
proof fn lemma_rt_binary_comparison(
    e: SpecExpr,
    left: SpecExpr,
    operator: SpecToken,
    right: SpecExpr,
    toks: Seq<SpecToken>,
    i: int,
)
    requires
        spec_wf_expr(e),
        e == (SpecExpr::Binary { left: Box::new(left), operator, right: Box::new(right) }),
        spec_occurs(toks, i, spec_print_tokens(e)),
        spec_is_comparison_op(operator.kind),
    ensures
        ({
            let j2 = i + spec_print_tokens(e).len() - 1;
            match spec_expression(toks, i + 1) {
                Ok((e2, j)) => {
                    &&& j == j2
                    &&& spec_wf_expr(e2)
                    &&& spec_eval(e2) == spec_eval(e)
                },
                Err(_) => false,
            }
        }),
    decreases e, 0int,
{
    let nl = spec_print_tokens(left).len() as int;
    let nr = spec_print_tokens(right).len() as int;
    let j1 = i + 1 + nl;
    let j2 = j1 + 1 + nr;
    lemma_rt_binary_layout(e, left, operator, right, toks, i);
    lemma_rt_term(left, toks, i + 1);
    lemma_rt_term(right, toks, j1 + 1);
    match (spec_term(toks, i + 1), spec_term(toks, j1 + 1)) {
        (Ok((l2, _)), Ok((r2, _))) => {
            let b2 = SpecExpr::Binary { left: Box::new(l2), operator, right: Box::new(r2) };
            assert(spec_comparison_rest(toks, b2, j2) == Ok::<(SpecExpr, int), (SpecToken, Seq<char>)>(
                (b2, j2),
            ));
            assert(spec_comparison_rest(toks, l2, j1) == Ok::<(SpecExpr, int), (SpecToken, Seq<char>)>(
                (b2, j2),
            ));
            assert(spec_comparison(toks, i + 1) == Ok::<(SpecExpr, int), (SpecToken, Seq<char>)>(
                (b2, j2),
            ));
            lemma_rt_climb(toks, b2, i + 1, j2, 3);
            assert(spec_eval(b2) == spec_eval(e));
        },
        _ => {
            assert(false);
        },
    }
}

/// One case of a rendered binary application, where the operator belongs to
/// the equality level: the levels below consume the two renderings, that
/// level folds them into the same application, and `lemma_rt_climb` carries
/// it to the top of the grammar.
#[verifier::rlimit(100)]
#[verifier::spinoff_prover]
proof fn lemma_rt_binary_equality(
    e: SpecExpr,
    left: SpecExpr,
    operator: SpecToken,
    right: SpecExpr,
    toks: Seq<SpecToken>,
    i: int,
)
    requires
        spec_wf_expr(e),
        e == (SpecExpr::Binary { left: Box::new(left), operator, right: Box::new(right) }),
        spec_occurs(toks, i, spec_print_tokens(e)),
        spec_is_equality_op(operator.kind),
    ensures
        ({
            let j2 = i + spec_print_tokens(e).len() - 1;
            match spec_expression(toks, i + 1) {
                Ok((e2, j)) => {
                    &&& j == j2
                    &&& spec_wf_expr(e2)
                    &&& spec_eval(e2) == spec_eval(e)
                },
                Err(_) => false,
            }
        }),
    decreases e, 0int,
{
    let nl = spec_print_tokens(left).len() as int;
    let nr = spec_print_tokens(right).len() as int;
    let j1 = i + 1 + nl;
    let j2 = j1 + 1 + nr;
    lemma_rt_binary_layout(e, left, operator, right, toks, i);
    lemma_rt_comparison(left, toks, i + 1);
    lemma_rt_comparison(right, toks, j1 + 1);
    match (spec_comparison(toks, i + 1), spec_comparison(toks, j1 + 1)) {
        (Ok((l2, _)), Ok((r2, _))) => {
            let b2 = SpecExpr::Binary { left: Box::new(l2), operator, right: Box::new(r2) };
            assert(spec_equality_rest(toks, b2, j2) == Ok::<(SpecExpr, int), (SpecToken, Seq<char>)>(
                (b2, j2),
            ));
            assert(spec_equality_rest(toks, l2, j1) == Ok::<(SpecExpr, int), (SpecToken, Seq<char>)>(
                (b2, j2),
            ));
            assert(spec_equality(toks, i + 1) == Ok::<(SpecExpr, int), (SpecToken, Seq<char>)>(
                (b2, j2),
            ));
            lemma_rt_climb(toks, b2, i + 1, j2, 4);
            assert(spec_eval(b2) == spec_eval(e));
        },
        _ => {
            assert(false);
        },
    }
}

/// The body of a rendered binary application, between its parentheses: the
/// left rendering, the operator token, the right rendering, by the
/// operator's precedence level.
proof fn lemma_rt_binary_inner(
    e: SpecExpr,
    left: SpecExpr,
    operator: SpecToken,
    right: SpecExpr,
    toks: Seq<SpecToken>,
    i: int,
)
    requires
        spec_wf_expr(e),
        e == (SpecExpr::Binary { left: Box::new(left), operator, right: Box::new(right) }),
        spec_occurs(toks, i, spec_print_tokens(e)),
    ensures
        ({
            let j2 = i + spec_print_tokens(e).len() - 1;
            match spec_expression(toks, i + 1) {
                Ok((e2, j)) => {
                    &&& j == j2
                    &&& spec_wf_expr(e2)
                    &&& spec_eval(e2) == spec_eval(e)
                },
                Err(_) => false,
            }
        }),
    decreases e, 1int,
{
    if spec_is_factor_op(operator.kind) {
        lemma_rt_binary_factor(e, left, operator, right, toks, i);
    } else if spec_is_term_op(operator.kind) {
        lemma_rt_binary_term(e, left, operator, right, toks, i);
    } else if spec_is_comparison_op(operator.kind) {
        lemma_rt_binary_comparison(e, left, operator, right, toks, i);
    } else {
        lemma_rt_binary_equality(e, left, operator, right, toks, i);
    }
}

/// Round trip: the token sequence of a well-formed tree's rendering, closed
/// by an end-of-stream token, parses without error, and the tree it parses
/// to is well formed and evaluates to exactly the same outcome as the
/// original — the same value, or a failure with the same message.
pub proof fn lemma_print_reparse_preserves_value(e: SpecExpr)
    requires
        spec_wf_expr(e),
    ensures
        ({
            let toks = spec_print_tokens(e).push(spec_eof_token(1));
            &&& spec_stream_ok(toks)
            &&& match spec_parse(toks) {
                Ok(e2) => spec_wf_expr(e2) && spec_eval(e2) == spec_eval(e),
                Err(_) => false,
            }
        }),
{
    let pt = spec_print_tokens(e);
    let toks = pt.push(spec_eof_token(1));
    lemma_pt_shape(e);
    assert(toks.last().kind is EOF);
    assert(toks.subrange(0, pt.len() as int) =~= pt);
    assert(spec_occurs(toks, 0, pt));
    assert(toks[pt.len() as int].kind is EOF);
    lemma_rt_expression(e, toks, 0);
}

} // verus!
