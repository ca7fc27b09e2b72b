//! What the rewriting does in the cases that decide whether the generated enum
//! fits the branches: `#[rec]` on the expression, breaks of other loops, and
//! branches of an `if` that never produce a value.
use crate::context::wrap;
use crate::spec::{
    TailMode, rewrite_tail, rewrite_child, rewrite_arms, skip_arm, wrapped_branch, skip_branch,
    rewrite_branch, rewrite_else, is_unreachable,
    passes_filter, spec_visit_expr, spec_visit_opt, NEVER_ATTR, REC_ATTR,
};
use crate::syntax::{expr_attrs, has_empty_attr, ArmView, ExprView, StmtView};
use crate::utils::Error;
use vstd::prelude::*;

verus! {

// ---------------------------------------------------------------------------
// `#[rec]`
// ---------------------------------------------------------------------------
/// `#[rec]` on the expression that the attribute is on switches the nested
/// rewriting on: the rewriting is the same as the one that starts with it on.
pub proof fn law_rec_attr_switches_rec_on(e: ExprView, b: Seq<char>, m: Seq<char>, n: nat)
    requires
        has_empty_attr(expr_attrs(e), REC_ATTR@),
    ensures
        rewrite_tail(e, TailMode::Child, b, m, n, false) == rewrite_tail(e, TailMode::Child, b, m, n, true),
{
}

/// With the nested rewriting on, an arm whose body is a `match` that produces
/// values is not wrapped as a whole: its body stays a `match`, and the
/// arms keep their number.
proof fn lemma_rec_arms_keep_match(arms: Seq<ArmView>, b: Seq<char>, m: Seq<char>, n: nat, i: int)
    requires
        0 <= i < arms.len(),
        !has_empty_attr(arms[i].attrs, NEVER_ATTR@),
        !is_unreachable(*arms[i].body, b, m),
        *arms[i].body is Match,
    ensures
        rewrite_arms(arms, b, m, n, true).0.len() == arms.len(),
        *rewrite_arms(arms, b, m, n, true).0[i].body is Match,
    decreases arms.len(),
{
    let rest = arms.drop_first();
    let (a2, n1, r1) = skip_arm(arms[0], b, m, n, true);
    let a0 = arms[0];
    if !(has_empty_attr(a0.attrs, NEVER_ATTR@) || is_unreachable(*a0.body, b, m)) {
        let body = *a0.body;
        if i == 0 {
            assert(!is_unreachable(body, b, m));
            assert(rewrite_tail(body, TailMode::Rec, b, m, n, true).0 is Match);
            assert(r1 != Ok::<bool, Error>(false));
        }
    }
    match r1 {
        Err(_) => {
            assert((seq![a2] + rest).len() == arms.len());
            if i > 0 {
                assert((seq![a2] + rest)[i] == rest[i - 1]);
            }
        },
        Ok(true) => {
            if i > 0 {
                lemma_rec_arms_keep_match(rest, b, m, n1, i - 1);
            } else {
                lemma_rec_arms_len(rest, b, m, n1);
            }
        },
        Ok(false) => {
            if i > 0 {
                lemma_rec_arms_keep_match(rest, b, m, n1 + 1, i - 1);
            } else {
                lemma_rec_arms_len(rest, b, m, n1 + 1);
            }
        },
    }
}

proof fn lemma_rec_arms_len(arms: Seq<ArmView>, b: Seq<char>, m: Seq<char>, n: nat)
    ensures
        rewrite_arms(arms, b, m, n, true).0.len() == arms.len(),
    decreases arms.len(),
{
    if arms.len() > 0 {
        let (a2, n1, r1) = skip_arm(arms[0], b, m, n, true);
        match r1 {
            Err(_) => {},
            Ok(true) => lemma_rec_arms_len(arms.drop_first(), b, m, n1),
            Ok(false) => lemma_rec_arms_len(arms.drop_first(), b, m, n1 + 1),
        }
    }
}

/// `#[rec]` on a `match` that the attribute is on: an arm (without `#[never]`)
/// whose body is a `match` producing values gets its inner arms rewritten and
/// is not wrapped as a whole, so its body is still a `match`.
pub proof fn law_rec_match_arm_not_wrapped(e: ExprView, b: Seq<char>, m: Seq<char>, n: nat, i: int)
    requires
        e is Match,
        has_empty_attr(expr_attrs(e), REC_ATTR@),
        !is_unreachable(e, b, m),
        0 <= i < e->Match_arms.len(),
        !has_empty_attr(e->Match_arms[i].attrs, NEVER_ATTR@),
        !is_unreachable(*e->Match_arms[i].body, b, m),
        *e->Match_arms[i].body is Match,
    ensures
        ({
            let e2 = rewrite_child(e, b, m, n).0;
            &&& e2 is Match
            &&& e2->Match_arms.len() == e->Match_arms.len()
            &&& *e2->Match_arms[i].body is Match
        }),
{
    lemma_rec_arms_keep_match(e->Match_arms, b, m, n, i);
}

// ---------------------------------------------------------------------------
// Breaks of other loops
// ---------------------------------------------------------------------------
/// In the walk of a loop labelled `l`, a `break` that names another label
/// leaves another loop: it gets no variant, at any depth. Without a value it
/// stays as it is; with one, only the value is walked.
pub proof fn law_break_of_other_loop(
    e: ExprView,
    l: Seq<char>,
    depth: nat,
    b: Seq<char>,
    m: Seq<char>,
    n: nat,
)
    requires
        e matches ExprView::Break { label: Some(l2), .. } && l2 != l,
        !has_empty_attr(expr_attrs(e), NEVER_ATTR@),
    ensures
        ({
            let (e2, n2) = spec_visit_expr(e, Some(l), depth, b, m, n);
            let (x2, nx) = spec_visit_opt(e->Break_expr, Some(l), depth, b, m, n);
            &&& e2 == ExprView::Break { attrs: e->Break_attrs, label: e->Break_label, expr: x2 }
            &&& n2 == nx
            &&& e->Break_expr is None ==> e2 == e && n2 == n
        }),
{
}

// ---------------------------------------------------------------------------
// Branches of an `if`
// ---------------------------------------------------------------------------
/// `if c { t } else { s }`, with nothing asking for `#[rec]`, where `t` ends
/// in an expression that produces a value and `s` in one that never does:
/// only the `then` branch is wrapped, in the next variant; the `else` block
/// stays as it is, and one variant is handed out.
pub proof fn law_if_else_never(
    attrs: Seq<crate::syntax::AttrView>,
    cond: Box<ExprView>,
    t: Seq<StmtView>,
    else_attrs: Seq<crate::syntax::AttrView>,
    else_label: Option<Seq<char>>,
    s: Seq<StmtView>,
    b: Seq<char>,
    m: Seq<char>,
    n: nat,
)
    requires
        t.len() > 0,
        t[t.len() - 1] is Expr,
        !is_unreachable(t[t.len() - 1]->Expr_0, b, m),
        !has_empty_attr(expr_attrs(t[t.len() - 1]->Expr_0), REC_ATTR@),
        s.len() > 0,
        s[s.len() - 1] is Expr,
        is_unreachable(s[s.len() - 1]->Expr_0, b, m),
        !has_empty_attr(attrs, NEVER_ATTR@),
        !crate::syntax::has_attr(attrs, crate::spec::NAME@),
        !has_empty_attr(attrs, REC_ATTR@),
    ensures
        ({
            let else_block = ExprView::Block { attrs: else_attrs, label: else_label, stmts: s };
            let e = ExprView::If { attrs, cond, then_branch: t, else_branch: Some(Box::new(else_block)) };
            rewrite_child(e, b, m, n) == (
                ExprView::If {
                    attrs,
                    cond,
                    then_branch: wrapped_branch(t, b, n),
                    else_branch: Some(Box::new(else_block)),
                },
                n + 1,
                Ok::<(), Error>(()),
            )
        }),
{
    let else_block = ExprView::Block { attrs: else_attrs, label: else_label, stmts: s };
    let e = ExprView::If { attrs, cond, then_branch: t, else_branch: Some(Box::new(else_block)) };
    assert(expr_attrs(e) == attrs);
    assert(passes_filter(e));
    assert(!is_unreachable(e, b, m));
    assert(skip_branch(t, b, m, n, false) == (t, n, Ok::<bool, Error>(false)));
    assert(rewrite_branch(t, b, m, n, false) == (wrapped_branch(t, b, n), n + 1, Ok::<(), Error>(())));
    assert(skip_branch(s, b, m, n + 1, false) == (s, n + 1, Ok::<bool, Error>(true)));
    assert(rewrite_branch(s, b, m, n + 1, false) == (s, n + 1, Ok::<(), Error>(())));
    assert(rewrite_else(Some(Box::new(else_block)), b, m, n + 1, false) == (
        Some(Box::new(else_block)),
        n + 1,
        Ok::<(), Error>(()),
    ));
    assert(crate::spec::rewrite_if(e, b, m, n, false) == (
        ExprView::If {
            attrs,
            cond,
            then_branch: wrapped_branch(t, b, n),
            else_branch: Some(Box::new(else_block)),
        },
        n + 1,
        Ok::<(), Error>(()),
    ));
    assert(!has_empty_attr(expr_attrs(e), REC_ATTR@));
    assert(rewrite_tail(e, TailMode::Child, b, m, n, false) == (
        ExprView::If {
            attrs,
            cond,
            then_branch: wrapped_branch(t, b, n),
            else_branch: Some(Box::new(else_block)),
        },
        n + 1,
        Ok::<bool, Error>(true),
    ));
}

} // verus!
