//! Properties of the rewriting that span its functions.
use crate::spec::{
    arms_unreachable, is_unreachable, passes_filter, stmts_tail_target, stmts_unreachable,
    tail_target, unreachable_leaf,
};
use crate::context::{wrap, variant_name, variant_path};
use crate::spec::{
    TailMode, rewrite_tail, rewrite_tail_stmts, skip_arm, rewrite_arms, skip_branch, rewrite_branch,
    rewrite_if, rewrite_else, rewrite_child, wrapped_branch,
    spec_visit_expr, spec_visit_opt, spec_visit_exprs, spec_visit_stmt, spec_visit_stmts,
    spec_visit_arms, NEVER_ATTR, breaks_out,
};
use crate::syntax::{expr_attrs, has_empty_attr, path_is_ident};
use crate::syntax::{ArmView, ExprView, SegmentView, StmtView, view_unit};
use crate::utils::block_expr_view;
use vstd::prelude::*;

verus! {

/// What `is_unreachable` decides of the expression that the walk down the last
/// expressions ends on.
pub open spec fn unreachable_op(t: ExprView, b: Seq<char>, m: Seq<char>) -> bool {
    match t {
        ExprView::Match { arms, .. } => arms_unreachable(arms, b, m),
        _ => unreachable_leaf(t, b, m),
    }
}

/// An expression never produces a value exactly when the walk down its last
/// expressions stops early, or ends on an expression that never produces one.
pub proof fn lemma_unreachable_tail(e: ExprView, b: Seq<char>, m: Seq<char>)
    ensures
        is_unreachable(e, b, m) == match tail_target(e) {
            None => true,
            Some(t) => unreachable_op(t, b, m),
        },
    decreases e,
{
    if passes_filter(e) {
        match e {
            ExprView::Block { stmts, .. } => lemma_stmts_unreachable_tail(stmts, e, b, m),
            ExprView::Unsafe { stmts, .. } => lemma_stmts_unreachable_tail(stmts, e, b, m),
            _ => {},
        }
    }
}

proof fn lemma_stmts_unreachable_tail(stmts: Seq<StmtView>, e: ExprView, b: Seq<char>, m: Seq<char>)
    requires
        e is Block || e is Unsafe,
    ensures
        stmts_unreachable(stmts, b, m) == match stmts_tail_target(stmts, e) {
            None => true,
            Some(t) => unreachable_op(t, b, m),
        },
    decreases stmts,
{
    if stmts.len() > 0 {
        match stmts[stmts.len() - 1] {
            StmtView::Expr(x) => lemma_unreachable_tail(x, b, m),
            _ => {},
        }
    }
}

// ---------------------------------------------------------------------------
// Erasing the variants
// ---------------------------------------------------------------------------
/// `e` is `b::V(x)`: a call without attributes of a two-segment path, without
/// attributes or qualified self type, whose first segment is `b`, with one
/// argument. This is the form the rewriting wraps values in.
pub open spec fn is_wrapper(e: ExprView, b: Seq<char>) -> bool {
    match e {
        ExprView::Call { attrs, func, args } => attrs.len() == 0 && args.len() == 1 && match *func {
            ExprView::Path { attrs: pattrs, qself, path } => {
                &&& pattrs.len() == 0
                &&& qself is None
                &&& !path.leading_colon
                &&& path.segments.len() == 2
                &&& path.segments[0] == (SegmentView { ident: b, arguments: false })
                &&& !path.segments[1].arguments
            },
            _ => false,
        },
        _ => false,
    }
}

/// The statement is `b::V({ s })`, the form a branch of an `if` is wrapped in.
pub open spec fn is_wrapped_branch(st: StmtView, b: Seq<char>) -> bool {
    match st {
        StmtView::Expr(x) => is_wrapper(x, b) && match x {
            ExprView::Call { args, .. } => match args[0] {
                ExprView::Block { attrs, label, .. } => attrs.len() == 0 && label is None,
                _ => false,
            },
            _ => false,
        },
        _ => false,
    }
}

/// `e` with every `b::V(x)` replaced by `x`, every branch `{ b::V({ s }) }` by
/// `{ s }`, every `break ()` written as `break`, and a comma after every arm:
/// what stays the same when the rewriting wraps values in variants.
pub open spec fn erase(e: ExprView, b: Seq<char>) -> ExprView
    decreases e,
{
    match e {
        ExprView::Block { attrs, label, stmts } => ExprView::Block { attrs, label, stmts: erase_stmts(stmts, b) },
        ExprView::Unsafe { attrs, stmts } => ExprView::Unsafe { attrs, stmts: erase_stmts(stmts, b) },
        ExprView::Match { attrs, expr, arms } => ExprView::Match {
            attrs,
            expr: Box::new(erase(*expr, b)),
            arms: erase_arms(arms, b),
        },
        ExprView::If { attrs, cond, then_branch, else_branch } => ExprView::If {
            attrs,
            cond: Box::new(erase(*cond, b)),
            then_branch: erase_stmts(then_branch, b),
            else_branch: erase_opt(else_branch, b),
        },
        ExprView::Loop { attrs, label, body } => ExprView::Loop { attrs, label, body: erase_stmts(body, b) },
        ExprView::ForLoop { attrs, label, pat, expr, body } => ExprView::ForLoop {
            attrs,
            label,
            pat,
            expr: Box::new(erase(*expr, b)),
            body: erase_stmts(body, b),
        },
        ExprView::While { attrs, label, cond, body } => ExprView::While {
            attrs,
            label,
            cond: Box::new(erase(*cond, b)),
            body: erase_stmts(body, b),
        },
        ExprView::Closure { attrs, inputs, body } => ExprView::Closure {
            attrs,
            inputs,
            body: Box::new(erase(*body, b)),
        },
        ExprView::Break { attrs, label, expr } => ExprView::Break { attrs, label, expr: erase_break(expr, b) },
        ExprView::Return { attrs, expr } => ExprView::Return { attrs, expr: erase_opt(expr, b) },
        ExprView::Call { attrs, func, args } => if is_wrapper(e, b) {
            erase(args[0], b)
        } else {
            ExprView::Call { attrs, func: Box::new(erase(*func, b)), args: erase_exprs(args, b) }
        },
        ExprView::MethodCall { attrs, receiver, method, args } => ExprView::MethodCall {
            attrs,
            receiver: Box::new(erase(*receiver, b)),
            method,
            args: erase_exprs(args, b),
        },
        ExprView::Try { attrs, expr } => ExprView::Try { attrs, expr: Box::new(erase(*expr, b)) },
        ExprView::Other { attrs, kind, tokens, children } => ExprView::Other {
            attrs,
            kind,
            tokens,
            children: erase_exprs(children, b),
        },
        _ => e,
    }
}

pub open spec fn erase_opt(e: Option<Box<ExprView>>, b: Seq<char>) -> Option<Box<ExprView>>
    decreases e,
{
    match e {
        Some(x) => Some(Box::new(erase(*x, b))),
        None => None,
    }
}

/// The value of a `break`, erased; `()` is written as no value.
pub open spec fn erase_break(e: Option<Box<ExprView>>, b: Seq<char>) -> Option<Box<ExprView>>
    decreases e,
{
    match e {
        Some(x) => if erase(*x, b) == view_unit() {
            None
        } else {
            Some(Box::new(erase(*x, b)))
        },
        None => None,
    }
}

pub open spec fn erase_exprs(s: Seq<ExprView>, b: Seq<char>) -> Seq<ExprView>
    decreases s,
{
    if s.len() == 0 {
        s
    } else {
        seq![erase(s[0], b)] + erase_exprs(s.drop_first(), b)
    }
}

pub open spec fn erase_stmt(s: StmtView, b: Seq<char>) -> StmtView
    decreases s,
{
    match s {
        StmtView::Local { attrs, pat, init } => StmtView::Local { attrs, pat, init: erase_opt(init, b) },
        StmtView::Item { .. } => s,
        StmtView::Expr(x) => StmtView::Expr(erase(x, b)),
        StmtView::Semi(x) => StmtView::Semi(erase(x, b)),
    }
}

pub open spec fn erase_stmts(s: Seq<StmtView>, b: Seq<char>) -> Seq<StmtView>
    decreases s,
{
    if s.len() == 0 {
        s
    } else if s.len() == 1 && is_wrapped_branch(s[0], b) {
        match s[0] {
            StmtView::Expr(ExprView::Call { args, .. }) => match args[0] {
                ExprView::Block { stmts, .. } => erase_stmts(stmts, b),
                _ => s,
            },
            _ => s,
        }
    } else {
        seq![erase_stmt(s[0], b)] + erase_stmts(s.drop_first(), b)
    }
}

pub open spec fn erase_arm(a: ArmView, b: Seq<char>) -> ArmView
    decreases a,
{
    ArmView { guard: erase_opt(a.guard, b), body: Box::new(erase(*a.body, b)), comma: true, ..a }
}

pub open spec fn erase_arms(s: Seq<ArmView>, b: Seq<char>) -> Seq<ArmView>
    decreases s,
{
    if s.len() == 0 {
        s
    } else {
        seq![erase_arm(s[0], b)] + erase_arms(s.drop_first(), b)
    }
}

/// A wrapped value erases to the value.
pub proof fn lemma_erase_wrap(x: ExprView, b: Seq<char>, k: nat)
    ensures
        erase(wrap(x, b, k), b) == erase(x, b),
{
    assert(is_wrapper(wrap(x, b, k), b));
}

/// A wrapped branch erases to the branch.
pub proof fn lemma_erase_wrapped_branch(s: Seq<StmtView>, b: Seq<char>, k: nat)
    ensures
        erase_stmts(crate::spec::wrapped_branch(s, b, k), b) == erase_stmts(s, b),
{
    let w = crate::spec::wrapped_branch(s, b, k);
    assert(is_wrapper(wrap(block_expr_view(s), b, k), b));
    assert(is_wrapped_branch(w[0], b));
}

// ---------------------------------------------------------------------------
// The walk of a loop's body only wraps values
// ---------------------------------------------------------------------------
/// Which kind of expression `e` is.
pub open spec fn expr_kind(e: ExprView) -> int {
    match e {
        ExprView::Block { .. } => 0,
        ExprView::Unsafe { .. } => 1,
        ExprView::Match { .. } => 2,
        ExprView::If { .. } => 3,
        ExprView::Loop { .. } => 4,
        ExprView::ForLoop { .. } => 5,
        ExprView::While { .. } => 6,
        ExprView::Closure { .. } => 7,
        ExprView::Break { .. } => 8,
        ExprView::Continue { .. } => 9,
        ExprView::Return { .. } => 10,
        ExprView::Macro { .. } => 11,
        ExprView::Call { .. } => 12,
        ExprView::MethodCall { .. } => 13,
        ExprView::Path { .. } => 14,
        ExprView::Try { .. } => 15,
        ExprView::Other { .. } => 16,
    }
}

/// The walk keeps the kind and the attributes of an expression, the label of
/// a block, a path as it is, and the number of arguments of a call.
pub proof fn lemma_visit_kind(
    e: ExprView,
    label: Option<Seq<char>>,
    depth: nat,
    b: Seq<char>,
    m: Seq<char>,
    n: nat,
)
    ensures
        ({
            let v = spec_visit_expr(e, label, depth, b, m, n).0;
            &&& expr_kind(v) == expr_kind(e)
            &&& expr_attrs(v) == expr_attrs(e)
            &&& (e is Path ==> v == e)
            &&& (e is Block ==> v->Block_label == e->Block_label)
            &&& (e is Call ==> v->Call_args.len() == e->Call_args.len())
        }),
{
    match e {
        ExprView::Call { args, .. } => {
            if !has_empty_attr(expr_attrs(e), NEVER_ATTR@) {
                let f = spec_visit_expr(*e->Call_func, label, depth, b, m, n);
                lemma_visit_exprs_len(args, label, depth, b, m, f.1);
            }
        },
        _ => {},
    }
}

pub proof fn lemma_visit_exprs_len(
    s: Seq<ExprView>,
    label: Option<Seq<char>>,
    depth: nat,
    b: Seq<char>,
    m: Seq<char>,
    n: nat,
)
    ensures
        spec_visit_exprs(s, label, depth, b, m, n).0.len() == s.len(),
        s.len() > 0 ==> spec_visit_exprs(s, label, depth, b, m, n).0[0] == spec_visit_expr(
            s[0],
            label,
            depth,
            b,
            m,
            n,
        ).0,
    decreases s.len(),
{
    if s.len() > 0 {
        let n1 = spec_visit_expr(s[0], label, depth, b, m, n).1;
        lemma_visit_exprs_len(s.drop_first(), label, depth, b, m, n1);
    }
}

/// The walk keeps a value wrapped in a variant so, and keeps what is not so.
pub proof fn lemma_visit_wrapper(
    e: ExprView,
    label: Option<Seq<char>>,
    depth: nat,
    b: Seq<char>,
    m: Seq<char>,
    n: nat,
)
    ensures
        ({
            let v = spec_visit_expr(e, label, depth, b, m, n).0;
            &&& is_wrapper(v, b) == is_wrapper(e, b)
            &&& is_wrapper(e, b) ==> v == ExprView::Call {
                attrs: Seq::empty(),
                func: e->Call_func,
                args: seq![spec_visit_expr(e->Call_args[0], label, depth, b, m, n).0],
            }
            &&& is_wrapped_branch(StmtView::Expr(v), b) == is_wrapped_branch(StmtView::Expr(e), b)
        }),
{
    lemma_visit_kind(e, label, depth, b, m, n);
    if e is Call && !has_empty_attr(expr_attrs(e), NEVER_ATTR@) {
        let f = *e->Call_func;
        let fv = spec_visit_expr(f, label, depth, b, m, n);
        lemma_visit_kind(f, label, depth, b, m, n);
        lemma_visit_exprs_len(e->Call_args, label, depth, b, m, fv.1);
        if e->Call_args.len() > 0 {
            lemma_visit_kind(e->Call_args[0], label, depth, b, m, fv.1);
        }
        if f is Path {
            assert(fv.1 == n);
        }
        let v = spec_visit_expr(e, label, depth, b, m, n).0;
        if is_wrapper(e, b) {
            assert(e->Call_attrs =~= Seq::empty());
            assert(v->Call_args =~= seq![spec_visit_expr(e->Call_args[0], label, depth, b, m, n).0]);
        }
    }
}

pub proof fn lemma_visit_stmts_len(
    s: Seq<StmtView>,
    label: Option<Seq<char>>,
    depth: nat,
    b: Seq<char>,
    m: Seq<char>,
    n: nat,
)
    ensures
        spec_visit_stmts(s, label, depth, b, m, n).0.len() == s.len(),
    decreases s.len(),
{
    if s.len() > 0 {
        let n1 = spec_visit_stmt(s[0], label, depth, b, m, n).1;
        lemma_visit_stmts_len(s.drop_first(), label, depth, b, m, n1);
    }
}

/// The walk of a loop's body changes nothing but wrapping values in variants:
/// erasing the variants gives back what it was given.
#[verifier::spinoff_prover]
#[verifier::rlimit(60)]
pub proof fn lemma_erase_visit_expr(
    e: ExprView,
    label: Option<Seq<char>>,
    depth: nat,
    b: Seq<char>,
    m: Seq<char>,
    n: nat,
)
    ensures
        erase(spec_visit_expr(e, label, depth, b, m, n).0, b) == erase(e, b),
    decreases e,
{
    if has_empty_attr(expr_attrs(e), NEVER_ATTR@) {
        return;
    }
    match e {
        ExprView::Loop { body, .. } => {
            if label is Some {
                lemma_erase_visit_stmts(body, label, depth + 1, b, m, n);
            }
            assert(erase(spec_visit_expr(e, label, depth, b, m, n).0, b) == erase(e, b));
        },
        ExprView::ForLoop { expr, body, .. } => if label is Some {
            let n1 = spec_visit_expr(*expr, label, depth + 1, b, m, n).1;
            lemma_erase_visit_expr(*expr, label, depth + 1, b, m, n);
            lemma_erase_visit_stmts(body, label, depth + 1, b, m, n1);
            assert(erase(spec_visit_expr(e, label, depth, b, m, n).0, b) == erase(e, b));
        },
        ExprView::While { cond, body, .. } => if label is Some {
            let n1 = spec_visit_expr(*cond, label, depth + 1, b, m, n).1;
            lemma_erase_visit_expr(*cond, label, depth + 1, b, m, n);
            lemma_erase_visit_stmts(body, label, depth + 1, b, m, n1);
            assert(erase(spec_visit_expr(e, label, depth, b, m, n).0, b) == erase(e, b));
        },
        ExprView::Break { label: l, expr, .. } => if breaks_out(label, depth, l) {
            match expr {
                Some(x) => {
                    if !(*x matches ExprView::Macro { path, .. } && path_is_ident(path, m)) {
                        let x2 = spec_visit_expr(*x, label, depth, b, m, n + 1).0;
                        lemma_erase_visit_expr(*x, label, depth, b, m, n + 1);
                        lemma_erase_wrap(x2, b, n);
                        let v = spec_visit_expr(e, label, depth, b, m, n).0;
                        assert(v == ExprView::Break {
                            attrs: e->Break_attrs,
                            label: l,
                            expr: Some(Box::new(wrap(x2, b, n))),
                        });
                        assert(erase_break(v->Break_expr, b) == erase_break(expr, b));
                    }
                    assert(erase(spec_visit_expr(e, label, depth, b, m, n).0, b) == erase(e, b));
                },
                None => {
                    lemma_erase_wrap(view_unit(), b, n);
                    let u = view_unit();
                    assert(erase_exprs(u->Other_children, b) == u->Other_children);
                    assert(erase(u, b) == u);
                    let v = spec_visit_expr(e, label, depth, b, m, n).0;
                    assert(v == ExprView::Break {
                        attrs: e->Break_attrs,
                        label: l,
                        expr: Some(Box::new(wrap(u, b, n))),
                    });
                    assert(erase(wrap(u, b, n), b) == u);
                    assert(erase_break(v->Break_expr, b) == erase_break(expr, b));
                    assert(erase(spec_visit_expr(e, label, depth, b, m, n).0, b) == erase(e, b));
                },
            }
        } else {
            lemma_erase_visit_opt(expr, label, depth, b, m, n);
            assert(erase(spec_visit_expr(e, label, depth, b, m, n).0, b) == erase(e, b));
        },
        ExprView::Block { stmts, .. } => {
            lemma_erase_visit_stmts(stmts, label, depth, b, m, n);
            assert(erase(spec_visit_expr(e, label, depth, b, m, n).0, b) == erase(e, b));
        },
        ExprView::Unsafe { stmts, .. } => {
            lemma_erase_visit_stmts(stmts, label, depth, b, m, n);
            assert(erase(spec_visit_expr(e, label, depth, b, m, n).0, b) == erase(e, b));
        },
        ExprView::Match { expr, arms, .. } => {
            let n1 = spec_visit_expr(*expr, label, depth, b, m, n).1;
            lemma_erase_visit_expr(*expr, label, depth, b, m, n);
            lemma_erase_visit_arms(arms, label, depth, b, m, n1);
            assert(erase(spec_visit_expr(e, label, depth, b, m, n).0, b) == erase(e, b));
        },
        ExprView::If { cond, then_branch, else_branch, .. } => {
            let n1 = spec_visit_expr(*cond, label, depth, b, m, n).1;
            let n2 = spec_visit_stmts(then_branch, label, depth, b, m, n1).1;
            lemma_erase_visit_expr(*cond, label, depth, b, m, n);
            lemma_erase_visit_stmts(then_branch, label, depth, b, m, n1);
            lemma_erase_visit_opt(else_branch, label, depth, b, m, n2);
            assert(erase(spec_visit_expr(e, label, depth, b, m, n).0, b) == erase(e, b));
        },
        ExprView::Return { expr, .. } => {
            lemma_erase_visit_opt(expr, label, depth, b, m, n);
            assert(erase(spec_visit_expr(e, label, depth, b, m, n).0, b) == erase(e, b));
        },
        ExprView::Call { func, args, .. } => {
            lemma_visit_wrapper(e, label, depth, b, m, n);
            if is_wrapper(e, b) {
                lemma_erase_visit_expr(args[0], label, depth, b, m, n);
            } else {
                let n1 = spec_visit_expr(*func, label, depth, b, m, n).1;
                lemma_erase_visit_expr(*func, label, depth, b, m, n);
                lemma_erase_visit_exprs(args, label, depth, b, m, n1);
            }
            assert(erase(spec_visit_expr(e, label, depth, b, m, n).0, b) == erase(e, b));
        },
        ExprView::MethodCall { receiver, args, .. } => {
            let n1 = spec_visit_expr(*receiver, label, depth, b, m, n).1;
            lemma_erase_visit_expr(*receiver, label, depth, b, m, n);
            lemma_erase_visit_exprs(args, label, depth, b, m, n1);
            assert(erase(spec_visit_expr(e, label, depth, b, m, n).0, b) == erase(e, b));
        },
        ExprView::Try { expr, .. } => {
            lemma_erase_visit_expr(*expr, label, depth, b, m, n);
            assert(erase(spec_visit_expr(e, label, depth, b, m, n).0, b) == erase(e, b));
        },
        ExprView::Other { children, .. } => {
            lemma_erase_visit_exprs(children, label, depth, b, m, n);
            assert(erase(spec_visit_expr(e, label, depth, b, m, n).0, b) == erase(e, b));
        },
        _ => {
            assert(erase(spec_visit_expr(e, label, depth, b, m, n).0, b) == erase(e, b));
        },
    }
}

pub proof fn lemma_erase_visit_opt(
    e: Option<Box<ExprView>>,
    label: Option<Seq<char>>,
    depth: nat,
    b: Seq<char>,
    m: Seq<char>,
    n: nat,
)
    ensures
        erase_opt(spec_visit_opt(e, label, depth, b, m, n).0, b) == erase_opt(e, b),
        erase_break(spec_visit_opt(e, label, depth, b, m, n).0, b) == erase_break(e, b),
    decreases e,
{
    match e {
        Some(x) => lemma_erase_visit_expr(*x, label, depth, b, m, n),
        None => {},
    }
}

pub proof fn lemma_erase_visit_exprs(
    s: Seq<ExprView>,
    label: Option<Seq<char>>,
    depth: nat,
    b: Seq<char>,
    m: Seq<char>,
    n: nat,
)
    ensures
        erase_exprs(spec_visit_exprs(s, label, depth, b, m, n).0, b) == erase_exprs(s, b),
    decreases s,
{
    if s.len() > 0 {
        let (x2, n1) = spec_visit_expr(s[0], label, depth, b, m, n);
        let rest2 = spec_visit_exprs(s.drop_first(), label, depth, b, m, n1).0;
        lemma_erase_visit_expr(s[0], label, depth, b, m, n);
        lemma_erase_visit_exprs(s.drop_first(), label, depth, b, m, n1);
        assert((seq![x2] + rest2).drop_first() =~= rest2);
    }
}

pub proof fn lemma_erase_visit_stmt(
    s: StmtView,
    label: Option<Seq<char>>,
    depth: nat,
    b: Seq<char>,
    m: Seq<char>,
    n: nat,
)
    ensures
        erase_stmt(spec_visit_stmt(s, label, depth, b, m, n).0, b) == erase_stmt(s, b),
    decreases s,
{
    match s {
        StmtView::Local { init, .. } => lemma_erase_visit_opt(init, label, depth, b, m, n),
        StmtView::Expr(x) => lemma_erase_visit_expr(x, label, depth, b, m, n),
        StmtView::Semi(x) => lemma_erase_visit_expr(x, label, depth, b, m, n),
        _ => {},
    }
}

pub proof fn lemma_erase_visit_stmts(
    s: Seq<StmtView>,
    label: Option<Seq<char>>,
    depth: nat,
    b: Seq<char>,
    m: Seq<char>,
    n: nat,
)
    ensures
        erase_stmts(spec_visit_stmts(s, label, depth, b, m, n).0, b) == erase_stmts(s, b),
    decreases s,
{
    if s.len() == 0 {
        return;
    }
    let (x2, n1) = spec_visit_stmt(s[0], label, depth, b, m, n);
    let rest2 = spec_visit_stmts(s.drop_first(), label, depth, b, m, n1).0;
    let v = spec_visit_stmts(s, label, depth, b, m, n).0;
    assert(v == seq![x2] + rest2);
    lemma_visit_stmts_len(s.drop_first(), label, depth, b, m, n1);
    assert(v.drop_first() =~= rest2);
    if s.len() == 1 {
        assert(rest2.len() == 0);
        match s[0] {
            StmtView::Expr(x) => {
                lemma_visit_wrapper(x, label, depth, b, m, n);
                if is_wrapped_branch(s[0], b) {
                    let blk = x->Call_args[0];
                    let inner = blk->Block_stmts;
                    lemma_erase_visit_stmts(inner, label, depth, b, m, n);
                    assert(!has_empty_attr(expr_attrs(blk), NEVER_ATTR@));
                    assert(v[0] == StmtView::Expr(spec_visit_expr(x, label, depth, b, m, n).0));
                } else {
                    lemma_erase_visit_stmt(s[0], label, depth, b, m, n);
                    lemma_erase_visit_stmts(s.drop_first(), label, depth, b, m, n1);
                }
            },
            _ => {
                lemma_erase_visit_stmt(s[0], label, depth, b, m, n);
                lemma_erase_visit_stmts(s.drop_first(), label, depth, b, m, n1);
            },
        }
    } else {
        lemma_erase_visit_stmt(s[0], label, depth, b, m, n);
        lemma_erase_visit_stmts(s.drop_first(), label, depth, b, m, n1);
    }
}

pub proof fn lemma_erase_visit_arms(
    s: Seq<ArmView>,
    label: Option<Seq<char>>,
    depth: nat,
    b: Seq<char>,
    m: Seq<char>,
    n: nat,
)
    ensures
        erase_arms(spec_visit_arms(s, label, depth, b, m, n).0, b) == erase_arms(s, b),
    decreases s,
{
    if s.len() > 0 {
        let a = s[0];
        let (g2, n1) = spec_visit_opt(a.guard, label, depth, b, m, n);
        let (body2, n2) = spec_visit_expr(*a.body, label, depth, b, m, n1);
        let rest2 = spec_visit_arms(s.drop_first(), label, depth, b, m, n2).0;
        lemma_erase_visit_opt(a.guard, label, depth, b, m, n);
        lemma_erase_visit_expr(*a.body, label, depth, b, m, n1);
        lemma_erase_visit_arms(s.drop_first(), label, depth, b, m, n2);
        let a2 = ArmView { guard: g2, body: Box::new(body2), ..a };
        assert(erase_arm(a2, b) == erase_arm(a, b));
        assert((seq![a2] + rest2).drop_first() =~= rest2);
    }
}

// ---------------------------------------------------------------------------
// The rewriting only wraps values
// ---------------------------------------------------------------------------
/// The rewriting of a tail keeps a call as it is and makes nothing else a call.
pub proof fn lemma_tail_shape(e: ExprView, mode: TailMode, b: Seq<char>, m: Seq<char>, n: nat, rec: bool)
    ensures
        ({
            let e2 = rewrite_tail(e, mode, b, m, n, rec).0;
            &&& e is Call ==> e2 == e
            &&& e2 is Call ==> e is Call
        }),
{
    let e2 = rewrite_tail(e, mode, b, m, n, rec).0;
    if !crate::spec::is_unreachable(e, b, m) {
        match e {
            ExprView::If { .. } => {
                assert(rewrite_if(e, b, m, n, true).0 is If);
                assert(rewrite_if(e, b, m, n, false).0 is If);
                assert(e2 is If);
            },
            ExprView::Block { .. } => assert(e2 is Block),
            ExprView::Unsafe { .. } => assert(e2 is Unsafe),
            ExprView::Match { .. } => assert(e2 is Match),
            ExprView::Loop { .. } => assert(e2 is Loop),
            ExprView::MethodCall { .. } => assert(e2 is MethodCall),
            _ => assert(e2 == e),
        }
    }
}

/// Replacing the last statement, an expression, by one that erases to the
/// same, without making a call of it, erases to the same statements.
pub proof fn lemma_erase_stmts_update_last(s: Seq<StmtView>, y: ExprView, b: Seq<char>)
    requires
        s.len() > 0,
        s[s.len() - 1] is Expr,
        erase(y, b) == erase(s[s.len() - 1]->Expr_0, b),
        s[s.len() - 1]->Expr_0 is Call ==> y == s[s.len() - 1]->Expr_0,
        y is Call ==> s[s.len() - 1]->Expr_0 is Call,
    ensures
        erase_stmts(s.update(s.len() - 1, StmtView::Expr(y)), b) == erase_stmts(s, b),
    decreases s.len(),
{
    let u = s.update(s.len() - 1, StmtView::Expr(y));
    if s[s.len() - 1]->Expr_0 is Call {
        assert(u =~= s);
    } else if s.len() == 1 {
        assert(!is_wrapped_branch(u[0], b));
        assert(!is_wrapped_branch(s[0], b));
        assert(u.drop_first() =~= s.drop_first());
        assert(erase_stmts(u, b) == seq![erase_stmt(u[0], b)] + erase_stmts(u.drop_first(), b));
        assert(erase_stmts(s, b) == seq![erase_stmt(s[0], b)] + erase_stmts(s.drop_first(), b));
        assert(erase_stmt(u[0], b) == erase_stmt(s[0], b));
    } else {
        let t = s.drop_first();
        lemma_erase_stmts_update_last(t, y, b);
        assert(u.drop_first() =~= t.update(t.len() - 1, StmtView::Expr(y)));
        assert(u[0] == s[0]);
    }
}

/// The rewriting of the tail of an expression changes nothing but wrapping
/// values in variants.
pub proof fn lemma_erase_tail(e: ExprView, mode: TailMode, b: Seq<char>, m: Seq<char>, n: nat, rec: bool)
    ensures
        erase(rewrite_tail(e, mode, b, m, n, rec).0, b) == erase(e, b),
    decreases e, 2nat,
{
    let rec2 = match mode {
        TailMode::Child => rec || has_empty_attr(expr_attrs(e), crate::spec::REC_ATTR@),
        TailMode::Rec => rec,
    };
    if crate::spec::is_unreachable(e, b, m) {
        return;
    }
    match e {
        ExprView::Block { stmts, .. } => lemma_erase_tail_stmts(stmts, mode, b, m, n, rec2),
        ExprView::Unsafe { stmts, .. } => lemma_erase_tail_stmts(stmts, mode, b, m, n, rec2),
        ExprView::Match { arms, .. } => lemma_erase_arms(arms, b, m, n, rec2),
        ExprView::If { .. } => lemma_erase_if(e, b, m, n, rec2),
        ExprView::Loop { label, body, .. } => lemma_erase_visit_stmts(body, label, 0, b, m, n),
        ExprView::MethodCall { receiver, .. } => match mode {
            TailMode::Child => lemma_erase_tail(*receiver, mode, b, m, n, rec2),
            TailMode::Rec => {},
        },
        _ => {},
    }
}

pub proof fn lemma_erase_tail_stmts(
    stmts: Seq<StmtView>,
    mode: TailMode,
    b: Seq<char>,
    m: Seq<char>,
    n: nat,
    rec: bool,
)
    ensures
        erase_stmts(rewrite_tail_stmts(stmts, mode, b, m, n, rec).0, b) == erase_stmts(stmts, b),
    decreases stmts, 2nat,
{
    if stmts.len() > 0 {
        match stmts[stmts.len() - 1] {
            StmtView::Expr(x) => {
                lemma_erase_tail(x, mode, b, m, n, rec);
                lemma_tail_shape(x, mode, b, m, n, rec);
                lemma_erase_stmts_update_last(stmts, rewrite_tail(x, mode, b, m, n, rec).0, b);
            },
            _ => {},
        }
    }
}

pub proof fn lemma_erase_skip_arm(a: ArmView, b: Seq<char>, m: Seq<char>, n: nat, rec: bool)
    ensures
        erase_arm(skip_arm(a, b, m, n, rec).0, b) == erase_arm(a, b),
    decreases a, 2nat,
{
    if !(has_empty_attr(a.attrs, crate::spec::NEVER_ATTR@) || crate::spec::is_unreachable(*a.body, b, m)) {
        if has_empty_attr(a.attrs, crate::spec::REC_ATTR@) || rec {
            lemma_erase_tail(*a.body, TailMode::Rec, b, m, n, rec);
        }
    }
}

pub proof fn lemma_erase_arms(arms: Seq<ArmView>, b: Seq<char>, m: Seq<char>, n: nat, rec: bool)
    ensures
        erase_arms(rewrite_arms(arms, b, m, n, rec).0, b) == erase_arms(arms, b),
    decreases arms, 2nat,
{
    if arms.len() > 0 {
        let rest = arms.drop_first();
        let (a2, n1, r1) = skip_arm(arms[0], b, m, n, rec);
        lemma_erase_skip_arm(arms[0], b, m, n, rec);
        match r1 {
            Err(_) => {
                assert((seq![a2] + rest).drop_first() =~= rest);
            },
            Ok(true) => {
                let rest2 = rewrite_arms(rest, b, m, n1, rec).0;
                lemma_erase_arms(rest, b, m, n1, rec);
                assert((seq![a2] + rest2).drop_first() =~= rest2);
            },
            Ok(false) => {
                let rest2 = rewrite_arms(rest, b, m, n1 + 1, rec).0;
                lemma_erase_arms(rest, b, m, n1 + 1, rec);
                let w = ArmView { body: Box::new(wrap(*a2.body, b, n1)), comma: true, ..a2 };
                lemma_erase_wrap(*a2.body, b, n1);
                assert(erase_arm(w, b) == erase_arm(a2, b));
                assert((seq![w] + rest2).drop_first() =~= rest2);
            },
        }
    }
}

pub proof fn lemma_erase_skip_branch(stmts: Seq<StmtView>, b: Seq<char>, m: Seq<char>, n: nat, rec: bool)
    ensures
        erase_stmts(skip_branch(stmts, b, m, n, rec).0, b) == erase_stmts(stmts, b),
    decreases stmts, 1nat,
{
    if stmts.len() > 0 {
        match stmts[stmts.len() - 1] {
            StmtView::Expr(x) => {
                if !crate::spec::is_unreachable(x, b, m) && (has_empty_attr(expr_attrs(x), crate::spec::REC_ATTR@)
                    || rec) {
                    lemma_erase_tail(x, TailMode::Rec, b, m, n, rec);
                    lemma_tail_shape(x, TailMode::Rec, b, m, n, rec);
                    lemma_erase_stmts_update_last(stmts, rewrite_tail(x, TailMode::Rec, b, m, n, rec).0, b);
                }
            },
            _ => {},
        }
    }
}

pub proof fn lemma_erase_branch(stmts: Seq<StmtView>, b: Seq<char>, m: Seq<char>, n: nat, rec: bool)
    ensures
        erase_stmts(rewrite_branch(stmts, b, m, n, rec).0, b) == erase_stmts(stmts, b),
    decreases stmts, 2nat,
{
    let (s2, n1, r) = skip_branch(stmts, b, m, n, rec);
    lemma_erase_skip_branch(stmts, b, m, n, rec);
    if r == Ok::<bool, crate::utils::Error>(false) {
        lemma_erase_wrapped_branch(s2, b, n1);
    }
}

pub proof fn lemma_erase_if(e: ExprView, b: Seq<char>, m: Seq<char>, n: nat, rec: bool)
    ensures
        erase(rewrite_if(e, b, m, n, rec).0, b) == erase(e, b),
    decreases e, 1nat,
{
    match e {
        ExprView::If { then_branch, else_branch, .. } => {
            let (t2, n1, r1) = rewrite_branch(then_branch, b, m, n, rec);
            lemma_erase_branch(then_branch, b, m, n, rec);
            if !(r1 is Err) {
                lemma_erase_else(else_branch, b, m, n1, rec);
            }
        },
        _ => {},
    }
}

pub proof fn lemma_erase_else(
    else_branch: Option<Box<ExprView>>,
    b: Seq<char>,
    m: Seq<char>,
    n: nat,
    rec: bool,
)
    ensures
        erase_opt(rewrite_else(else_branch, b, m, n, rec).0, b) == erase_opt(else_branch, b),
    decreases else_branch, 1nat,
{
    match else_branch {
        Some(x) => match *x {
            ExprView::Block { stmts, .. } => lemma_erase_branch(stmts, b, m, n, rec),
            ExprView::If { .. } => lemma_erase_if(*x, b, m, n, rec),
            _ => {},
        },
        None => {},
    }
}

/// The rewriting of the expression that `#[auto_enum]` is on changes nothing
/// but wrapping values in variants of the enum named `b`: erasing them (and
/// writing `break ()` as `break` and a comma after each arm) gives back the
/// expression it was given, whether it succeeds or stops at an error.
pub proof fn law_rewrite_only_wraps(e: ExprView, b: Seq<char>, m: Seq<char>, n: nat)
    ensures
        erase(rewrite_child(e, b, m, n).0, b) == erase(e, b),
{
    lemma_erase_tail(e, TailMode::Child, b, m, n, false);
}

/// An expression that never produces a value is left as it is: the rewriting
/// succeeds, changes nothing and hands out no variant.
pub proof fn law_unreachable_left_alone(e: ExprView, b: Seq<char>, m: Seq<char>, n: nat)
    requires
        is_unreachable(e, b, m),
    ensures
        rewrite_child(e, b, m, n) == (e, n, Ok::<(), crate::utils::Error>(())),
{
}

// ---------------------------------------------------------------------------
// Blocks and arms
// ---------------------------------------------------------------------------
/// A block (or `unsafe` block) that passes the filter and ends in an
/// expression is judged by that expression: the walk down the last
/// expressions ends where the expression's own walk ends, and the block never
/// produces a value exactly when the expression does not.
pub proof fn law_block_tail(e: ExprView, t: ExprView, b: Seq<char>, m: Seq<char>)
    requires
        passes_filter(e),
        match e {
            ExprView::Block { stmts, .. } => stmts.len() > 0 && stmts[stmts.len() - 1] == StmtView::Expr(t),
            ExprView::Unsafe { stmts, .. } => stmts.len() > 0 && stmts[stmts.len() - 1] == StmtView::Expr(t),
            _ => false,
        },
    ensures
        tail_target(e) == tail_target(t),
        is_unreachable(e, b, m) == is_unreachable(t, b, m),
{
}

/// An arm that the rewriting of a `match` leaves without a variant when
/// nothing asks for `#[rec]`: it carries `#[never]` or never produces a value.
pub open spec fn arm_skipped(a: ArmView, b: Seq<char>, m: Seq<char>) -> bool {
    has_empty_attr(a.attrs, NEVER_ATTR@) || is_unreachable(*a.body, b, m)
}

/// The number of arms that get a variant.
pub open spec fn wrapped_count(arms: Seq<ArmView>, b: Seq<char>, m: Seq<char>) -> nat
    decreases arms.len(),
{
    if arms.len() == 0 {
        0
    } else {
        (if arm_skipped(arms[0], b, m) { 0nat } else { 1nat }) + wrapped_count(arms.drop_first(), b, m)
    }
}

/// Where no arm carries `#[rec]` and `#[rec]` was not met on the way, the
/// rewriting of a `match` succeeds, keeps the number of arms, leaves each arm
/// that carries `#[never]` or never produces a value as it is, and wraps the
/// body of each other arm in the next variant, in the order of the arms,
/// giving it a comma and keeping its attributes, pattern and guard.
pub proof fn law_match_arms(arms: Seq<ArmView>, b: Seq<char>, m: Seq<char>, n: nat)
    requires
        forall|i: int| 0 <= i < arms.len() ==> !has_empty_attr(#[trigger] arms[i].attrs, crate::spec::REC_ATTR@),
    ensures
        ({
            let (a2, n2, r) = rewrite_arms(arms, b, m, n, false);
            &&& r == Ok::<(), crate::utils::Error>(())
            &&& a2.len() == arms.len()
            &&& n2 == n + wrapped_count(arms, b, m)
            &&& forall|i: int| 0 <= i < arms.len() ==> #[trigger] a2[i] == if arm_skipped(arms[i], b, m) {
                arms[i]
            } else {
                ArmView {
                    body: Box::new(wrap(*arms[i].body, b, n + wrapped_count(arms.take(i), b, m))),
                    comma: true,
                    ..arms[i]
                }
            }
        }),
    decreases arms.len(),
{
    if arms.len() == 0 {
        return;
    }
    let rest = arms.drop_first();
    let a0 = arms[0];
    let c0: nat = if arm_skipped(a0, b, m) { 0 } else { 1 };
    assert forall|i: int| 0 <= i < rest.len() implies !has_empty_attr(
        #[trigger] rest[i].attrs,
        crate::spec::REC_ATTR@,
    ) by {
        assert(rest[i] == arms[i + 1]);
    }
    law_match_arms(rest, b, m, n + c0);
    let (a2, n2, r) = rewrite_arms(arms, b, m, n, false);
    let (rest2, n3, r3) = rewrite_arms(rest, b, m, n + c0, false);
    assert(!has_empty_attr(arms[0].attrs, crate::spec::REC_ATTR@));
    assert(skip_arm(a0, b, m, n, false) == (a0, n, Ok::<bool, crate::utils::Error>(arm_skipped(a0, b, m))));
    assert(wrapped_count(arms, b, m) == c0 + wrapped_count(rest, b, m));
    assert forall|i: int| 0 <= i < arms.len() implies #[trigger] a2[i] == if arm_skipped(arms[i], b, m) {
        arms[i]
    } else {
        ArmView {
            body: Box::new(wrap(*arms[i].body, b, n + wrapped_count(arms.take(i), b, m))),
            comma: true,
            ..arms[i]
        }
    } by {
        if i == 0 {
            assert(arms.take(0).len() == 0);
        } else {
            assert(a2[i] == rest2[i - 1]);
            assert(rest[i - 1] == arms[i]);
            assert(arms.take(i).drop_first() =~= rest.take(i - 1));
            assert(arms.take(i)[0] == a0);
            assert(wrapped_count(arms.take(i), b, m) == c0 + wrapped_count(rest.take(i - 1), b, m));
        }
    }
}

} // verus!
