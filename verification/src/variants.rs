//! Which variants of the enum the values of a rewritten expression are
//! wrapped in: each one handed out, once, in the order of the source.
use crate::context::{law_variant_names_distinct, names, variant_name, wrap};
use crate::laws::{is_wrapper, lemma_visit_wrapper};
use crate::spec::{
    TailMode, rewrite_tail, rewrite_tail_stmts, skip_arm, rewrite_arms, skip_branch, rewrite_branch,
    rewrite_if, rewrite_else, rewrite_child, wrapped_branch, spec_visit_expr, spec_visit_opt,
    spec_visit_exprs, spec_visit_stmt, spec_visit_stmts, spec_visit_arms, NEVER_ATTR, REC_ATTR,
    breaks_out, is_unreachable,
};
use crate::syntax::{expr_attrs, has_empty_attr, path_is_ident, view_unit};
use crate::syntax::{ArmView, ExprView, StmtView};
use crate::utils::{Error, block_expr_view};
use vstd::prelude::*;

verus! {

// ---------------------------------------------------------------------------
// The variants found in a tree
// ---------------------------------------------------------------------------
/// The variant of each value wrapped in the enum named `b` (each `b::V(x)`),
/// in the order of the source.
pub open spec fn variants_in(e: ExprView, b: Seq<char>) -> Seq<Seq<char>>
    decreases e,
{
    match e {
        ExprView::Block { stmts, .. } => variants_in_stmts(stmts, b),
        ExprView::Unsafe { stmts, .. } => variants_in_stmts(stmts, b),
        ExprView::Match { expr, arms, .. } => variants_in(*expr, b) + variants_in_arms(arms, b),
        ExprView::If { cond, then_branch, else_branch, .. } => variants_in(*cond, b)
            + variants_in_stmts(then_branch, b) + variants_in_opt(else_branch, b),
        ExprView::Loop { body, .. } => variants_in_stmts(body, b),
        ExprView::ForLoop { expr, body, .. } => variants_in(*expr, b) + variants_in_stmts(body, b),
        ExprView::While { cond, body, .. } => variants_in(*cond, b) + variants_in_stmts(body, b),
        ExprView::Closure { body, .. } => variants_in(*body, b),
        ExprView::Break { expr, .. } => variants_in_opt(expr, b),
        ExprView::Return { expr, .. } => variants_in_opt(expr, b),
        ExprView::Call { func, args, .. } => if is_wrapper(e, b) {
            match *func {
                ExprView::Path { path, .. } => seq![path.segments[1].ident] + variants_in(args[0], b),
                _ => Seq::empty(),
            }
        } else {
            variants_in(*func, b) + variants_in_exprs(args, b)
        },
        ExprView::MethodCall { receiver, args, .. } => variants_in(*receiver, b) + variants_in_exprs(args, b),
        ExprView::Try { expr, .. } => variants_in(*expr, b),
        ExprView::Other { children, .. } => variants_in_exprs(children, b),
        _ => Seq::empty(),
    }
}

pub open spec fn variants_in_opt(e: Option<Box<ExprView>>, b: Seq<char>) -> Seq<Seq<char>>
    decreases e,
{
    match e {
        Some(x) => variants_in(*x, b),
        None => Seq::empty(),
    }
}

pub open spec fn variants_in_exprs(s: Seq<ExprView>, b: Seq<char>) -> Seq<Seq<char>>
    decreases s,
{
    if s.len() == 0 {
        Seq::empty()
    } else {
        variants_in(s[0], b) + variants_in_exprs(s.drop_first(), b)
    }
}

pub open spec fn variants_in_stmt(s: StmtView, b: Seq<char>) -> Seq<Seq<char>>
    decreases s,
{
    match s {
        StmtView::Local { init, .. } => variants_in_opt(init, b),
        StmtView::Item { .. } => Seq::empty(),
        StmtView::Expr(x) => variants_in(x, b),
        StmtView::Semi(x) => variants_in(x, b),
    }
}

pub open spec fn variants_in_stmts(s: Seq<StmtView>, b: Seq<char>) -> Seq<Seq<char>>
    decreases s,
{
    if s.len() == 0 {
        Seq::empty()
    } else {
        variants_in_stmt(s[0], b) + variants_in_stmts(s.drop_first(), b)
    }
}

pub open spec fn variants_in_arm(a: ArmView, b: Seq<char>) -> Seq<Seq<char>>
    decreases a,
{
    variants_in_opt(a.guard, b) + variants_in(*a.body, b)
}

pub open spec fn variants_in_arms(s: Seq<ArmView>, b: Seq<char>) -> Seq<Seq<char>>
    decreases s,
{
    if s.len() == 0 {
        Seq::empty()
    } else {
        variants_in_arm(s[0], b) + variants_in_arms(s.drop_first(), b)
    }
}

// ---------------------------------------------------------------------------
// Runs of variant names
// ---------------------------------------------------------------------------
proof fn lemma_names_empty(a: nat)
    ensures
        names(a, a) == Seq::<Seq<char>>::empty(),
{
    assert(names(a, a) =~= Seq::<Seq<char>>::empty());
}

proof fn lemma_names_concat(a: nat, b: nat, c: nat)
    requires
        a <= b <= c,
    ensures
        names(a, b) + names(b, c) == names(a, c),
{
    assert(names(a, b) + names(b, c) =~= names(a, c));
}

proof fn lemma_names_cons(a: nat, c: nat)
    requires
        a < c,
    ensures
        seq![variant_name(a)] + names(a + 1, c) == names(a, c),
{
    assert(seq![variant_name(a)] + names(a + 1, c) =~= names(a, c));
}

/// A wrapped value adds its variant in front of those inside it.
proof fn lemma_variants_wrap(x: ExprView, b: Seq<char>, k: nat)
    ensures
        variants_in(wrap(x, b, k), b) == seq![variant_name(k)] + variants_in(x, b),
{
    assert(is_wrapper(wrap(x, b, k), b));
}

proof fn lemma_stmts_cons(x: StmtView, rest: Seq<StmtView>, b: Seq<char>)
    ensures
        variants_in_stmts(seq![x] + rest, b) == variants_in_stmt(x, b) + variants_in_stmts(rest, b),
{
    assert((seq![x] + rest).drop_first() =~= rest);
}

proof fn lemma_exprs_cons(x: ExprView, rest: Seq<ExprView>, b: Seq<char>)
    ensures
        variants_in_exprs(seq![x] + rest, b) == variants_in(x, b) + variants_in_exprs(rest, b),
{
    assert((seq![x] + rest).drop_first() =~= rest);
}

proof fn lemma_arms_cons(x: ArmView, rest: Seq<ArmView>, b: Seq<char>)
    ensures
        variants_in_arms(seq![x] + rest, b) == variants_in_arm(x, b) + variants_in_arms(rest, b),
{
    assert((seq![x] + rest).drop_first() =~= rest);
}

/// The variants of a block are those before its last statement followed by
/// those of its last statement.
proof fn lemma_stmts_split_last(s: Seq<StmtView>, b: Seq<char>)
    requires
        s.len() > 0,
    ensures
        variants_in_stmts(s, b) == variants_in_stmts(s.drop_last(), b) + variants_in_stmt(
            s[s.len() - 1],
            b,
        ),
    decreases s.len(),
{
    if s.len() == 1 {
        assert(s.drop_first().len() == 0);
        assert(s.drop_last().len() == 0);
        assert(variants_in_stmts(s.drop_first(), b) == Seq::<Seq<char>>::empty());
        assert(variants_in_stmts(s.drop_last(), b) == Seq::<Seq<char>>::empty());
        assert(variants_in_stmts(s, b) == variants_in_stmt(s[0], b) + variants_in_stmts(s.drop_first(), b));
        assert(variants_in_stmts(s, b) =~= variants_in_stmt(s[0], b));
        assert(variants_in_stmts(s.drop_last(), b) + variants_in_stmt(s[0], b) =~= variants_in_stmt(
            s[0],
            b,
        ));
    } else {
        let t = s.drop_first();
        lemma_stmts_split_last(t, b);
        assert(s.drop_last().drop_first() =~= t.drop_last());
        assert(s.drop_last()[0] == s[0]);
        assert(t[t.len() - 1] == s[s.len() - 1]);
        assert(variants_in_stmts(s.drop_last(), b) == variants_in_stmt(s[0], b) + variants_in_stmts(
            t.drop_last(),
            b,
        ));
        assert(variants_in_stmts(s, b) =~= variants_in_stmts(s.drop_last(), b) + variants_in_stmt(
            s[s.len() - 1],
            b,
        ));
    }
}

/// Replacing the last statement of a block that wraps nothing before it.
proof fn lemma_stmts_update_last(s: Seq<StmtView>, y: StmtView, b: Seq<char>)
    requires
        s.len() > 0,
        variants_in_stmts(s, b).len() == 0,
    ensures
        variants_in_stmts(s.update(s.len() - 1, y), b) == variants_in_stmt(y, b),
        variants_in_stmt(s[s.len() - 1], b).len() == 0,
{
    let u = s.update(s.len() - 1, y);
    lemma_stmts_split_last(s, b);
    lemma_stmts_split_last(u, b);
    assert(u.drop_last() =~= s.drop_last());
    assert(variants_in_stmts(u, b) =~= variants_in_stmt(y, b));
}

// ---------------------------------------------------------------------------
// The walk of a loop's body
// ---------------------------------------------------------------------------
/// The walk of a loop's body, on a tree that wraps nothing yet, wraps the
/// values it wraps in the variants it hands out, in order.
#[verifier::spinoff_prover]
#[verifier::rlimit(80)]
proof fn lemma_visit_expr(
    e: ExprView,
    label: Option<Seq<char>>,
    depth: nat,
    b: Seq<char>,
    m: Seq<char>,
    n: nat,
)
    requires
        variants_in(e, b).len() == 0,
    ensures
        ({
            let (e2, n2) = spec_visit_expr(e, label, depth, b, m, n);
            n <= n2 && variants_in(e2, b) == names(n, n2)
        }),
    decreases e,
{
    let (e2, n2) = spec_visit_expr(e, label, depth, b, m, n);
    assert(variants_in(e, b) =~= Seq::<Seq<char>>::empty());
    if has_empty_attr(expr_attrs(e), NEVER_ATTR@) {
        lemma_names_empty(n);
        return;
    }
    match e {
        ExprView::Loop { attrs, label: l, body } => {
            assert(variants_in(e, b) == variants_in_stmts(body, b));
            if label is Some {
                let body2 = spec_visit_stmts(body, label, depth + 1, b, m, n).0;
                lemma_visit_stmts(body, label, depth + 1, b, m, n);
                assert(e2 == ExprView::Loop { attrs, label: l, body: body2 });
                assert(variants_in(e2, b) == names(n, n2));
            } else {
                lemma_names_empty(n);
            }
        },
        ExprView::ForLoop { attrs, label: l, pat, expr, body } => if label is Some {
            assert(variants_in(e, b) == variants_in(*expr, b) + variants_in_stmts(body, b));
            let (x2, n1) = spec_visit_expr(*expr, label, depth + 1, b, m, n);
            let body2 = spec_visit_stmts(body, label, depth + 1, b, m, n1).0;
            lemma_visit_expr(*expr, label, depth + 1, b, m, n);
            lemma_visit_stmts(body, label, depth + 1, b, m, n1);
            lemma_names_concat(n, n1, n2);
            assert(e2 == ExprView::ForLoop { attrs, label: l, pat, expr: Box::new(x2), body: body2 });
            assert(variants_in(e2, b) == names(n, n2));
        } else {
            lemma_names_empty(n);
        },
        ExprView::While { attrs, label: l, cond, body } => if label is Some {
            assert(variants_in(e, b) == variants_in(*cond, b) + variants_in_stmts(body, b));
            let (c2, n1) = spec_visit_expr(*cond, label, depth + 1, b, m, n);
            let body2 = spec_visit_stmts(body, label, depth + 1, b, m, n1).0;
            lemma_visit_expr(*cond, label, depth + 1, b, m, n);
            lemma_visit_stmts(body, label, depth + 1, b, m, n1);
            lemma_names_concat(n, n1, n2);
            assert(e2 == ExprView::While { attrs, label: l, cond: Box::new(c2), body: body2 });
            assert(variants_in(e2, b) == names(n, n2));
        } else {
            lemma_names_empty(n);
        },
        ExprView::Break { attrs, label: l, expr } => {
            assert(variants_in(e, b) == variants_in_opt(expr, b));
            if breaks_out(label, depth, l) {
                match expr {
                    Some(x) => {
                        assert(variants_in(e, b) == variants_in(*x, b));
                        if *x matches ExprView::Macro { path, .. } && path_is_ident(path, m) {
                            lemma_names_empty(n);
                        } else {
                            let x2 = spec_visit_expr(*x, label, depth, b, m, n + 1).0;
                            lemma_visit_expr(*x, label, depth, b, m, n + 1);
                            lemma_variants_wrap(x2, b, n);
                            assert(n2 == spec_visit_expr(*x, label, depth, b, m, n + 1).1);
                            lemma_names_cons(n, n2);
                            let w = wrap(x2, b, n);
                            assert(variants_in_opt(Some(Box::new(w)), b) == variants_in(w, b));
                            assert(e2 == ExprView::Break { attrs, label: l, expr: Some(Box::new(wrap(x2, b, n))) });
                            assert(variants_in(e2, b) == names(n, n2));
                        }
                    },
                    None => {
                        let u = view_unit();
                        lemma_variants_wrap(u, b, n);
                        assert(variants_in_exprs(u->Other_children, b) =~= Seq::<Seq<char>>::empty());
                        lemma_names_cons(n, n + 1);
                        lemma_names_empty(n + 1);
                        let w = wrap(u, b, n);
                        assert(variants_in_opt(Some(Box::new(w)), b) == variants_in(w, b));
                        assert(variants_in(u, b) == variants_in_exprs(u->Other_children, b));
                        assert(e2 == ExprView::Break { attrs, label: l, expr: Some(Box::new(wrap(u, b, n))) });
                        assert(variants_in(e2, b) == names(n, n2));
                    },
                }
            } else {
                let x2 = spec_visit_opt(expr, label, depth, b, m, n).0;
                lemma_visit_opt(expr, label, depth, b, m, n);
                assert(e2 == ExprView::Break { attrs, label: l, expr: x2 });
                assert(variants_in(e2, b) == names(n, n2));
            }
        },
        ExprView::Block { attrs, label: l, stmts } => {
            assert(variants_in(e, b) == variants_in_stmts(stmts, b));
            let s2 = spec_visit_stmts(stmts, label, depth, b, m, n).0;
            lemma_visit_stmts(stmts, label, depth, b, m, n);
            assert(e2 == ExprView::Block { attrs, label: l, stmts: s2 });
            assert(variants_in(e2, b) == names(n, n2));
        },
        ExprView::Unsafe { attrs, stmts } => {
            assert(variants_in(e, b) == variants_in_stmts(stmts, b));
            let s2 = spec_visit_stmts(stmts, label, depth, b, m, n).0;
            lemma_visit_stmts(stmts, label, depth, b, m, n);
            assert(e2 == ExprView::Unsafe { attrs, stmts: s2 });
            assert(variants_in(e2, b) == names(n, n2));
        },
        ExprView::Match { attrs, expr, arms } => {
            assert(variants_in(e, b) == variants_in(*expr, b) + variants_in_arms(arms, b));
            let (x2, n1) = spec_visit_expr(*expr, label, depth, b, m, n);
            let a2 = spec_visit_arms(arms, label, depth, b, m, n1).0;
            lemma_visit_expr(*expr, label, depth, b, m, n);
            lemma_visit_arms(arms, label, depth, b, m, n1);
            lemma_names_concat(n, n1, n2);
            assert(e2 == ExprView::Match { attrs, expr: Box::new(x2), arms: a2 });
            assert(variants_in(e2, b) == names(n, n2));
        },
        ExprView::If { attrs, cond, then_branch, else_branch } => {
            assert(variants_in(e, b) == variants_in(*cond, b) + variants_in_stmts(then_branch, b)
                + variants_in_opt(else_branch, b));
            let (c2, n1) = spec_visit_expr(*cond, label, depth, b, m, n);
            let (t2, n3) = spec_visit_stmts(then_branch, label, depth, b, m, n1);
            let x2 = spec_visit_opt(else_branch, label, depth, b, m, n3).0;
            lemma_visit_expr(*cond, label, depth, b, m, n);
            lemma_visit_stmts(then_branch, label, depth, b, m, n1);
            lemma_visit_opt(else_branch, label, depth, b, m, n3);
            lemma_names_concat(n, n1, n3);
            lemma_names_concat(n, n3, n2);
            assert(e2 == ExprView::If { attrs, cond: Box::new(c2), then_branch: t2, else_branch: x2 });
            assert(variants_in(e2, b) == names(n, n2));
        },
        ExprView::Return { attrs, expr } => {
            assert(variants_in(e, b) == variants_in_opt(expr, b));
            let x2 = spec_visit_opt(expr, label, depth, b, m, n).0;
            lemma_visit_opt(expr, label, depth, b, m, n);
            assert(e2 == ExprView::Return { attrs, expr: x2 });
            assert(variants_in(e2, b) == names(n, n2));
        },
        ExprView::Call { attrs, func, args } => {
            lemma_visit_wrapper(e, label, depth, b, m, n);
            assert(!is_wrapper(e, b));
            assert(variants_in(e, b) == variants_in(*func, b) + variants_in_exprs(args, b));
            let (f2, n1) = spec_visit_expr(*func, label, depth, b, m, n);
            let a2 = spec_visit_exprs(args, label, depth, b, m, n1).0;
            lemma_visit_expr(*func, label, depth, b, m, n);
            lemma_visit_exprs(args, label, depth, b, m, n1);
            lemma_names_concat(n, n1, n2);
            assert(e2 == ExprView::Call { attrs, func: Box::new(f2), args: a2 });
            assert(variants_in(e2, b) == names(n, n2));
            assert(!is_wrapper(e2, b));
        },
        ExprView::MethodCall { attrs, receiver, method, args } => {
            assert(variants_in(e, b) == variants_in(*receiver, b) + variants_in_exprs(args, b));
            let (r2, n1) = spec_visit_expr(*receiver, label, depth, b, m, n);
            let a2 = spec_visit_exprs(args, label, depth, b, m, n1).0;
            lemma_visit_expr(*receiver, label, depth, b, m, n);
            lemma_visit_exprs(args, label, depth, b, m, n1);
            lemma_names_concat(n, n1, n2);
            assert(e2 == ExprView::MethodCall { attrs, receiver: Box::new(r2), method, args: a2 });
            assert(variants_in(e2, b) == names(n, n2));
        },
        ExprView::Try { attrs, expr } => {
            assert(variants_in(e, b) == variants_in(*expr, b));
            let x2 = spec_visit_expr(*expr, label, depth, b, m, n).0;
            lemma_visit_expr(*expr, label, depth, b, m, n);
            assert(e2 == ExprView::Try { attrs, expr: Box::new(x2) });
            assert(variants_in(e2, b) == names(n, n2));
        },
        ExprView::Other { attrs, kind, tokens, children } => {
            assert(variants_in(e, b) == variants_in_exprs(children, b));
            let c2 = spec_visit_exprs(children, label, depth, b, m, n).0;
            lemma_visit_exprs(children, label, depth, b, m, n);
            assert(e2 == ExprView::Other { attrs, kind, tokens, children: c2 });
            assert(variants_in(e2, b) == names(n, n2));
        },
        _ => lemma_names_empty(n),
    }
}

proof fn lemma_visit_opt(
    e: Option<Box<ExprView>>,
    label: Option<Seq<char>>,
    depth: nat,
    b: Seq<char>,
    m: Seq<char>,
    n: nat,
)
    requires
        variants_in_opt(e, b).len() == 0,
    ensures
        ({
            let (e2, n2) = spec_visit_opt(e, label, depth, b, m, n);
            n <= n2 && variants_in_opt(e2, b) == names(n, n2)
        }),
    decreases e,
{
    match e {
        Some(x) => lemma_visit_expr(*x, label, depth, b, m, n),
        None => lemma_names_empty(n),
    }
}

proof fn lemma_visit_exprs(
    s: Seq<ExprView>,
    label: Option<Seq<char>>,
    depth: nat,
    b: Seq<char>,
    m: Seq<char>,
    n: nat,
)
    requires
        variants_in_exprs(s, b).len() == 0,
    ensures
        ({
            let (s2, n2) = spec_visit_exprs(s, label, depth, b, m, n);
            n <= n2 && variants_in_exprs(s2, b) == names(n, n2)
        }),
    decreases s,
{
    if s.len() == 0 {
        lemma_names_empty(n);
    } else {
        let (x2, n1) = spec_visit_expr(s[0], label, depth, b, m, n);
        let (rest2, n2) = spec_visit_exprs(s.drop_first(), label, depth, b, m, n1);
        lemma_visit_expr(s[0], label, depth, b, m, n);
        lemma_visit_exprs(s.drop_first(), label, depth, b, m, n1);
        lemma_exprs_cons(x2, rest2, b);
        lemma_names_concat(n, n1, n2);
    }
}

proof fn lemma_visit_stmt(
    s: StmtView,
    label: Option<Seq<char>>,
    depth: nat,
    b: Seq<char>,
    m: Seq<char>,
    n: nat,
)
    requires
        variants_in_stmt(s, b).len() == 0,
    ensures
        ({
            let (s2, n2) = spec_visit_stmt(s, label, depth, b, m, n);
            n <= n2 && variants_in_stmt(s2, b) == names(n, n2)
        }),
    decreases s,
{
    match s {
        StmtView::Local { init, .. } => lemma_visit_opt(init, label, depth, b, m, n),
        StmtView::Expr(x) => lemma_visit_expr(x, label, depth, b, m, n),
        StmtView::Semi(x) => lemma_visit_expr(x, label, depth, b, m, n),
        _ => lemma_names_empty(n),
    }
}

proof fn lemma_visit_stmts(
    s: Seq<StmtView>,
    label: Option<Seq<char>>,
    depth: nat,
    b: Seq<char>,
    m: Seq<char>,
    n: nat,
)
    requires
        variants_in_stmts(s, b).len() == 0,
    ensures
        ({
            let (s2, n2) = spec_visit_stmts(s, label, depth, b, m, n);
            n <= n2 && variants_in_stmts(s2, b) == names(n, n2)
        }),
    decreases s,
{
    if s.len() == 0 {
        lemma_names_empty(n);
    } else {
        let (x2, n1) = spec_visit_stmt(s[0], label, depth, b, m, n);
        let (rest2, n2) = spec_visit_stmts(s.drop_first(), label, depth, b, m, n1);
        lemma_visit_stmt(s[0], label, depth, b, m, n);
        lemma_visit_stmts(s.drop_first(), label, depth, b, m, n1);
        lemma_stmts_cons(x2, rest2, b);
        lemma_names_concat(n, n1, n2);
    }
}

proof fn lemma_visit_arms(
    s: Seq<ArmView>,
    label: Option<Seq<char>>,
    depth: nat,
    b: Seq<char>,
    m: Seq<char>,
    n: nat,
)
    requires
        variants_in_arms(s, b).len() == 0,
    ensures
        ({
            let (s2, n3) = spec_visit_arms(s, label, depth, b, m, n);
            n <= n3 && variants_in_arms(s2, b) == names(n, n3)
        }),
    decreases s,
{
    if s.len() == 0 {
        lemma_names_empty(n);
    } else {
        let a = s[0];
        assert(variants_in_arms(s, b) == variants_in_arm(a, b) + variants_in_arms(s.drop_first(), b));
        assert(variants_in_arm(a, b) == variants_in_opt(a.guard, b) + variants_in(*a.body, b));
        let (g2, n1) = spec_visit_opt(a.guard, label, depth, b, m, n);
        let (body2, n2) = spec_visit_expr(*a.body, label, depth, b, m, n1);
        let (rest2, n3) = spec_visit_arms(s.drop_first(), label, depth, b, m, n2);
        lemma_visit_opt(a.guard, label, depth, b, m, n);
        lemma_visit_expr(*a.body, label, depth, b, m, n1);
        lemma_visit_arms(s.drop_first(), label, depth, b, m, n2);
        let a2 = ArmView { guard: g2, body: Box::new(body2), ..a };
        lemma_arms_cons(a2, rest2, b);
        assert(variants_in_arm(a2, b) == variants_in_opt(g2, b) + variants_in(body2, b));
        lemma_names_concat(n, n1, n2);
        lemma_names_concat(n, n2, n3);
    }
}

// ---------------------------------------------------------------------------
// The rewriting of the branches
// ---------------------------------------------------------------------------
/// The rewriting of a tail, on a tree that wraps nothing yet, wraps values in
/// the variants it hands out, in order; where it leaves the tail to be wrapped
/// as a whole (`Ok(false)`), it hands out none.
#[verifier::spinoff_prover]
#[verifier::rlimit(60)]
proof fn lemma_tail(e: ExprView, mode: TailMode, b: Seq<char>, m: Seq<char>, n: nat, rec: bool)
    requires
        variants_in(e, b).len() == 0,
    ensures
        ({
            let (e2, n2, r) = rewrite_tail(e, mode, b, m, n, rec);
            &&& n <= n2
            &&& variants_in(e2, b) == names(n, n2)
            &&& r == Ok::<bool, Error>(false) ==> n2 == n
        }),
    decreases e, 2nat,
{
    let (e2, n2, r) = rewrite_tail(e, mode, b, m, n, rec);
    let rec2 = match mode {
        TailMode::Child => rec || has_empty_attr(expr_attrs(e), REC_ATTR@),
        TailMode::Rec => rec,
    };
    assert(variants_in(e, b) =~= Seq::<Seq<char>>::empty());
    if is_unreachable(e, b, m) {
        lemma_names_empty(n);
        return;
    }
    match e {
        ExprView::Block { attrs, label, stmts } => {
            assert(variants_in(e, b) == variants_in_stmts(stmts, b));
            let s2 = rewrite_tail_stmts(stmts, mode, b, m, n, rec2).0;
            lemma_tail_stmts(stmts, mode, b, m, n, rec2);
            assert(e2 == ExprView::Block { attrs, label, stmts: s2 });
            assert(variants_in(e2, b) == names(n, n2));
        },
        ExprView::Unsafe { attrs, stmts } => {
            assert(variants_in(e, b) == variants_in_stmts(stmts, b));
            let s2 = rewrite_tail_stmts(stmts, mode, b, m, n, rec2).0;
            lemma_tail_stmts(stmts, mode, b, m, n, rec2);
            assert(e2 == ExprView::Unsafe { attrs, stmts: s2 });
            assert(variants_in(e2, b) == names(n, n2));
        },
        ExprView::Match { attrs, expr, arms } => {
            assert(variants_in(e, b) == variants_in(*expr, b) + variants_in_arms(arms, b));
            let a2 = rewrite_arms(arms, b, m, n, rec2).0;
            lemma_arms(arms, b, m, n, rec2);
            assert(e2 == ExprView::Match { attrs, expr, arms: a2 });
            assert(variants_in(*expr, b) =~= Seq::<Seq<char>>::empty());
            assert(variants_in(e2, b) == variants_in(*expr, b) + variants_in_arms(a2, b));
            assert(variants_in(e2, b) == names(n, n2));
        },
        ExprView::If { .. } => {
            lemma_if(e, b, m, n, rec2);
        },
        ExprView::Loop { attrs, label, body } => {
            assert(variants_in(e, b) == variants_in_stmts(body, b));
            let body2 = spec_visit_stmts(body, label, 0, b, m, n).0;
            lemma_visit_stmts(body, label, 0, b, m, n);
            assert(e2 == ExprView::Loop { attrs, label, body: body2 });
            assert(variants_in(e2, b) == names(n, n2));
        },
        ExprView::MethodCall { attrs, receiver, method, args } => match mode {
            TailMode::Child => {
                assert(variants_in(e, b) == variants_in(*receiver, b) + variants_in_exprs(args, b));
                let r2 = rewrite_tail(*receiver, mode, b, m, n, rec2).0;
                lemma_tail(*receiver, mode, b, m, n, rec2);
                assert(e2 == ExprView::MethodCall { attrs, receiver: Box::new(r2), method, args });
                assert(variants_in_exprs(args, b) =~= Seq::<Seq<char>>::empty());
                assert(variants_in(e2, b) == variants_in(r2, b) + variants_in_exprs(args, b));
                assert(variants_in(e2, b) == names(n, n2));
            },
            TailMode::Rec => lemma_names_empty(n),
        },
        _ => lemma_names_empty(n),
    }
}

proof fn lemma_tail_stmts(
    stmts: Seq<StmtView>,
    mode: TailMode,
    b: Seq<char>,
    m: Seq<char>,
    n: nat,
    rec: bool,
)
    requires
        variants_in_stmts(stmts, b).len() == 0,
    ensures
        ({
            let (s2, n2, r) = rewrite_tail_stmts(stmts, mode, b, m, n, rec);
            &&& n <= n2
            &&& variants_in_stmts(s2, b) == names(n, n2)
            &&& r == Ok::<bool, Error>(false) ==> n2 == n
        }),
    decreases stmts, 2nat,
{
    assert(variants_in_stmts(stmts, b) =~= Seq::<Seq<char>>::empty());
    if stmts.len() == 0 {
        lemma_names_empty(n);
        return;
    }
    match stmts[stmts.len() - 1] {
        StmtView::Expr(x) => {
            lemma_stmts_split_last(stmts, b);
            let x2 = rewrite_tail(x, mode, b, m, n, rec).0;
            lemma_tail(x, mode, b, m, n, rec);
            lemma_stmts_update_last(stmts, StmtView::Expr(x2), b);
        },
        _ => lemma_names_empty(n),
    }
}

proof fn lemma_skip_arm(a: ArmView, b: Seq<char>, m: Seq<char>, n: nat, rec: bool)
    requires
        variants_in_arm(a, b).len() == 0,
    ensures
        ({
            let (a2, n1, r) = skip_arm(a, b, m, n, rec);
            &&& n <= n1
            &&& variants_in_arm(a2, b) == names(n, n1)
            &&& r == Ok::<bool, Error>(false) ==> n1 == n
        }),
    decreases a, 2nat,
{
    let (a2, n1, r) = skip_arm(a, b, m, n, rec);
    assert(variants_in_arm(a, b) == variants_in_opt(a.guard, b) + variants_in(*a.body, b));
    assert(variants_in_arm(a, b) =~= Seq::<Seq<char>>::empty());
    if has_empty_attr(a.attrs, NEVER_ATTR@) || is_unreachable(*a.body, b, m) {
        lemma_names_empty(n);
    } else if has_empty_attr(a.attrs, REC_ATTR@) || rec {
        let body2 = rewrite_tail(*a.body, TailMode::Rec, b, m, n, rec).0;
        lemma_tail(*a.body, TailMode::Rec, b, m, n, rec);
        assert(a2 == ArmView { body: Box::new(body2), ..a });
        assert(variants_in_opt(a.guard, b) =~= Seq::<Seq<char>>::empty());
        assert(variants_in_arm(a2, b) == variants_in_opt(a.guard, b) + variants_in(body2, b));
    } else {
        lemma_names_empty(n);
    }
}

proof fn lemma_arms(arms: Seq<ArmView>, b: Seq<char>, m: Seq<char>, n: nat, rec: bool)
    requires
        variants_in_arms(arms, b).len() == 0,
    ensures
        ({
            let (a2, n2, r) = rewrite_arms(arms, b, m, n, rec);
            n <= n2 && variants_in_arms(a2, b) == names(n, n2)
        }),
    decreases arms, 2nat,
{
    if arms.len() == 0 {
        lemma_names_empty(n);
        return;
    }
    let rest = arms.drop_first();
    assert(variants_in_arms(arms, b) == variants_in_arm(arms[0], b) + variants_in_arms(rest, b));
    let (a2, n1, r1) = skip_arm(arms[0], b, m, n, rec);
    lemma_skip_arm(arms[0], b, m, n, rec);
    let n2 = rewrite_arms(arms, b, m, n, rec).1;
    match r1 {
        Err(_) => {
            lemma_arms_cons(a2, rest, b);
            assert(variants_in_arms(rest, b) =~= Seq::<Seq<char>>::empty());
            assert(variants_in_arms(seq![a2] + rest, b) =~= names(n, n1));
        },
        Ok(true) => {
            let rest2 = rewrite_arms(rest, b, m, n1, rec).0;
            lemma_arms(rest, b, m, n1, rec);
            lemma_arms_cons(a2, rest2, b);
            lemma_names_concat(n, n1, n2);
        },
        Ok(false) => {
            let rest2 = rewrite_arms(rest, b, m, n1 + 1, rec).0;
            lemma_arms(rest, b, m, n1 + 1, rec);
            let w = ArmView { body: Box::new(wrap(*a2.body, b, n1)), comma: true, ..a2 };
            lemma_arms_cons(w, rest2, b);
            lemma_variants_wrap(*a2.body, b, n1);
            lemma_names_empty(n);
            assert(variants_in_arm(a2, b) == variants_in_opt(a2.guard, b) + variants_in(*a2.body, b));
            assert(variants_in_opt(a2.guard, b) =~= Seq::<Seq<char>>::empty());
            assert(variants_in(*a2.body, b) =~= Seq::<Seq<char>>::empty());
            assert(variants_in_arm(w, b) == variants_in_opt(a2.guard, b) + variants_in(wrap(*a2.body, b, n1), b));
            assert(variants_in_arm(w, b) =~= seq![variant_name(n1)]);
            lemma_names_cons(n1, n2);
        },
    }
}

proof fn lemma_skip_branch(stmts: Seq<StmtView>, b: Seq<char>, m: Seq<char>, n: nat, rec: bool)
    requires
        variants_in_stmts(stmts, b).len() == 0,
    ensures
        ({
            let (s2, n1, r) = skip_branch(stmts, b, m, n, rec);
            &&& n <= n1
            &&& variants_in_stmts(s2, b) == names(n, n1)
            &&& r == Ok::<bool, Error>(false) ==> n1 == n
        }),
    decreases stmts, 1nat,
{
    assert(variants_in_stmts(stmts, b) =~= Seq::<Seq<char>>::empty());
    if stmts.len() == 0 {
        lemma_names_empty(n);
        return;
    }
    match stmts[stmts.len() - 1] {
        StmtView::Expr(x) => {
            if !is_unreachable(x, b, m) && (has_empty_attr(expr_attrs(x), REC_ATTR@) || rec) {
                lemma_stmts_split_last(stmts, b);
                let x2 = rewrite_tail(x, TailMode::Rec, b, m, n, rec).0;
                lemma_tail(x, TailMode::Rec, b, m, n, rec);
                lemma_stmts_update_last(stmts, StmtView::Expr(x2), b);
            } else {
                lemma_names_empty(n);
            }
        },
        _ => lemma_names_empty(n),
    }
}

proof fn lemma_branch(stmts: Seq<StmtView>, b: Seq<char>, m: Seq<char>, n: nat, rec: bool)
    requires
        variants_in_stmts(stmts, b).len() == 0,
    ensures
        ({
            let (s2, n2, r) = rewrite_branch(stmts, b, m, n, rec);
            n <= n2 && variants_in_stmts(s2, b) == names(n, n2)
        }),
    decreases stmts, 2nat,
{
    let (s2, n1, r) = skip_branch(stmts, b, m, n, rec);
    lemma_skip_branch(stmts, b, m, n, rec);
    if r == Ok::<bool, Error>(false) {
        lemma_names_empty(n);
        let blk = block_expr_view(s2);
        let w = wrap(blk, b, n1);
        lemma_variants_wrap(blk, b, n1);
        assert(variants_in(blk, b) == variants_in_stmts(s2, b));
        lemma_stmts_cons(StmtView::Expr(w), Seq::empty(), b);
        assert(wrapped_branch(s2, b, n1) =~= seq![StmtView::Expr(w)] + Seq::<StmtView>::empty());
        assert(variants_in_stmts(Seq::<StmtView>::empty(), b) =~= Seq::<Seq<char>>::empty());
        assert(variants_in_stmts(wrapped_branch(s2, b, n1), b) =~= seq![variant_name(n1)]);
        lemma_names_cons(n1, n1 + 1);
        lemma_names_empty(n1 + 1);
    }
}

proof fn lemma_if(e: ExprView, b: Seq<char>, m: Seq<char>, n: nat, rec: bool)
    requires
        variants_in(e, b).len() == 0,
    ensures
        ({
            let (e2, n2, r) = rewrite_if(e, b, m, n, rec);
            n <= n2 && variants_in(e2, b) == names(n, n2)
        }),
    decreases e, 1nat,
{
    match e {
        ExprView::If { attrs, cond, then_branch, else_branch } => {
            assert(variants_in(e, b) == variants_in(*cond, b) + variants_in_stmts(then_branch, b)
                + variants_in_opt(else_branch, b));
            assert(variants_in(*cond, b) =~= Seq::<Seq<char>>::empty());
            let (t2, n1, r1) = rewrite_branch(then_branch, b, m, n, rec);
            lemma_branch(then_branch, b, m, n, rec);
            let (e2, n2, r) = rewrite_if(e, b, m, n, rec);
            if r1 is Err {
                assert(e2 == ExprView::If { attrs, cond, then_branch: t2, else_branch });
                assert(variants_in_opt(else_branch, b) =~= Seq::<Seq<char>>::empty());
                assert(variants_in(e2, b) == variants_in(*cond, b) + variants_in_stmts(t2, b)
                    + variants_in_opt(else_branch, b));
                assert(variants_in(e2, b) =~= names(n, n2));
            } else {
                let x2 = rewrite_else(else_branch, b, m, n1, rec).0;
                lemma_else(else_branch, b, m, n1, rec);
                assert(e2 == ExprView::If { attrs, cond, then_branch: t2, else_branch: x2 });
                assert(variants_in(e2, b) == variants_in(*cond, b) + variants_in_stmts(t2, b)
                    + variants_in_opt(x2, b));
                lemma_names_concat(n, n1, n2);
                assert(variants_in(e2, b) =~= names(n, n2));
            }
        },
        _ => lemma_names_empty(n),
    }
}

proof fn lemma_else(else_branch: Option<Box<ExprView>>, b: Seq<char>, m: Seq<char>, n: nat, rec: bool)
    requires
        variants_in_opt(else_branch, b).len() == 0,
    ensures
        ({
            let (x2, n2, r) = rewrite_else(else_branch, b, m, n, rec);
            n <= n2 && variants_in_opt(x2, b) == names(n, n2)
        }),
    decreases else_branch, 1nat,
{
    match else_branch {
        Some(x) => {
            assert(variants_in_opt(else_branch, b) == variants_in(*x, b));
            match *x {
                ExprView::Block { attrs, label, stmts } => {
                    assert(variants_in(*x, b) == variants_in_stmts(stmts, b));
                    let s2 = rewrite_branch(stmts, b, m, n, rec).0;
                    lemma_branch(stmts, b, m, n, rec);
                    let y = ExprView::Block { attrs, label, stmts: s2 };
                    assert(variants_in_opt(Some(Box::new(y)), b) == variants_in(y, b));
                },
                ExprView::If { .. } => {
                    let y = rewrite_if(*x, b, m, n, rec).0;
                    lemma_if(*x, b, m, n, rec);
                    assert(variants_in_opt(Some(Box::new(y)), b) == variants_in(y, b));
                },
                _ => {
                    lemma_names_empty(n);
                    assert(variants_in_opt(else_branch, b) =~= Seq::<Seq<char>>::empty());
                },
            }
        },
        None => lemma_names_empty(n),
    }
}

/// Each value that the rewriting wraps gets a variant of its own: in an
/// expression that wraps nothing in the enum yet, the variants that the
/// rewritten expression wraps values in are, in the order of the source,
/// exactly those handed out, in the order they were handed out, each once.
/// This holds whether the rewriting succeeds or stops at an error.
pub proof fn law_each_variant_once(e: ExprView, b: Seq<char>, m: Seq<char>, n: nat)
    requires
        variants_in(e, b).len() == 0,
    ensures
        variants_in(rewrite_child(e, b, m, n).0, b) == names(n, rewrite_child(e, b, m, n).1),
{
    lemma_tail(e, TailMode::Child, b, m, n, false);
}

/// No two values of the rewritten expression are wrapped in the same variant.
pub proof fn law_variants_distinct(e: ExprView, b: Seq<char>, m: Seq<char>, n: nat)
    requires
        variants_in(e, b).len() == 0,
    ensures
        ({
            let v = variants_in(rewrite_child(e, b, m, n).0, b);
            forall|i: int, j: int| 0 <= i < j < v.len() ==> v[i] != v[j]
        }),
{
    law_each_variant_once(e, b, m, n);
    let v = variants_in(rewrite_child(e, b, m, n).0, b);
    assert forall|i: int, j: int| 0 <= i < j < v.len() implies v[i] != v[j] by {
        assert(v[i] == variant_name((n + i) as nat));
        assert(v[j] == variant_name((n + j) as nat));
        law_variant_names_distinct((n + i) as nat, (n + j) as nat);
    }
}

} // verus!
