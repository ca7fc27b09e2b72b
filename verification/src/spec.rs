//! What the rewriting does, stated over the mathematical syntax tree.
//!
//! `b` is the name of the generated enum, `m` the name of the marker macro and
//! `n` the number of variants handed out so far; every function returns the
//! rewritten tree and the number of variants handed out after it.
use crate::context::wrap;
use crate::syntax::{
    ArmView, ExprView, StmtView, expr_attrs, has_attr, has_empty_attr, path_is_ident, view_unit,
};
use crate::utils::{Error, block_expr_view};
use vstd::prelude::*;

verus! {

/// The attribute that marks a branch that never produces a value.
pub const NEVER_ATTR: &'static str = "never";

/// The attribute that asks for nested `match` and `if` to be rewritten too.
pub const REC_ATTR: &'static str = "rec";

/// The name of the attribute itself.
pub const NAME: &'static str = "auto_enum";

/// The macros whose invocation never produces a value.
pub const UNREACHABLE_MACRO: &'static str = "unreachable";

pub const PANIC_MACRO: &'static str = "panic";

pub const NONE_IDENT: &'static str = "None";

pub const ERR_IDENT: &'static str = "Err";

pub open spec fn max(a: nat, b: nat) -> nat {
    if a >= b {
        a
    } else {
        b
    }
}

// ---------------------------------------------------------------------------
// Branches that never produce a value
// ---------------------------------------------------------------------------
/// The expression carries neither `#[never]` nor `#[auto_enum]`.
pub open spec fn passes_filter(e: ExprView) -> bool {
    !has_empty_attr(expr_attrs(e), NEVER_ATTR@) && !has_attr(expr_attrs(e), NAME@)
}

/// `b::V(x)`: a call of a variant of the enum named `b`, with one argument.
pub open spec fn is_variant_call(e: ExprView, b: Seq<char>) -> bool {
    match e {
        ExprView::Call { func, args, .. } => args.len() == 1 && match *func {
            ExprView::Path { qself, path, .. } => {
                &&& qself is None
                &&& !path.leading_colon
                &&& path.segments.len() == 2
                &&& !path.segments[0].arguments
                &&& !path.segments[1].arguments
                &&& path.segments[0].ident == b
            },
            _ => false,
        },
        _ => false,
    }
}

/// `None?` or `Err(x)?`.
pub open spec fn is_failing_try(e: ExprView) -> bool {
    match e {
        ExprView::Try { expr, .. } => match *expr {
            ExprView::Path { qself, path, .. } => qself is None && path_is_ident(path, NONE_IDENT@),
            ExprView::Call { func, args, .. } => args.len() == 1 && match *func {
                ExprView::Path { qself, path, .. } => qself is None && path_is_ident(path, ERR_IDENT@),
                _ => false,
            },
            _ => false,
        },
        _ => false,
    }
}

/// An expression, other than a block or a `match`, that never produces a
/// value: a jump, `unreachable!`/`panic!`/the marker macro, a variant call,
/// `None?` or `Err(x)?`.
pub open spec fn unreachable_leaf(e: ExprView, b: Seq<char>, m: Seq<char>) -> bool {
    match e {
        ExprView::Break { .. } => true,
        ExprView::Continue { .. } => true,
        ExprView::Return { .. } => true,
        ExprView::Macro { path, .. } => path_is_ident(path, UNREACHABLE_MACRO@) || path_is_ident(
            path,
            PANIC_MACRO@,
        ) || path_is_ident(path, m),
        ExprView::Call { .. } => is_variant_call(e, b),
        ExprView::Try { .. } => is_failing_try(e),
        _ => false,
    }
}

/// The expression never produces a value (or is not to be rewritten): it
/// carries `#[never]` or `#[auto_enum]`, or its last expression does not
/// produce a value.
pub open spec fn is_unreachable(e: ExprView, b: Seq<char>, m: Seq<char>) -> bool
    decreases e,
{
    if !passes_filter(e) {
        true
    } else {
        match e {
            ExprView::Block { stmts, .. } => stmts_unreachable(stmts, b, m),
            ExprView::Unsafe { stmts, .. } => stmts_unreachable(stmts, b, m),
            ExprView::Match { arms, .. } => arms_unreachable(arms, b, m),
            _ => unreachable_leaf(e, b, m),
        }
    }
}

/// A block whose last statement is an expression that never produces a value,
/// an expression statement that carries `#[never]` or `#[auto_enum]`, or a
/// `let` or an item.
pub open spec fn stmts_unreachable(stmts: Seq<StmtView>, b: Seq<char>, m: Seq<char>) -> bool
    decreases stmts,
{
    if stmts.len() == 0 {
        false
    } else {
        match stmts[stmts.len() - 1] {
            StmtView::Expr(x) => is_unreachable(x, b, m),
            StmtView::Semi(x) => !passes_filter(x),
            _ => true,
        }
    }
}

/// Every arm carries `#[never]` or never produces a value.
pub open spec fn arms_unreachable(arms: Seq<ArmView>, b: Seq<char>, m: Seq<char>) -> bool
    decreases arms,
{
    if arms.len() == 0 {
        true
    } else {
        (has_empty_attr(arms[0].attrs, NEVER_ATTR@) || is_unreachable(*arms[0].body, b, m))
            && arms_unreachable(arms.drop_first(), b, m)
    }
}

/// Where the walk down the last expressions of nested blocks ends, as long as
/// each expression on the way passes the filter: `None` where it stops early.
pub open spec fn tail_target(e: ExprView) -> Option<ExprView>
    decreases e,
{
    if !passes_filter(e) {
        None
    } else {
        match e {
            ExprView::Block { stmts, .. } => stmts_tail_target(stmts, e),
            ExprView::Unsafe { stmts, .. } => stmts_tail_target(stmts, e),
            _ => Some(e),
        }
    }
}

pub open spec fn stmts_tail_target(stmts: Seq<StmtView>, e: ExprView) -> Option<ExprView>
    decreases stmts,
{
    if stmts.len() == 0 {
        Some(e)
    } else {
        match stmts[stmts.len() - 1] {
            StmtView::Expr(x) => tail_target(x),
            StmtView::Semi(x) => if passes_filter(x) {
                Some(e)
            } else {
                None
            },
            _ => None,
        }
    }
}

// ---------------------------------------------------------------------------
// Rewriting the branches
// ---------------------------------------------------------------------------
/// How the walk down the last expressions is used: to rewrite the expression
/// the attribute is on, or, for `#[rec]`, to rewrite a nested branch.
pub enum TailMode {
    Child,
    Rec,
}

pub open spec fn ok_true(r: Result<(), Error>) -> Result<bool, Error> {
    match r {
        Ok(_) => Ok(true),
        Err(e) => Err(e),
    }
}

/// Rewrites the branches at the end of `e`. In `Rec` mode the result is
/// `Ok(true)` where the expression is not to be wrapped as a whole (it never
/// produces a value, or its branches were rewritten), `Ok(false)` where it is.
/// In `Child` mode `#[rec]` on an expression on the way switches `rec` on.
pub open spec fn rewrite_tail(
    e: ExprView,
    mode: TailMode,
    b: Seq<char>,
    m: Seq<char>,
    n: nat,
    rec: bool,
) -> (ExprView, nat, Result<bool, Error>)
    decreases e, 2nat,
{
    let rec2 = match mode {
        TailMode::Child => rec || has_empty_attr(expr_attrs(e), REC_ATTR@),
        TailMode::Rec => rec,
    };
    if is_unreachable(e, b, m) {
        (e, n, Ok(true))
    } else {
        match e {
            ExprView::Block { attrs, label, stmts } => {
                let (s2, n2, r) = rewrite_tail_stmts(stmts, mode, b, m, n, rec2);
                (ExprView::Block { attrs, label, stmts: s2 }, n2, r)
            },
            ExprView::Unsafe { attrs, stmts } => {
                let (s2, n2, r) = rewrite_tail_stmts(stmts, mode, b, m, n, rec2);
                (ExprView::Unsafe { attrs, stmts: s2 }, n2, r)
            },
            ExprView::Match { attrs, expr, arms } => {
                let (a2, n2, r) = rewrite_arms(arms, b, m, n, rec2);
                (ExprView::Match { attrs, expr, arms: a2 }, n2, ok_true(r))
            },
            ExprView::If { .. } => {
                let (e2, n2, r) = rewrite_if(e, b, m, n, rec2);
                (e2, n2, ok_true(r))
            },
            ExprView::Loop { attrs, label, body } => {
                let (body2, n2) = spec_visit_stmts(body, label, 0, b, m, n);
                (ExprView::Loop { attrs, label, body: body2 }, n2, Ok(true))
            },
            ExprView::MethodCall { attrs, receiver, method, args } => match mode {
                TailMode::Child => {
                    let (r2, n2, r) = rewrite_tail(*receiver, mode, b, m, n, rec2);
                    (ExprView::MethodCall { attrs, receiver: Box::new(r2), method, args }, n2, r)
                },
                TailMode::Rec => (e, n, Ok(false)),
            },
            _ => (e, n, Ok(false)),
        }
    }
}

/// `rewrite_tail` for the statements of a block that is on the way.
pub open spec fn rewrite_tail_stmts(
    stmts: Seq<StmtView>,
    mode: TailMode,
    b: Seq<char>,
    m: Seq<char>,
    n: nat,
    rec: bool,
) -> (Seq<StmtView>, nat, Result<bool, Error>)
    decreases stmts, 2nat,
{
    if stmts.len() == 0 {
        (stmts, n, Ok(false))
    } else {
        match stmts[stmts.len() - 1] {
            StmtView::Expr(x) => {
                let (x2, n2, r) = rewrite_tail(x, mode, b, m, n, rec);
                (stmts.update(stmts.len() - 1, StmtView::Expr(x2)), n2, r)
            },
            StmtView::Semi(x) => (stmts, n, Ok(is_unreachable(x, b, m))),
            _ => (stmts, n, Ok(true)),
        }
    }
}

/// Decides whether an arm of a `match` is left without a new variant: it
/// carries `#[never]` or never produces a value (`Ok(true)`); under `#[rec]`
/// its body's branches are rewritten (the result of that); else `Ok(false)`.
pub open spec fn skip_arm(a: ArmView, b: Seq<char>, m: Seq<char>, n: nat, rec: bool) -> (
    ArmView,
    nat,
    Result<bool, Error>,
)
    decreases a, 2nat,
{
    if has_empty_attr(a.attrs, NEVER_ATTR@) || is_unreachable(*a.body, b, m) {
        (a, n, Ok(true))
    } else if has_empty_attr(a.attrs, REC_ATTR@) || rec {
        let (body2, n1, r) = rewrite_tail(*a.body, TailMode::Rec, b, m, n, rec);
        (ArmView { body: Box::new(body2), ..a }, n1, r)
    } else {
        (a, n, Ok(false))
    }
}

/// Rewrites the arms of a `match` in order: an arm that `skip_arm` skips is
/// kept as `skip_arm` leaves it; every other arm gets a comma and its body is
/// wrapped in the next variant. Stops at the first error.
pub open spec fn rewrite_arms(
    arms: Seq<ArmView>,
    b: Seq<char>,
    m: Seq<char>,
    n: nat,
    rec: bool,
) -> (Seq<ArmView>, nat, Result<(), Error>)
    decreases arms, 2nat,
{
    if arms.len() == 0 {
        (arms, n, Ok(()))
    } else {
        let rest = arms.drop_first();
        let (a2, n1, r1) = skip_arm(arms[0], b, m, n, rec);
        match r1 {
            Err(err) => (seq![a2].add(rest), n1, Err(err)),
            Ok(true) => {
                let (rest2, n2, r) = rewrite_arms(rest, b, m, n1, rec);
                (seq![a2].add(rest2), n2, r)
            },
            Ok(false) => {
                let (rest2, n2, r) = rewrite_arms(rest, b, m, n1 + 1, rec);
                (seq![ArmView { body: Box::new(wrap(*a2.body, b, n1)), comma: true, ..a2 }].add(rest2), n2, r)
            },
        }
    }
}

/// Decides whether a branch of an `if` is left without a new variant: its last
/// statement never produces a value, ends with a semicolon or is not an
/// expression (`Ok(true)`); under `#[rec]` the branches of its last expression
/// are rewritten (the result of that); else `Ok(false)`.
pub open spec fn skip_branch(
    stmts: Seq<StmtView>,
    b: Seq<char>,
    m: Seq<char>,
    n: nat,
    rec: bool,
) -> (Seq<StmtView>, nat, Result<bool, Error>)
    decreases stmts, 1nat,
{
    if stmts.len() == 0 {
        (stmts, n, Ok(true))
    } else {
        match stmts[stmts.len() - 1] {
            StmtView::Expr(x) => if is_unreachable(x, b, m) {
                (stmts, n, Ok(true))
            } else if has_empty_attr(expr_attrs(x), REC_ATTR@) || rec {
                let (x2, n1, r) = rewrite_tail(x, TailMode::Rec, b, m, n, rec);
                (stmts.update(stmts.len() - 1, StmtView::Expr(x2)), n1, r)
            } else {
                (stmts, n, Ok(false))
            },
            _ => (stmts, n, Ok(true)),
        }
    }
}

/// The branch `{ s }` as `{ b::V({ s }) }` with the `k`-th variant.
pub open spec fn wrapped_branch(stmts: Seq<StmtView>, b: Seq<char>, k: nat) -> Seq<StmtView> {
    seq![StmtView::Expr(wrap(block_expr_view(stmts), b, k))]
}

/// Rewrites a branch of an `if`: a branch that `skip_branch` skips is kept as
/// `skip_branch` leaves it; any other branch is wrapped in the next variant.
pub open spec fn rewrite_branch(
    stmts: Seq<StmtView>,
    b: Seq<char>,
    m: Seq<char>,
    n: nat,
    rec: bool,
) -> (Seq<StmtView>, nat, Result<(), Error>)
    decreases stmts, 2nat,
{
    let (s2, n1, r) = skip_branch(stmts, b, m, n, rec);
    match r {
        Err(err) => (s2, n1, Err(err)),
        Ok(true) => (s2, n1, Ok(())),
        Ok(false) => (wrapped_branch(s2, b, n1), n1 + 1, Ok(())),
    }
}

/// Rewrites the branches of an `if` and of its `else if`s: the `then` branch,
/// then what follows `else`. An error in the `then` branch stops there.
pub open spec fn rewrite_if(e: ExprView, b: Seq<char>, m: Seq<char>, n: nat, rec: bool) -> (
    ExprView,
    nat,
    Result<(), Error>,
)
    decreases e, 1nat,
{
    match e {
        ExprView::If { attrs, cond, then_branch, else_branch } => {
            let (t2, n1, r1) = rewrite_branch(then_branch, b, m, n, rec);
            if r1 is Err {
                (ExprView::If { attrs, cond, then_branch: t2, else_branch }, n1, r1)
            } else {
                let (e2, n2, r2) = rewrite_else(else_branch, b, m, n1, rec);
                (ExprView::If { attrs, cond, then_branch: t2, else_branch: e2 }, n2, r2)
            }
        },
        _ => (e, n, Ok(())),
    }
}

/// Rewrites what follows the `else` of an `if`: a block as a branch, an `if`
/// as above. No `else`, or an `else` followed by anything else, is an error.
pub open spec fn rewrite_else(
    else_branch: Option<Box<ExprView>>,
    b: Seq<char>,
    m: Seq<char>,
    n: nat,
    rec: bool,
) -> (Option<Box<ExprView>>, nat, Result<(), Error>)
    decreases else_branch, 1nat,
{
    match else_branch {
        None => (else_branch, n, Err(Error::MissingElse)),
        Some(x) => match *x {
            ExprView::Block { attrs, label, stmts } => {
                let (s2, n2, r) = rewrite_branch(stmts, b, m, n, rec);
                (Some(Box::new(ExprView::Block { attrs, label, stmts: s2 })), n2, r)
            },
            ExprView::If { .. } => {
                let (x2, n2, r) = rewrite_if(*x, b, m, n, rec);
                (Some(Box::new(x2)), n2, r)
            },
            _ => (else_branch, n, Err(Error::ElseNotBlockOrIf)),
        },
    }
}

/// `child_expr`: the rewriting of the expression that the attribute is on.
pub open spec fn rewrite_child(e: ExprView, b: Seq<char>, m: Seq<char>, n: nat) -> (
    ExprView,
    nat,
    Result<(), Error>,
) {
    let (e2, n2, r) = rewrite_tail(e, TailMode::Child, b, m, n, false);
    (
        e2,
        n2,
        match r {
            Ok(_) => Ok(()),
            Err(err) => Err(err),
        },
    )
}

// ---------------------------------------------------------------------------
// `break` inside `loop`
// ---------------------------------------------------------------------------
/// Two optional labels are equal.
pub open spec fn label_eq(label: Option<Seq<char>>, other: Option<Seq<char>>) -> bool {
    match (label, other) {
        (None, None) => true,
        (Some(x), Some(y)) => x == y,
        _ => false,
    }
}

/// A `break` with label `other` leaves the loop that is rewritten, which has
/// label `label`, from `depth` nested loops inside it.
pub open spec fn breaks_out(label: Option<Seq<char>>, depth: nat, other: Option<Seq<char>>) -> bool {
    (depth == 0 && other is None) || label_eq(label, other)
}

/// Rewrites the `break`s that leave the loop: the value of each (`()` when it
/// has none) is wrapped in the next variant, unless it is the marker macro.
/// Nothing is rewritten under `#[never]`, inside closures and items, or inside
/// nested loops when the loop has no label.
pub open spec fn spec_visit_expr(
    e: ExprView,
    label: Option<Seq<char>>,
    depth: nat,
    b: Seq<char>,
    m: Seq<char>,
    n: nat,
) -> (ExprView, nat)
    decreases e,
{
    if has_empty_attr(expr_attrs(e), NEVER_ATTR@) {
        (e, n)
    } else {
        match e {
            ExprView::Closure { .. } => (e, n),
            ExprView::Loop { attrs, label: l, body } => if label is Some {
                let (body2, n2) = spec_visit_stmts(body, label, depth + 1, b, m, n);
                (ExprView::Loop { attrs, label: l, body: body2 }, n2)
            } else {
                (e, n)
            },
            ExprView::ForLoop { attrs, label: l, pat, expr, body } => if label is Some {
                let (x2, n1) = spec_visit_expr(*expr, label, depth + 1, b, m, n);
                let (body2, n2) = spec_visit_stmts(body, label, depth + 1, b, m, n1);
                (ExprView::ForLoop { attrs, label: l, pat, expr: Box::new(x2), body: body2 }, n2)
            } else {
                (e, n)
            },
            ExprView::While { attrs, label: l, cond, body } => if label is Some {
                let (c2, n1) = spec_visit_expr(*cond, label, depth + 1, b, m, n);
                let (body2, n2) = spec_visit_stmts(body, label, depth + 1, b, m, n1);
                (ExprView::While { attrs, label: l, cond: Box::new(c2), body: body2 }, n2)
            } else {
                (e, n)
            },
            ExprView::Break { attrs, label: l, expr } => if breaks_out(label, depth, l) {
                match expr {
                    Some(x) => if *x matches ExprView::Macro { path, .. } && path_is_ident(path, m) {
                        (e, n)
                    } else {
                        let (x2, n2) = spec_visit_expr(*x, label, depth, b, m, n + 1);
                        (ExprView::Break { attrs, label: l, expr: Some(Box::new(wrap(x2, b, n))) }, n2)
                    },
                    None => (
                        ExprView::Break { attrs, label: l, expr: Some(Box::new(wrap(view_unit(), b, n))) },
                        n + 1,
                    ),
                }
            } else {
                let (x2, n2) = spec_visit_opt(expr, label, depth, b, m, n);
                (ExprView::Break { attrs, label: l, expr: x2 }, n2)
            },
            ExprView::Block { attrs, label: l, stmts } => {
                let (s2, n2) = spec_visit_stmts(stmts, label, depth, b, m, n);
                (ExprView::Block { attrs, label: l, stmts: s2 }, n2)
            },
            ExprView::Unsafe { attrs, stmts } => {
                let (s2, n2) = spec_visit_stmts(stmts, label, depth, b, m, n);
                (ExprView::Unsafe { attrs, stmts: s2 }, n2)
            },
            ExprView::Match { attrs, expr, arms } => {
                let (x2, n1) = spec_visit_expr(*expr, label, depth, b, m, n);
                let (a2, n2) = spec_visit_arms(arms, label, depth, b, m, n1);
                (ExprView::Match { attrs, expr: Box::new(x2), arms: a2 }, n2)
            },
            ExprView::If { attrs, cond, then_branch, else_branch } => {
                let (c2, n1) = spec_visit_expr(*cond, label, depth, b, m, n);
                let (t2, n2) = spec_visit_stmts(then_branch, label, depth, b, m, n1);
                let (e2, n3) = spec_visit_opt(else_branch, label, depth, b, m, n2);
                (ExprView::If { attrs, cond: Box::new(c2), then_branch: t2, else_branch: e2 }, n3)
            },
            ExprView::Return { attrs, expr } => {
                let (x2, n2) = spec_visit_opt(expr, label, depth, b, m, n);
                (ExprView::Return { attrs, expr: x2 }, n2)
            },
            ExprView::Call { attrs, func, args } => {
                let (f2, n1) = spec_visit_expr(*func, label, depth, b, m, n);
                let (a2, n2) = spec_visit_exprs(args, label, depth, b, m, n1);
                (ExprView::Call { attrs, func: Box::new(f2), args: a2 }, n2)
            },
            ExprView::MethodCall { attrs, receiver, method, args } => {
                let (r2, n1) = spec_visit_expr(*receiver, label, depth, b, m, n);
                let (a2, n2) = spec_visit_exprs(args, label, depth, b, m, n1);
                (ExprView::MethodCall { attrs, receiver: Box::new(r2), method, args: a2 }, n2)
            },
            ExprView::Try { attrs, expr } => {
                let (x2, n2) = spec_visit_expr(*expr, label, depth, b, m, n);
                (ExprView::Try { attrs, expr: Box::new(x2) }, n2)
            },
            ExprView::Other { attrs, kind, tokens, children } => {
                let (c2, n2) = spec_visit_exprs(children, label, depth, b, m, n);
                (ExprView::Other { attrs, kind, tokens, children: c2 }, n2)
            },
            _ => (e, n),
        }
    }
}

pub open spec fn spec_visit_opt(
    e: Option<Box<ExprView>>,
    label: Option<Seq<char>>,
    depth: nat,
    b: Seq<char>,
    m: Seq<char>,
    n: nat,
) -> (Option<Box<ExprView>>, nat)
    decreases e,
{
    match e {
        Some(x) => {
            let (x2, n2) = spec_visit_expr(*x, label, depth, b, m, n);
            (Some(Box::new(x2)), n2)
        },
        None => (None, n),
    }
}

pub open spec fn spec_visit_exprs(
    s: Seq<ExprView>,
    label: Option<Seq<char>>,
    depth: nat,
    b: Seq<char>,
    m: Seq<char>,
    n: nat,
) -> (Seq<ExprView>, nat)
    decreases s,
{
    if s.len() == 0 {
        (s, n)
    } else {
        let (x2, n1) = spec_visit_expr(s[0], label, depth, b, m, n);
        let (rest2, n2) = spec_visit_exprs(s.drop_first(), label, depth, b, m, n1);
        (seq![x2].add(rest2), n2)
    }
}

pub open spec fn spec_visit_stmt(
    s: StmtView,
    label: Option<Seq<char>>,
    depth: nat,
    b: Seq<char>,
    m: Seq<char>,
    n: nat,
) -> (StmtView, nat)
    decreases s,
{
    match s {
        StmtView::Local { attrs, pat, init } => {
            let (i2, n2) = spec_visit_opt(init, label, depth, b, m, n);
            (StmtView::Local { attrs, pat, init: i2 }, n2)
        },
        StmtView::Item { .. } => (s, n),
        StmtView::Expr(x) => {
            let (x2, n2) = spec_visit_expr(x, label, depth, b, m, n);
            (StmtView::Expr(x2), n2)
        },
        StmtView::Semi(x) => {
            let (x2, n2) = spec_visit_expr(x, label, depth, b, m, n);
            (StmtView::Semi(x2), n2)
        },
    }
}

pub open spec fn spec_visit_stmts(
    s: Seq<StmtView>,
    label: Option<Seq<char>>,
    depth: nat,
    b: Seq<char>,
    m: Seq<char>,
    n: nat,
) -> (Seq<StmtView>, nat)
    decreases s,
{
    if s.len() == 0 {
        (s, n)
    } else {
        let (x2, n1) = spec_visit_stmt(s[0], label, depth, b, m, n);
        let (rest2, n2) = spec_visit_stmts(s.drop_first(), label, depth, b, m, n1);
        (seq![x2].add(rest2), n2)
    }
}

pub open spec fn spec_visit_arms(
    s: Seq<ArmView>,
    label: Option<Seq<char>>,
    depth: nat,
    b: Seq<char>,
    m: Seq<char>,
    n: nat,
) -> (Seq<ArmView>, nat)
    decreases s,
{
    if s.len() == 0 {
        (s, n)
    } else {
        let a = s[0];
        let (g2, n1) = spec_visit_opt(a.guard, label, depth, b, m, n);
        let (body2, n2) = spec_visit_expr(*a.body, label, depth, b, m, n1);
        let (rest2, n3) = spec_visit_arms(s.drop_first(), label, depth, b, m, n2);
        (seq![ArmView { guard: g2, body: Box::new(body2), ..a }].add(rest2), n3)
    }
}

// ---------------------------------------------------------------------------
// Height, which bounds the nesting of loops
// ---------------------------------------------------------------------------
pub open spec fn height(e: ExprView) -> nat
    decreases e,
{
    1 + match e {
        ExprView::Block { stmts, .. } => height_stmts(stmts),
        ExprView::Unsafe { stmts, .. } => height_stmts(stmts),
        ExprView::Match { expr, arms, .. } => max(height(*expr), height_arms(arms)),
        ExprView::If { cond, then_branch, else_branch, .. } => max(
            height(*cond),
            max(height_stmts(then_branch), height_opt(else_branch)),
        ),
        ExprView::Loop { body, .. } => height_stmts(body),
        ExprView::ForLoop { expr, body, .. } => max(height(*expr), height_stmts(body)),
        ExprView::While { cond, body, .. } => max(height(*cond), height_stmts(body)),
        ExprView::Closure { body, .. } => height(*body),
        ExprView::Break { expr, .. } => height_opt(expr),
        ExprView::Return { expr, .. } => height_opt(expr),
        ExprView::Call { func, args, .. } => max(height(*func), height_exprs(args)),
        ExprView::MethodCall { receiver, args, .. } => max(height(*receiver), height_exprs(args)),
        ExprView::Try { expr, .. } => height(*expr),
        ExprView::Other { children, .. } => height_exprs(children),
        _ => 0,
    }
}

/// The last statement of a block is no higher than the block.
pub proof fn lemma_height_stmts_last(s: Seq<StmtView>)
    requires
        s.len() > 0,
    ensures
        height_stmt(s[s.len() - 1]) <= height_stmts(s),
    decreases s.len(),
{
    if s.len() > 1 {
        lemma_height_stmts_last(s.drop_first());
        assert(s.drop_first()[s.len() - 2] == s[s.len() - 1]);
    }
}

pub open spec fn height_opt(e: Option<Box<ExprView>>) -> nat
    decreases e,
{
    match e {
        Some(x) => height(*x),
        None => 0,
    }
}

pub open spec fn height_exprs(s: Seq<ExprView>) -> nat
    decreases s,
{
    if s.len() == 0 {
        0
    } else {
        max(height(s[0]), height_exprs(s.drop_first()))
    }
}

pub open spec fn height_stmt(s: StmtView) -> nat
    decreases s,
{
    match s {
        StmtView::Local { init, .. } => height_opt(init),
        StmtView::Item { .. } => 0,
        StmtView::Expr(x) => height(x),
        StmtView::Semi(x) => height(x),
    }
}

pub open spec fn height_stmts(s: Seq<StmtView>) -> nat
    decreases s,
{
    if s.len() == 0 {
        0
    } else {
        max(height_stmt(s[0]), height_stmts(s.drop_first()))
    }
}

pub open spec fn height_arms(s: Seq<ArmView>) -> nat
    decreases s,
{
    if s.len() == 0 {
        0
    } else {
        max(max(height_opt(s[0].guard), height(*s[0].body)), height_arms(s.drop_first()))
    }
}

} // verus!
