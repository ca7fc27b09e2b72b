//! Rewriting the branches of the expression that `#[auto_enum]` is on: each
//! branch that produces a value gets it wrapped in a new variant of the
//! generated enum.
use crate::context::{Builder, Marker, grown, lemma_grown_refl, lemma_grown_trans};
use crate::spec::{
    ERR_IDENT, NAME, NEVER_ATTR, NONE_IDENT, PANIC_MACRO, UNREACHABLE_MACRO, arms_unreachable,
    is_unreachable as spec_is_unreachable, passes_filter, stmts_tail_target, tail_target,
    unreachable_leaf,
};
use crate::spec::{
    TailMode, rewrite_tail, rewrite_tail_stmts, rewrite_arms, skip_arm, skip_branch, rewrite_branch,
    rewrite_if, rewrite_child, wrapped_branch, lemma_height_stmts_last, REC_ATTR,
    height, height_opt, height_stmts, height_exprs, height_stmt, height_arms, label_eq as spec_label_eq, spec_visit_expr,
    spec_visit_opt, spec_visit_exprs, spec_visit_stmt, spec_visit_stmts, spec_visit_arms,
};
use crate::syntax::{
    Arm, Block, Expr, ExprBlock, ExprBreak, ExprCall, ExprForLoop, ExprIf, ExprLoop, ExprMatch,
    ExprMethodCall, ExprOther, ExprReturn, ExprTry, ExprUnsafe, ExprView, ExprWhile, Item, Lifetime,
    Local, Stmt, StmtView, label_view, view_arms, view_exprs, view_stmts, view_stmt, ArmView,
};
use crate::utils::{Error, Result, block, expr_block, expr_call, unit};
use vstd::prelude::*;

verus! {

/// What the rewriting reads of the attribute's parameters, and whether `#[rec]`
/// has been met on the way down.
#[derive(Clone, Copy)]
pub struct Params<'a> {
    pub marker: &'a Marker,
    pub rec: bool,
}

impl<'a> Params<'a> {
    /// The parameters of the attribute, before any `#[rec]` is met.
    pub fn from(params: &'a crate::context::Params) -> (r: Params<'a>)
        ensures
            r.marker == params.marker,
            !r.rec,
    {
        Params { marker: params.marker(), rec: false }
    }
}

// ---------------------------------------------------------------------------
// Branches that never produce a value
// ---------------------------------------------------------------------------
/// The expression carries neither `#[never]` nor `#[auto_enum]`.
fn passes(expr: &Expr) -> (r: bool)
    ensures
        r == passes_filter(expr@),
{
    !expr.any_empty_attr(NEVER_ATTR) && !expr.any_attr(NAME)
}

/// Walks down the last expressions of nested blocks while each passes the
/// filter; `None` where the walk stops early, else the expression it ends on.
fn last_expr(expr: &Expr) -> (r: Option<&Expr>)
    ensures
        match r {
            None => tail_target(expr@) is None,
            Some(t) => tail_target(expr@) == Some(t@) && (t == expr || decreases_to!(*expr => *t)),
        },
    decreases expr,
{
    if !passes(expr) {
        return None;
    }
    let block = match expr {
        Expr::Block(x) => &x.block,
        Expr::Unsafe(x) => &x.block,
        _ => {
            return Some(expr);
        },
    };
    let ghost stmts = view_stmts(block.stmts@);
    assert(tail_target(expr@) == stmts_tail_target(stmts, expr@));
    let len = block.stmts.len();
    if len == 0 {
        return Some(expr);
    }
    assert(stmts[len - 1] == block.stmts@[len - 1]@);
    match &block.stmts[len - 1] {
        Stmt::Expr(x) => {
            assert(decreases_to!(*expr => *x));
            last_expr(x)
        },
        Stmt::Semi(x) => if passes(x) {
            Some(expr)
        } else {
            None
        },
        _ => None,
    }
}

/// Whether `expr` never produces a value, so that it is left as it is.
pub fn is_unreachable(expr: &Expr, builder: &Builder, params: &Params) -> (r: bool)
    ensures
        r == spec_is_unreachable(expr@, builder@.ident, params.marker.ident@),
    decreases expr, 0int,
{
    let ghost b = builder@.ident;
    let ghost m = params.marker.ident@;
    proof {
        crate::laws::lemma_unreachable_tail(expr@, b, m);
    }
    let t = match last_expr(expr) {
        None => {
            return true;
        },
        Some(t) => t,
    };
    assert(spec_is_unreachable(expr@, b, m) == crate::laws::unreachable_op(t@, b, m));
    match t {
        Expr::Break(_) => {
            assert(t@ is Break);
            true
        },
        Expr::Continue(_) => {
            assert(t@ is Continue);
            true
        },
        Expr::Return(_) => {
            assert(t@ is Return);
            true
        },
        Expr::Macro(x) => {
            assert(t@ is Macro);
            let r = x.mac.path.is_ident(UNREACHABLE_MACRO) || x.mac.path.is_ident(PANIC_MACRO)
                || params.marker.marker_macro(&x.mac);
            assert(r == crate::laws::unreachable_op(t@, b, m));
            r
        },
        Expr::Call(x) => {
            assert(t@ is Call);
            if x.args.len() != 1 {
                assert(crate::syntax::view_exprs(x.args@).len() != 1);
                return false;
            }
            match &*x.func {
                Expr::Path(p) => {
                    assert((*x.func)@ is Path);
                    assert((*x.func)@ == crate::syntax::view_expr(Expr::Path(*p)));
                    assert(p.path@.segments.len() == p.path.segments@.len());
                    assert(p.path.segments@.len() == 2 ==> p.path@.segments[0] == p.path.segments@[0]@
                        && p.path@.segments[1] == p.path.segments@[1]@);
                    assert((p.qself is None) == (crate::syntax::opt_string_view(p.qself) is None));
                    let r = p.qself.is_none() && !p.path.leading_colon && p.path.segments.len() == 2
                        && !p.path.segments[0].arguments && !p.path.segments[1].arguments
                        && p.path.segments[0].ident == *builder.ident();
                    assert(t@ == crate::syntax::view_expr(Expr::Call(*x)));
                    assert(crate::syntax::view_exprs(x.args@).len() == 1);
                    assert(t@->Call_func == Box::new((*x.func)@));
                    assert(r == crate::spec::is_variant_call(t@, b));
                    assert(r == crate::laws::unreachable_op(t@, b, m));
                    r
                },
                _ => {
                    assert(!((*x.func)@ is Path));
                    false
                },
            }
        },
        Expr::Match(x) => {
            assert(decreases_to!(*t => x.arms));
            assert(view_arms(x.arms@).skip(0) =~= view_arms(x.arms@));
            assert(t@ is Match);
            let r = all_arms_unreachable(&x.arms, 0, builder, params);
            assert(r == crate::laws::unreachable_op(t@, b, m));
            r
        },
        Expr::Try(x) => match &*x.expr {
            Expr::Path(p) => {
                assert(t@ is Try);
                assert((*x.expr)@ == crate::syntax::view_expr(Expr::Path(*p)));
                assert((p.qself is None) == (crate::syntax::opt_string_view(p.qself) is None));
                let r = p.qself.is_none() && p.path.is_ident(NONE_IDENT);
                assert(r == crate::spec::is_failing_try(t@));
                r
            },
            Expr::Call(c) => {
                assert(t@ is Try);
                assert((*x.expr)@ is Call);
                if c.args.len() != 1 {
                    assert(crate::syntax::view_exprs(c.args@).len() != 1);
                    return false;
                }
                assert((*x.expr)@ == crate::syntax::view_expr(Expr::Call(*c)));
                assert(crate::syntax::view_exprs(c.args@).len() == 1);
                match &*c.func {
                    Expr::Path(p) => {
                        assert((*c.func)@ == crate::syntax::view_expr(Expr::Path(*p)));
                        assert((p.qself is None) == (crate::syntax::opt_string_view(p.qself) is None));
                        let r = p.qself.is_none() && p.path.is_ident(ERR_IDENT);
                        assert(r == crate::spec::is_failing_try(t@));
                        r
                    },
                    _ => {
                        assert(!((*c.func)@ is Path));
                        false
                    },
                }
            },
            _ => {
                assert(t@ is Try);
                assert(!((*x.expr)@ is Call) && !((*x.expr)@ is Path));
                false
            },
        },
        _ => {
            assert(!(t@ is Break || t@ is Continue || t@ is Return || t@ is Macro || t@ is Call
                || t@ is Match || t@ is Try));
            false
        },
    }
}

/// Whether every arm from the `i`-th on carries `#[never]` or never produces a
/// value.
fn all_arms_unreachable(arms: &Vec<Arm>, i: usize, builder: &Builder, params: &Params) -> (r:
    bool)
    requires
        i <= arms@.len(),
    ensures
        r == arms_unreachable(view_arms(arms@).skip(i as int), builder@.ident, params.marker.ident@),
    decreases arms@, arms@.len() - i,
{
    let ghost s = view_arms(arms@).skip(i as int);
    if i == arms.len() {
        assert(s.len() == 0);
        return true;
    }
    assert(s[0] == arms@[i as int]@);
    assert(s.drop_first() =~= view_arms(arms@).skip(i + 1));
    let arm = &arms[i];
    let ok = arm.any_empty_attr(NEVER_ATTR) || {
        assert(decreases_to!(arms@ => *arms@[i as int].body));
        is_unreachable(&arm.body, builder, params)
    };
    ok && all_arms_unreachable(arms, i + 1, builder, params)
}

// ---------------------------------------------------------------------------
// Rewriting the branches
// ---------------------------------------------------------------------------
/// Rewrites the branches of the expression `#[auto_enum]` is on: see
/// `rewrite_child`. Errors where an `if` that has to produce a value has no
/// `else`, or an `else` that is neither a block nor an `if`.
pub fn child_expr(expr: &mut Expr, builder: &mut Builder, params: &crate::context::Params) -> (r:
    Result<()>)
    requires
        height(old(expr)@) <= usize::MAX,
    ensures
        ({
            let (e2, n2, res) = rewrite_child(
                old(expr)@,
                old(builder)@.ident,
                params.marker.ident@,
                old(builder)@.len(),
            );
            final(expr)@ == e2 && r == res && grown(old(builder)@, final(builder)@, n2)
        }),
{
    let mut e = unit();
    std::mem::swap(expr, &mut e);
    let (e2, r) = last_expr_mut(e, builder, Params::from(params), TailMode::Child);
    *expr = e2;
    match r {
        Ok(_) => Ok(()),
        Err(err) => Err(err),
    }
}

/// Walks down the last expressions of nested blocks, as long as each is not
/// one that never produces a value, and rewrites the branches of the
/// expression it ends on: see `rewrite_tail`.
fn last_expr_mut(expr: Expr, builder: &mut Builder, params: Params, mode: TailMode) -> (res: (
    Expr,
    Result<bool>,
))
    requires
        height(expr@) <= usize::MAX,
    ensures
        ({
            let (e2, n2, r) = rewrite_tail(
                expr@,
                mode,
                old(builder)@.ident,
                params.marker.ident@,
                old(builder)@.len(),
                params.rec,
            );
            res.0@ == e2 && res.1 == r && grown(old(builder)@, final(builder)@, n2)
        }),
    decreases expr, 2nat,
{
    let params = match mode {
        TailMode::Child => if expr.any_empty_attr(REC_ATTR) {
            Params { marker: params.marker, rec: true }
        } else {
            params
        },
        TailMode::Rec => params,
    };
    if is_unreachable(&expr, builder, &params) {
        proof {
            lemma_grown_refl(builder@);
        }
        return (expr, Ok(true));
    }
    match expr {
        Expr::Block(x) => {
            let ExprBlock { attrs, label, block } = x;
            let (stmts, r) = last_stmt_mut(block.stmts, builder, params, mode);
            (Expr::Block(ExprBlock { attrs, label, block: Block { stmts } }), r)
        },
        Expr::Unsafe(x) => {
            let ExprUnsafe { attrs, block } = x;
            let (stmts, r) = last_stmt_mut(block.stmts, builder, params, mode);
            (Expr::Unsafe(ExprUnsafe { attrs, block: Block { stmts } }), r)
        },
        Expr::Match(x) => {
            let (x2, r) = expr_match(x, builder, params);
            (
                Expr::Match(x2),
                match r {
                    Ok(_) => Ok(true),
                    Err(err) => Err(err),
                },
            )
        },
        Expr::If(x) => {
            let (x2, r) = expr_if(x, builder, params);
            (
                Expr::If(x2),
                match r {
                    Ok(_) => Ok(true),
                    Err(err) => Err(err),
                },
            )
        },
        Expr::Loop(x) => {
            let x2 = expr_loop(x, builder, params);
            (Expr::Loop(x2), Ok(true))
        },
        Expr::MethodCall(x) => match mode {
            TailMode::Child => {
                let ExprMethodCall { attrs, receiver, method, args } = x;
                let (receiver, r) = last_expr_mut(*receiver, builder, params, mode);
                (Expr::MethodCall(ExprMethodCall { attrs, receiver: Box::new(receiver), method, args }), r)
            },
            TailMode::Rec => {
                proof {
                    lemma_grown_refl(builder@);
                }
                (Expr::MethodCall(x), Ok(false))
            },
        },
        other => {
            proof {
                lemma_grown_refl(builder@);
            }
            (other, Ok(false))
        },
    }
}

/// `last_expr_mut` for the statements of a block on the way: only the last
/// statement is looked at.
fn last_stmt_mut(stmts: Vec<Stmt>, builder: &mut Builder, params: Params, mode: TailMode) -> (res: (
    Vec<Stmt>,
    Result<bool>,
))
    requires
        height_stmts(view_stmts(stmts@)) <= usize::MAX,
    ensures
        ({
            let (s2, n2, r) = rewrite_tail_stmts(
                view_stmts(stmts@),
                mode,
                old(builder)@.ident,
                params.marker.ident@,
                old(builder)@.len(),
                params.rec,
            );
            view_stmts(res.0@) == s2 && res.1 == r && grown(old(builder)@, final(builder)@, n2)
        }),
    decreases stmts@, 2nat,
{
    let ghost v0 = stmts@;
    let ghost sv = view_stmts(v0);
    let mut stmts = stmts;
    if stmts.len() == 0 {
        proof {
            lemma_grown_refl(builder@);
        }
        return (stmts, Ok(false));
    }
    proof {
        lemma_height_stmts_last(sv);
    }
    assert(sv[sv.len() - 1] == view_stmt(v0[v0.len() - 1]));
    let last = stmts.pop().unwrap();
    assert(stmts@ == v0.drop_last());
    match last {
        Stmt::Expr(x) => {
            assert(decreases_to!(v0 => v0[v0.len() - 1]));
            let (x2, r) = last_expr_mut(x, builder, params, mode);
            let ghost x2v = x2@;
            stmts.push(Stmt::Expr(x2));
            assert(view_stmts(stmts@) =~= sv.update(sv.len() - 1, StmtView::Expr(x2v)));
            (stmts, r)
        },
        Stmt::Semi(x) => {
            let u = is_unreachable(&x, builder, &params);
            stmts.push(Stmt::Semi(x));
            assert(stmts@ =~= v0);
            proof {
                lemma_grown_refl(builder@);
            }
            (stmts, Ok(u))
        },
        other => {
            stmts.push(other);
            assert(stmts@ =~= v0);
            proof {
                lemma_grown_refl(builder@);
            }
            (stmts, Ok(true))
        },
    }
}

/// Under `#[rec]`: rewrites the branches of a nested expression; `Ok(true)`
/// where it is not to be wrapped as a whole.
fn rec_attr(expr: Expr, builder: &mut Builder, params: Params) -> (res: (Expr, Result<bool>))
    requires
        height(expr@) <= usize::MAX,
    ensures
        ({
            let (e2, n2, r) = rewrite_tail(
                expr@,
                TailMode::Rec,
                old(builder)@.ident,
                params.marker.ident@,
                old(builder)@.len(),
                params.rec,
            );
            res.0@ == e2 && res.1 == r && grown(old(builder)@, final(builder)@, n2)
        }),
    decreases expr, 3nat,
{
    last_expr_mut(expr, builder, params, TailMode::Rec)
}

/// Rewrites the arms of a `match`: see `rewrite_arms`.
fn expr_match(expr: ExprMatch, builder: &mut Builder, params: Params) -> (res: (ExprMatch, Result<()>))
    requires
        height(Expr::Match(expr)@) <= usize::MAX,
    ensures
        ({
            let (a2, n2, r) = rewrite_arms(
                view_arms(expr.arms@),
                old(builder)@.ident,
                params.marker.ident@,
                old(builder)@.len(),
                params.rec,
            );
            &&& res.0.attrs == expr.attrs
            &&& res.0.expr == expr.expr
            &&& view_arms(res.0.arms@) == a2
            &&& res.1 == r
            &&& grown(old(builder)@, final(builder)@, n2)
        }),
    decreases expr, 2nat,
{
    let ExprMatch { attrs, expr: scrutinee, arms } = expr;
    let (arms, r) = match_arms(arms, builder, params);
    (ExprMatch { attrs, expr: scrutinee, arms }, r)
}

#[verifier::spinoff_prover]
#[verifier::rlimit(50)]
fn match_arms(arms: Vec<Arm>, builder: &mut Builder, params: Params) -> (res: (Vec<Arm>, Result<()>))
    requires
        crate::spec::height_arms(view_arms(arms@)) <= usize::MAX,
    ensures
        ({
            let (a2, n2, r) = rewrite_arms(
                view_arms(arms@),
                old(builder)@.ident,
                params.marker.ident@,
                old(builder)@.len(),
                params.rec,
            );
            view_arms(res.0@) == a2 && res.1 == r && grown(old(builder)@, final(builder)@, n2)
        }),
    decreases arms@, 2nat,
{
    let ghost v0 = arms@;
    let ghost b0 = builder@;
    if arms.len() == 0 {
        proof {
            lemma_grown_refl(builder@);
        }
        return (arms, Ok(()));
    }
    proof {
        crate::syntax::lemma_view_arms_split(v0);
    }
    let mut arms = arms;
    let a = arms.remove(0);
    assert(arms@ == v0.drop_first());
    let (a, r) = skip(a, builder, params);
    let ghost b1 = builder@;
    match r {
        Err(err) => {
            let ghost r0 = arms@;
            arms.insert(0, a);
            proof {
                crate::syntax::lemma_view_arms_cons(a, r0);
            }
            assert(arms@ == seq![a] + r0);
            (arms, Err(err))
        },
        Ok(true) => {
            let (mut rest, r2) = match_arms(arms, builder, params);
            let ghost r0 = rest@;
            proof {
                lemma_grown_trans(b0, b1, builder@, b1.len(), builder@.len());
                crate::syntax::lemma_view_arms_cons(a, r0);
            }
            rest.insert(0, a);
            assert(rest@ == seq![a] + r0);
            (rest, r2)
        },
        Ok(false) => {
            let Arm { attrs, pat, guard, body, comma: _ } = a;
            let body = builder.next_expr(*body);
            let ghost b2 = builder@;
            let a = Arm { attrs, pat, guard, body: Box::new(body), comma: true };
            let (mut rest, r2) = match_arms(arms, builder, params);
            let ghost r0 = rest@;
            proof {
                lemma_grown_trans(b0, b1, b2, b1.len(), b2.len());
                lemma_grown_trans(b0, b2, builder@, b2.len(), builder@.len());
                crate::syntax::lemma_view_arms_cons(a, r0);
            }
            rest.insert(0, a);
            assert(rest@ == seq![a] + r0);
            (rest, r2)
        },
    }
}

/// Whether an arm is left without a new variant: see `skip_arm`.
fn skip(arm: Arm, builder: &mut Builder, params: Params) -> (res: (Arm, Result<bool>))
    requires
        height(*arm@.body) <= usize::MAX,
    ensures
        ({
            let (a2, n2, r) = skip_arm(
                arm@,
                old(builder)@.ident,
                params.marker.ident@,
                old(builder)@.len(),
                params.rec,
            );
            res.0@ == a2 && res.1 == r && grown(old(builder)@, final(builder)@, n2)
        }),
    decreases arm, 2nat,
{
    if arm.any_empty_attr(NEVER_ATTR) || is_unreachable(&arm.body, builder, &params) {
        proof {
            lemma_grown_refl(builder@);
        }
        return (arm, Ok(true));
    }
    if arm.any_empty_attr(REC_ATTR) || params.rec {
        let Arm { attrs, pat, guard, body, comma } = arm;
        let (body, r) = rec_attr(*body, builder, params);
        (Arm { attrs, pat, guard, body: Box::new(body), comma }, r)
    } else {
        proof {
            lemma_grown_refl(builder@);
        }
        (arm, Ok(false))
    }
}

/// Whether a branch of an `if` is left without a new variant: see
/// `skip_branch`.
fn skip_if_branch(branch: Block, builder: &mut Builder, params: Params) -> (res: (Block, Result<bool>))
    requires
        height_stmts(branch@) <= usize::MAX,
    ensures
        ({
            let (s2, n2, r) = skip_branch(
                branch@,
                old(builder)@.ident,
                params.marker.ident@,
                old(builder)@.len(),
                params.rec,
            );
            res.0@ == s2 && res.1 == r && grown(old(builder)@, final(builder)@, n2)
        }),
    decreases branch, 1nat,
{
    let ghost v0 = branch.stmts@;
    let ghost sv = view_stmts(v0);
    let mut stmts = branch.stmts;
    if stmts.len() == 0 {
        proof {
            lemma_grown_refl(builder@);
        }
        return (Block { stmts }, Ok(true));
    }
    proof {
        lemma_height_stmts_last(sv);
    }
    assert(sv[sv.len() - 1] == view_stmt(v0[v0.len() - 1]));
    let last = stmts.pop().unwrap();
    assert(stmts@ == v0.drop_last());
    match last {
        Stmt::Expr(x) => {
            if is_unreachable(&x, builder, &params) {
                stmts.push(Stmt::Expr(x));
                assert(stmts@ =~= v0);
                proof {
                    lemma_grown_refl(builder@);
                }
                return (Block { stmts }, Ok(true));
            }
            if x.any_empty_attr(REC_ATTR) || params.rec {
                assert(decreases_to!(branch => v0[v0.len() - 1]));
                let (x2, r) = rec_attr(x, builder, params);
                let ghost x2v = x2@;
                stmts.push(Stmt::Expr(x2));
                assert(view_stmts(stmts@) =~= sv.update(sv.len() - 1, StmtView::Expr(x2v)));
                (Block { stmts }, r)
            } else {
                stmts.push(Stmt::Expr(x));
                assert(stmts@ =~= v0);
                proof {
                    lemma_grown_refl(builder@);
                }
                (Block { stmts }, Ok(false))
            }
        },
        other => {
            stmts.push(other);
            assert(stmts@ =~= v0);
            proof {
                lemma_grown_refl(builder@);
            }
            (Block { stmts }, Ok(true))
        },
    }
}

/// `{ s }` as `{ b::V({ s }) }` with the next variant.
fn replace_branch(branch: Block, builder: &mut Builder) -> (r: Block)
    ensures
        r@ == wrapped_branch(branch@, old(builder)@.ident, old(builder)@.len()),
        grown(old(builder)@, final(builder)@, old(builder)@.len() + 1),
{
    let e = builder.next_expr(expr_block(branch));
    let mut stmts: Vec<Stmt> = Vec::new();
    stmts.push(Stmt::Expr(e));
    let r = block(stmts);
    assert(r@ =~= wrapped_branch(branch@, old(builder)@.ident, old(builder)@.len()));
    r
}

/// Rewrites a branch of an `if`: see `rewrite_branch`.
fn if_branch(branch: Block, builder: &mut Builder, params: Params) -> (res: (Block, Result<()>))
    requires
        height_stmts(branch@) <= usize::MAX,
    ensures
        ({
            let (s2, n2, r) = rewrite_branch(
                branch@,
                old(builder)@.ident,
                params.marker.ident@,
                old(builder)@.len(),
                params.rec,
            );
            res.0@ == s2 && res.1 == r && grown(old(builder)@, final(builder)@, n2)
        }),
    decreases branch, 2nat,
{
    let ghost b0 = builder@;
    let (branch, r) = skip_if_branch(branch, builder, params);
    match r {
        Err(err) => (branch, Err(err)),
        Ok(true) => (branch, Ok(())),
        Ok(false) => {
            let ghost b1 = builder@;
            let branch = replace_branch(branch, builder);
            proof {
                lemma_grown_trans(b0, b1, builder@, b1.len(), builder@.len());
            }
            (branch, Ok(()))
        },
    }
}

/// Rewrites the branches of an `if`: see `rewrite_if`.
fn expr_if(expr: ExprIf, builder: &mut Builder, params: Params) -> (res: (ExprIf, Result<()>))
    requires
        height(Expr::If(expr)@) <= usize::MAX,
    ensures
        ({
            let (e2, n2, r) = rewrite_if(
                Expr::If(expr)@,
                old(builder)@.ident,
                params.marker.ident@,
                old(builder)@.len(),
                params.rec,
            );
            Expr::If(res.0)@ == e2 && res.1 == r && grown(old(builder)@, final(builder)@, n2)
        }),
    decreases expr, 2nat,
{
    let ghost b0 = builder@;
    let ghost ev = crate::syntax::view_opt_expr(expr.else_branch);
    assert(height(Expr::If(expr)@) >= 1 + height_opt(ev));
    let ghost av = crate::syntax::attrs_view(expr.attrs@);
    let ghost cv = Box::new((*expr.cond)@);
    let ExprIf { attrs, cond, then_branch, else_branch } = expr;
    let (then_branch, r) = if_branch(then_branch, builder, params);
    let ghost b1 = builder@;
    let ghost tv = then_branch@;
    if let Err(err) = r {
        let res = ExprIf { attrs, cond, then_branch, else_branch };
        assert(Expr::If(res)@ == ExprView::If { attrs: av, cond: cv, then_branch: tv, else_branch: ev });
        return (res, Err(err));
    }
    let (else_branch, r) = if_else(else_branch, builder, params);
    proof {
        lemma_grown_trans(b0, b1, builder@, b1.len(), builder@.len());
    }
    let ghost ev2 = crate::syntax::view_opt_expr(else_branch);
    let res = ExprIf { attrs, cond, then_branch, else_branch };
    assert(Expr::If(res)@ == ExprView::If { attrs: av, cond: cv, then_branch: tv, else_branch: ev2 });
    (res, r)
}

/// Rewrites what follows the `else` of an `if`: see `rewrite_else`.
fn if_else(else_branch: Option<Box<Expr>>, builder: &mut Builder, params: Params) -> (res: (
    Option<Box<Expr>>,
    Result<()>,
))
    requires
        height_opt(crate::syntax::view_opt_expr(else_branch)) <= usize::MAX,
    ensures
        ({
            let (e2, n2, r) = crate::spec::rewrite_else(
                crate::syntax::view_opt_expr(else_branch),
                old(builder)@.ident,
                params.marker.ident@,
                old(builder)@.len(),
                params.rec,
            );
            crate::syntax::view_opt_expr(res.0) == e2 && res.1 == r && grown(
                old(builder)@,
                final(builder)@,
                n2,
            )
        }),
    decreases else_branch, 2nat,
{
    match else_branch {
        None => {
            proof {
                lemma_grown_refl(builder@);
            }
            (None, Err(Error::MissingElse))
        },
        Some(x) => match *x {
            Expr::Block(eb) => {
                assert(height(Expr::Block(eb)@) == 1 + height_stmts(eb.block@));
                let ghost bav = crate::syntax::attrs_view(eb.attrs@);
                let ghost blv = label_view(eb.label);
                let ExprBlock { attrs, label, block } = eb;
                let (block, r) = if_branch(block, builder, params);
                let ghost sv = block@;
                let e = Expr::Block(ExprBlock { attrs, label, block });
                assert(e@ == ExprView::Block { attrs: bav, label: blv, stmts: sv });
                let ghost e_v = e@;
                let res = Some(Box::new(e));
                assert(crate::syntax::view_opt_expr(res) == Some(Box::new(e_v)));
                (res, r)
            },
            Expr::If(ei) => {
                let (ei, r) = expr_if(ei, builder, params);
                let e = Expr::If(ei);
                let ghost e_v = e@;
                let res = Some(Box::new(e));
                assert(crate::syntax::view_opt_expr(res) == Some(Box::new(e_v)));
                (res, r)
            },
            other => {
                assert(!(other@ is Block) && !(other@ is If));
                proof {
                    lemma_grown_refl(builder@);
                }
                (Some(Box::new(other)), Err(Error::ElseNotBlockOrIf))
            },
        },
    }
}

/// Rewrites the `break`s that leave a `loop`: see `spec_visit_stmts`.
fn expr_loop(expr: ExprLoop, builder: &mut Builder, params: Params) -> (r: ExprLoop)
    requires
        height(Expr::Loop(expr)@) <= usize::MAX,
    ensures
        ({
            let (body2, n2) = spec_visit_stmts(
                expr.body@,
                label_view(expr.label),
                0,
                old(builder)@.ident,
                params.marker.ident@,
                old(builder)@.len(),
            );
            &&& r.attrs == expr.attrs
            &&& label_view(r.label) == label_view(expr.label)
            &&& r.body@ == body2
            &&& grown(old(builder)@, final(builder)@, n2)
        }),
{
    let mut lent = Builder::placeholder();
    std::mem::swap(builder, &mut lent);
    let mut visitor = LoopVisitor::new(params.marker, &expr, lent);
    let ExprLoop { attrs, label, body } = expr;
    let mut body = body;
    visitor.visit_block_mut(&mut body);
    std::mem::swap(builder, &mut visitor.builder);
    ExprLoop { attrs, label, body }
}

// ---------------------------------------------------------------------------
// `break` inside `loop`
// ---------------------------------------------------------------------------
/// Walks the body of a loop and wraps the value of each `break` that leaves
/// it.
struct LoopVisitor<'a> {
    marker: &'a Marker,
    builder: Builder,
    /// How many loops, inside the loop that is rewritten, enclose the place
    /// being walked.
    depth: usize,
    label: Option<Lifetime>,
}

/// A walk that started from `old` ended in `new` with `n` variants handed out.
spec fn visited(old: LoopVisitor, new: LoopVisitor, n: nat) -> bool {
    &&& new.marker == old.marker
    &&& new.depth == old.depth
    &&& label_view(new.label) == label_view(old.label)
    &&& grown(old.builder@, new.builder@, n)
}

impl<'a> LoopVisitor<'a> {
    spec fn label_v(&self) -> Option<Seq<char>> {
        label_view(self.label)
    }

    spec fn ident_v(&self) -> Seq<char> {
        self.builder@.ident
    }

    spec fn marker_v(&self) -> Seq<char> {
        self.marker.ident@
    }

    spec fn n_v(&self) -> nat {
        self.builder@.len()
    }

    /// A walk of the body of `expr`, with the builder of the enum.
    fn new(marker: &'a Marker, expr: &ExprLoop, builder: Builder) -> (r: Self)
        ensures
            r.marker == marker,
            r.builder == builder,
            r.depth == 0,
            label_view(r.label) == label_view(expr.label),
    {
        let label = match &expr.label {
            Some(l) => Some(Lifetime { ident: l.ident.clone() }),
            None => None,
        };
        LoopVisitor { marker, builder, depth: 0, label }
    }

    /// Whether `other` is the label of the loop.
    fn label_eq(&self, other: &Option<Lifetime>) -> (r: bool)
        ensures
            r == spec_label_eq(label_view(self.label), label_view(*other)),
    {
        match (&self.label, other) {
            (None, None) => true,
            (Some(x), Some(y)) => x.ident == y.ident,
            _ => false,
        }
    }

    /// Walks a nested loop, one level deeper, where the loop has a label;
    /// leaves it as it is where the loop has none.
    #[verifier::spinoff_prover]
    fn loop_bounds(&mut self, expr: Expr) -> (r: Expr)
        requires
            expr is Loop || expr is ForLoop || expr is While,
            !crate::syntax::has_empty_attr(crate::syntax::expr_attrs(expr@), NEVER_ATTR@),
            old(self).depth + height(expr@) <= usize::MAX,
        ensures
            ({
                let (e2, n2) = spec_visit_expr(
                    expr@,
                    old(self).label_v(),
                    old(self).depth as nat,
                    old(self).ident_v(),
                    old(self).marker_v(),
                    old(self).n_v(),
                );
                r@ == e2 && visited(*old(self), *final(self), n2)
            }),
        decreases expr, 0nat,
    {
        if self.label.is_none() {
            proof {
                lemma_grown_refl(self.builder@);
            }
            return expr;
        }
        self.depth = self.depth + 1;
        let r = match expr {
            Expr::Loop(x) => Expr::Loop(self.walk_loop(x)),
            Expr::ForLoop(x) => Expr::ForLoop(self.walk_for_loop(x)),
            Expr::While(x) => Expr::While(self.walk_while(x)),
            other => other,
        };
        self.depth = self.depth - 1;
        r
    }

    fn walk_loop(&mut self, x: ExprLoop) -> (r: ExprLoop)
        requires
            old(self).depth + height(Expr::Loop(x)@) <= usize::MAX + 1,
        ensures
            ({
                let (s2, n2) = spec_visit_stmts(
                    view_stmts(x.body.stmts@),
                    old(self).label_v(),
                    old(self).depth as nat,
                    old(self).ident_v(),
                    old(self).marker_v(),
                    old(self).n_v(),
                );
                Expr::Loop(r)@ == (ExprView::Loop {
                    attrs: crate::syntax::attrs_view(x.attrs@),
                    label: label_view(x.label),
                    body: s2,
                }) && visited(*old(self), *final(self), n2)
            }),
        decreases x, 0nat,
    {
        let ExprLoop { attrs, label, body } = x;
        let stmts = self.visit_stmts(body.stmts);
        ExprLoop { attrs, label, body: Block { stmts } }
    }

    fn walk_for_loop(&mut self, x: ExprForLoop) -> (r: ExprForLoop)
        requires
            old(self).depth + height(Expr::ForLoop(x)@) <= usize::MAX + 1,
        ensures
            ({
                let l = old(self).label_v();
                let d = old(self).depth as nat;
                let b = old(self).ident_v();
                let m = old(self).marker_v();
                let (x2, n1) = spec_visit_expr((*x.expr)@, l, d, b, m, old(self).n_v());
                let (s2, n2) = spec_visit_stmts(view_stmts(x.body.stmts@), l, d, b, m, n1);
                Expr::ForLoop(r)@ == (ExprView::ForLoop {
                    attrs: crate::syntax::attrs_view(x.attrs@),
                    label: label_view(x.label),
                    pat: x.pat@,
                    expr: Box::new(x2),
                    body: s2,
                }) && visited(*old(self), *final(self), n2)
            }),
        decreases x, 0nat,
    {
        let ghost s0 = *self;
        let ExprForLoop { attrs, label, pat, expr, body } = x;
        let expr = self.visit_expr(*expr);
        let ghost s1 = *self;
        let stmts = self.visit_stmts(body.stmts);
        proof {
            lemma_grown_trans(s0.builder@, s1.builder@, self.builder@, s1.n_v(), self.n_v());
        }
        ExprForLoop { attrs, label, pat, expr: Box::new(expr), body: Block { stmts } }
    }

    fn walk_while(&mut self, x: ExprWhile) -> (r: ExprWhile)
        requires
            old(self).depth + height(Expr::While(x)@) <= usize::MAX + 1,
        ensures
            ({
                let l = old(self).label_v();
                let d = old(self).depth as nat;
                let b = old(self).ident_v();
                let m = old(self).marker_v();
                let (c2, n1) = spec_visit_expr((*x.cond)@, l, d, b, m, old(self).n_v());
                let (s2, n2) = spec_visit_stmts(view_stmts(x.body.stmts@), l, d, b, m, n1);
                Expr::While(r)@ == (ExprView::While {
                    attrs: crate::syntax::attrs_view(x.attrs@),
                    label: label_view(x.label),
                    cond: Box::new(c2),
                    body: s2,
                }) && visited(*old(self), *final(self), n2)
            }),
        decreases x, 0nat,
    {
        let ghost s0 = *self;
        let ExprWhile { attrs, label, cond, body } = x;
        let cond = self.visit_expr(*cond);
        let ghost s1 = *self;
        let stmts = self.visit_stmts(body.stmts);
        proof {
            lemma_grown_trans(s0.builder@, s1.builder@, self.builder@, s1.n_v(), self.n_v());
        }
        ExprWhile { attrs, label, cond: Box::new(cond), body: Block { stmts } }
    }

    /// A `break`: see `spec_visit_expr`.
    #[verifier::spinoff_prover]
    fn visit_break(&mut self, br: ExprBreak) -> (r: Expr)
        requires
            !crate::syntax::has_empty_attr(crate::syntax::expr_attrs(Expr::Break(br)@), NEVER_ATTR@),
            old(self).depth + height(Expr::Break(br)@) <= usize::MAX,
        ensures
            ({
                let (e2, n2) = spec_visit_expr(
                    Expr::Break(br)@,
                    old(self).label_v(),
                    old(self).depth as nat,
                    old(self).ident_v(),
                    old(self).marker_v(),
                    old(self).n_v(),
                );
                r@ == e2 && visited(*old(self), *final(self), n2)
            }),
        decreases br, 0nat,
    {
        let ghost s0 = *self;
        let ghost e0 = Expr::Break(br)@;
        let ghost av = crate::syntax::attrs_view(br.attrs@);
        let ghost lv = label_view(br.label);
        let ghost xv = crate::syntax::view_opt_expr(br.expr);
        assert(e0 == ExprView::Break { attrs: av, label: lv, expr: xv });
        assert(height(e0) == 1 + height_opt(xv));
        let ExprBreak { attrs, label, expr } = br;
        let out = (self.depth == 0 && label.is_none()) || self.label_eq(&label);
        assert(out == crate::spec::breaks_out(s0.label_v(), s0.depth as nat, lv));
        if out {
            let value = match expr {
                None => {
                    let p = self.builder.next_path();
                    let u = unit();
                    let mut no_attrs: Vec<crate::syntax::Attribute> = Vec::new();
                    assert(crate::syntax::attrs_view(no_attrs@) =~= Seq::<crate::syntax::AttrView>::empty());
                    let r = expr_call(no_attrs, p, u);
                    assert(r@ == crate::context::wrap(crate::syntax::view_unit(), s0.ident_v(), s0.n_v()));
                    r
                },
                Some(x) => {
                    let inner = *x;
                    assert(xv == Some(Box::new(inner@)));
                    assert(height(inner@) < height(e0));
                    let is_marker = match &inner {
                        Expr::Macro(m) => self.marker.marker_macro(&m.mac),
                        _ => false,
                    };
                    assert(is_marker == (inner@ matches ExprView::Macro { path, .. } && crate::syntax::path_is_ident(path, s0.marker_v())));
                    if is_marker {
                        proof {
                            lemma_grown_refl(self.builder@);
                        }
                        inner
                    } else {
                        let p = self.builder.next_path();
                        let ghost s1 = *self;
                        let v = self.visit_expr(inner);
                        proof {
                            lemma_grown_trans(s0.builder@, s1.builder@, self.builder@, s1.n_v(), self.n_v());
                        }
                        let no_attrs: Vec<crate::syntax::Attribute> = Vec::new();
                        assert(crate::syntax::attrs_view(no_attrs@) =~= Seq::<crate::syntax::AttrView>::empty());
                        let r = expr_call(no_attrs, p, v);
                        assert(r@ == crate::context::wrap(
                            spec_visit_expr(inner@, s0.label_v(), s0.depth as nat, s0.ident_v(), s0.marker_v(), s0.n_v() + 1).0,
                            s0.ident_v(),
                            s0.n_v(),
                        ));
                        r
                    }
                },
            };
            let ghost vv = value@;
            let value = Some(Box::new(value));
            assert(crate::syntax::view_opt_expr(value) == Some(Box::new(vv)));
            let r = Expr::Break(ExprBreak { attrs, label, expr: value });
            assert(r@ == ExprView::Break { attrs: av, label: lv, expr: Some(Box::new(vv)) });
            r
        } else {
            let expr = self.visit_opt(expr);
            Expr::Break(ExprBreak { attrs, label, expr })
        }
    }

    /// Walks an expression: see `spec_visit_expr`.
    #[verifier::spinoff_prover]
    #[verifier::rlimit(50)]
    fn visit_expr(&mut self, expr: Expr) -> (r: Expr)
        requires
            old(self).depth + height(expr@) <= usize::MAX,
        ensures
            ({
                let (e2, n2) = spec_visit_expr(
                    expr@,
                    old(self).label_v(),
                    old(self).depth as nat,
                    old(self).ident_v(),
                    old(self).marker_v(),
                    old(self).n_v(),
                );
                r@ == e2 && visited(*old(self), *final(self), n2)
            }),
        decreases expr, 1nat,
    {
        let ghost s0 = *self;
        if expr.any_empty_attr(NEVER_ATTR) {
            proof {
                lemma_grown_refl(self.builder@);
            }
            return expr;
        }
        match expr {
            Expr::Closure(x) => {
                proof {
                    lemma_grown_refl(self.builder@);
                }
                Expr::Closure(x)
            },
            Expr::Loop(x) => self.loop_bounds(Expr::Loop(x)),
            Expr::ForLoop(x) => self.loop_bounds(Expr::ForLoop(x)),
            Expr::While(x) => self.loop_bounds(Expr::While(x)),
            Expr::Break(br) => self.visit_break(br),
            Expr::Block(x) => {
                let ExprBlock { attrs, label, block } = x;
                let stmts = self.visit_stmts(block.stmts);
                Expr::Block(ExprBlock { attrs, label, block: Block { stmts } })
            },
            Expr::Unsafe(x) => {
                let ExprUnsafe { attrs, block } = x;
                let stmts = self.visit_stmts(block.stmts);
                Expr::Unsafe(ExprUnsafe { attrs, block: Block { stmts } })
            },
            Expr::Match(x) => {
                let ExprMatch { attrs, expr, arms } = x;
                let expr = self.visit_expr(*expr);
                let ghost s1 = *self;
                let arms = self.visit_arms(arms);
                proof {
                    lemma_grown_trans(s0.builder@, s1.builder@, self.builder@, s1.n_v(), self.n_v());
                }
                Expr::Match(ExprMatch { attrs, expr: Box::new(expr), arms })
            },
            Expr::If(x) => {
                let ExprIf { attrs, cond, then_branch, else_branch } = x;
                let cond = self.visit_expr(*cond);
                let ghost s1 = *self;
                let stmts = self.visit_stmts(then_branch.stmts);
                let ghost s2 = *self;
                let else_branch = self.visit_opt(else_branch);
                proof {
                    lemma_grown_trans(s0.builder@, s1.builder@, s2.builder@, s1.n_v(), s2.n_v());
                    lemma_grown_trans(s0.builder@, s2.builder@, self.builder@, s2.n_v(), self.n_v());
                }
                Expr::If(ExprIf { attrs, cond: Box::new(cond), then_branch: Block { stmts }, else_branch })
            },
            Expr::Return(x) => {
                let ExprReturn { attrs, expr } = x;
                let expr = self.visit_opt(expr);
                Expr::Return(ExprReturn { attrs, expr })
            },
            Expr::Call(x) => {
                let ExprCall { attrs, func, args } = x;
                let func = self.visit_expr(*func);
                let ghost s1 = *self;
                let args = self.visit_exprs(args);
                proof {
                    lemma_grown_trans(s0.builder@, s1.builder@, self.builder@, s1.n_v(), self.n_v());
                }
                Expr::Call(ExprCall { attrs, func: Box::new(func), args })
            },
            Expr::MethodCall(x) => {
                let ExprMethodCall { attrs, receiver, method, args } = x;
                let receiver = self.visit_expr(*receiver);
                let ghost s1 = *self;
                let args = self.visit_exprs(args);
                proof {
                    lemma_grown_trans(s0.builder@, s1.builder@, self.builder@, s1.n_v(), self.n_v());
                }
                Expr::MethodCall(ExprMethodCall { attrs, receiver: Box::new(receiver), method, args })
            },
            Expr::Try(x) => {
                let ExprTry { attrs, expr } = x;
                let expr = self.visit_expr(*expr);
                Expr::Try(ExprTry { attrs, expr: Box::new(expr) })
            },
            Expr::Other(x) => {
                let ExprOther { attrs, kind, tokens, children } = x;
                let children = self.visit_exprs(children);
                Expr::Other(ExprOther { attrs, kind, tokens, children })
            },
            other => {
                proof {
                    lemma_grown_refl(self.builder@);
                }
                other
            },
        }
    }

    fn visit_opt(&mut self, expr: Option<Box<Expr>>) -> (r: Option<Box<Expr>>)
        requires
            old(self).depth + height_opt(crate::syntax::view_opt_expr(expr)) <= usize::MAX,
        ensures
            ({
                let (e2, n2) = spec_visit_opt(
                    crate::syntax::view_opt_expr(expr),
                    old(self).label_v(),
                    old(self).depth as nat,
                    old(self).ident_v(),
                    old(self).marker_v(),
                    old(self).n_v(),
                );
                crate::syntax::view_opt_expr(r) == e2 && visited(*old(self), *final(self), n2)
            }),
        decreases expr, 1nat,
    {
        match expr {
            Some(x) => Some(Box::new(self.visit_expr(*x))),
            None => {
                proof {
                    lemma_grown_refl(self.builder@);
                }
                None
            },
        }
    }

    fn visit_exprs(&mut self, v: Vec<Expr>) -> (r: Vec<Expr>)
        requires
            old(self).depth + height_exprs(view_exprs(v@)) <= usize::MAX,
        ensures
            ({
                let (e2, n2) = spec_visit_exprs(
                    view_exprs(v@),
                    old(self).label_v(),
                    old(self).depth as nat,
                    old(self).ident_v(),
                    old(self).marker_v(),
                    old(self).n_v(),
                );
                view_exprs(r@) == e2 && visited(*old(self), *final(self), n2)
            }),
        decreases v@, 1nat,
    {
        let ghost v0 = v@;
        let ghost s0 = *self;
        if v.len() == 0 {
            proof {
                lemma_grown_refl(self.builder@);
            }
            return v;
        }
        proof {
            crate::syntax::lemma_view_exprs_split(v0);
        }
        let mut v = v;
        let x = v.remove(0);
        assert(v@ == v0.drop_first());
        let x2 = self.visit_expr(x);
        let ghost s1 = *self;
        let mut rest = self.visit_exprs(v);
        let ghost r0 = rest@;
        proof {
            lemma_grown_trans(s0.builder@, s1.builder@, self.builder@, s1.n_v(), self.n_v());
            crate::syntax::lemma_view_exprs_cons(x2, r0);
        }
        rest.insert(0, x2);
        assert(rest@ == seq![x2] + r0);
        rest
    }

    fn visit_stmt(&mut self, s: Stmt) -> (r: Stmt)
        requires
            old(self).depth + height_stmt(s@) <= usize::MAX,
        ensures
            ({
                let (e2, n2) = spec_visit_stmt(
                    s@,
                    old(self).label_v(),
                    old(self).depth as nat,
                    old(self).ident_v(),
                    old(self).marker_v(),
                    old(self).n_v(),
                );
                r@ == e2 && visited(*old(self), *final(self), n2)
            }),
        decreases s, 1nat,
    {
        match s {
            Stmt::Local(l) => {
                let Local { attrs, pat, init } = l;
                let init = self.visit_opt(init);
                Stmt::Local(Local { attrs, pat, init })
            },
            Stmt::Item(mut i) => {
                self.visit_item_mut(&mut i);
                proof {
                    lemma_grown_refl(self.builder@);
                }
                Stmt::Item(i)
            },
            Stmt::Expr(mut x) => {
                self.visit_expr_mut(&mut x);
                Stmt::Expr(x)
            },
            Stmt::Semi(mut x) => {
                self.visit_expr_mut(&mut x);
                Stmt::Semi(x)
            },
        }
    }

    fn visit_stmts(&mut self, v: Vec<Stmt>) -> (r: Vec<Stmt>)
        requires
            old(self).depth + height_stmts(view_stmts(v@)) <= usize::MAX,
        ensures
            ({
                let (e2, n2) = spec_visit_stmts(
                    view_stmts(v@),
                    old(self).label_v(),
                    old(self).depth as nat,
                    old(self).ident_v(),
                    old(self).marker_v(),
                    old(self).n_v(),
                );
                view_stmts(r@) == e2 && visited(*old(self), *final(self), n2)
            }),
        decreases v@, 1nat,
    {
        let ghost v0 = v@;
        let ghost s0 = *self;
        if v.len() == 0 {
            proof {
                lemma_grown_refl(self.builder@);
            }
            return v;
        }
        proof {
            crate::syntax::lemma_view_stmts_split(v0);
        }
        let mut v = v;
        let x = v.remove(0);
        assert(v@ == v0.drop_first());
        let x2 = self.visit_stmt(x);
        let ghost s1 = *self;
        let mut rest = self.visit_stmts(v);
        let ghost r0 = rest@;
        proof {
            lemma_grown_trans(s0.builder@, s1.builder@, self.builder@, s1.n_v(), self.n_v());
            crate::syntax::lemma_view_stmts_cons(x2, r0);
        }
        rest.insert(0, x2);
        assert(rest@ == seq![x2] + r0);
        rest
    }

    fn visit_arms(&mut self, v: Vec<Arm>) -> (r: Vec<Arm>)
        requires
            old(self).depth + height_arms(view_arms(v@)) <= usize::MAX,
        ensures
            ({
                let (e2, n2) = spec_visit_arms(
                    view_arms(v@),
                    old(self).label_v(),
                    old(self).depth as nat,
                    old(self).ident_v(),
                    old(self).marker_v(),
                    old(self).n_v(),
                );
                view_arms(r@) == e2 && visited(*old(self), *final(self), n2)
            }),
        decreases v@, 1nat,
    {
        let ghost v0 = v@;
        let ghost s0 = *self;
        if v.len() == 0 {
            proof {
                lemma_grown_refl(self.builder@);
            }
            return v;
        }
        proof {
            crate::syntax::lemma_view_arms_split(v0);
        }
        let mut v = v;
        let a = v.remove(0);
        assert(v@ == v0.drop_first());
        let Arm { attrs, pat, guard, body, comma } = a;
        let guard = self.visit_opt(guard);
        let ghost s1 = *self;
        let body = self.visit_expr(*body);
        let ghost s2 = *self;
        let a2 = Arm { attrs, pat, guard, body: Box::new(body), comma };
        let mut rest = self.visit_arms(v);
        let ghost r0 = rest@;
        proof {
            lemma_grown_trans(s0.builder@, s1.builder@, s2.builder@, s1.n_v(), s2.n_v());
            lemma_grown_trans(s0.builder@, s2.builder@, self.builder@, s2.n_v(), self.n_v());
            crate::syntax::lemma_view_arms_cons(a2, r0);
        }
        rest.insert(0, a2);
        assert(rest@ == seq![a2] + r0);
        rest
    }

    /// Walks an expression in place.
    fn visit_expr_mut(&mut self, expr: &mut Expr)
        requires
            old(self).depth + height(old(expr)@) <= usize::MAX,
        ensures
            ({
                let (e2, n2) = spec_visit_expr(
                    old(expr)@,
                    old(self).label_v(),
                    old(self).depth as nat,
                    old(self).ident_v(),
                    old(self).marker_v(),
                    old(self).n_v(),
                );
                final(expr)@ == e2 && visited(*old(self), *final(self), n2)
            }),
        decreases *old(expr), 2nat,
    {
        let mut e = unit();
        std::mem::swap(expr, &mut e);
        *expr = self.visit_expr(e);
    }

    /// Walks the statements of a block in place.
    fn visit_block_mut(&mut self, block: &mut Block)
        requires
            old(self).depth + height_stmts(old(block)@) <= usize::MAX,
        ensures
            ({
                let (s2, n2) = spec_visit_stmts(
                    old(block)@,
                    old(self).label_v(),
                    old(self).depth as nat,
                    old(self).ident_v(),
                    old(self).marker_v(),
                    old(self).n_v(),
                );
                final(block)@ == s2 && visited(*old(self), *final(self), n2)
            }),
    {
        let mut stmts: Vec<Stmt> = Vec::new();
        std::mem::swap(&mut block.stmts, &mut stmts);
        block.stmts = self.visit_stmts(stmts);
    }

    /// Items are not walked into.
    fn visit_item_mut(&mut self, item: &mut Item)
        ensures
            *final(self) == *old(self),
            *final(item) == *old(item),
    {
    }
}

} // verus!
