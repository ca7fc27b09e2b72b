//! The branches that `#[auto_enum]` rewrites, on the expressions of the
//! attribute's own examples. Each rewritten expression is then run by a small
//! evaluator over the syntax tree, which follows the branch that a value of
//! the scrutinee takes and records each variant that the value is wrapped in.

use auto_enumerate::context::{Builder, Marker, Params};
use auto_enumerate::expr::child_expr;
use auto_enumerate::syntax::{
    Arm, Attribute, Block, Expr, ExprBlock, ExprBreak, ExprCall, ExprClosure, ExprContinue, ExprIf,
    ExprLoop, ExprMacro, ExprMatch, ExprMethodCall, ExprOther, ExprPath, ExprReturn, ExprUnsafe,
    Local, Macro, Path, PathSegment, Stmt,
};
use auto_enumerate::utils::ident_call_site;
use std::collections::HashMap;

// ---------------------------------------------------------------------------
// Building trees
// ---------------------------------------------------------------------------
fn ident_path(name: &str) -> Path {
    Path {
        leading_colon: false,
        segments: vec![PathSegment { ident: name.to_string(), arguments: false }],
    }
}

fn attr(name: &str) -> Attribute {
    Attribute { path: ident_path(name), tokens: String::new() }
}

fn other(kind: &str, tokens: &str) -> Expr {
    Expr::Other(ExprOther {
        attrs: vec![],
        kind: kind.to_string(),
        tokens: tokens.to_string(),
        children: vec![],
    })
}

fn range(tokens: &str) -> Expr {
    other("range", tokens)
}

fn paren(e: Expr) -> Expr {
    Expr::Other(ExprOther {
        attrs: vec![],
        kind: "paren".to_string(),
        tokens: String::new(),
        children: vec![e],
    })
}

fn mac_with(attrs: Vec<Attribute>, name: &str, tokens: &str) -> Expr {
    Expr::Macro(ExprMacro {
        attrs,
        mac: Macro { path: ident_path(name), tokens: tokens.to_string() },
    })
}

fn mac(name: &str, tokens: &str) -> Expr {
    mac_with(vec![], name, tokens)
}

fn method(receiver: Expr, name: &str, args: Vec<Expr>) -> Expr {
    Expr::MethodCall(ExprMethodCall {
        attrs: vec![],
        receiver: Box::new(receiver),
        method: name.to_string(),
        args,
    })
}

fn vec_iter(tokens: &str) -> Expr {
    method(mac("vec", tokens), "into_iter", vec![])
}

fn closure(param: &str, body: &str) -> Expr {
    Expr::Closure(ExprClosure {
        attrs: vec![],
        inputs: param.to_string(),
        body: Box::new(other("binary", body)),
    })
}

fn arm_full(attrs: Vec<Attribute>, pat: &str, guard: Option<Expr>, body: Expr) -> Arm {
    Arm { attrs, pat: pat.to_string(), guard: guard.map(Box::new), body: Box::new(body), comma: true }
}

fn arm(pat: &str, body: Expr) -> Arm {
    arm_full(vec![], pat, None, body)
}

fn never_arm(pat: &str, body: Expr) -> Arm {
    arm_full(vec![attr("never")], pat, None, body)
}

fn match_with(attrs: Vec<Attribute>, scrutinee: &str, arms: Vec<Arm>) -> Expr {
    Expr::Match(ExprMatch { attrs, expr: Box::new(other("path", scrutinee)), arms })
}

fn match_(scrutinee: &str, arms: Vec<Arm>) -> Expr {
    match_with(vec![], scrutinee, arms)
}

fn block_of(stmts: Vec<Stmt>) -> Block {
    Block { stmts }
}

fn block_expr(stmts: Vec<Stmt>) -> Expr {
    Expr::Block(ExprBlock { attrs: vec![], label: None, block: block_of(stmts) })
}

fn if_(cond: &str, then_branch: Vec<Stmt>, else_branch: Option<Expr>) -> Expr {
    Expr::If(ExprIf {
        attrs: vec![],
        cond: Box::new(other("binary", cond)),
        then_branch: block_of(then_branch),
        else_branch: else_branch.map(Box::new),
    })
}

fn loop_panic(attrs: Vec<Attribute>) -> Expr {
    Expr::Loop(ExprLoop {
        attrs,
        label: None,
        body: block_of(vec![Stmt::Semi(mac("panic", ""))]),
    })
}

fn break_() -> Expr {
    Expr::Break(ExprBreak { attrs: vec![], label: None, expr: None })
}

fn continue_() -> Expr {
    Expr::Continue(ExprContinue { attrs: vec![], label: None })
}

fn break_with(e: Expr) -> Expr {
    Expr::Break(ExprBreak { attrs: vec![], label: None, expr: Some(Box::new(e)) })
}

fn unsafe_(e: Expr) -> Expr {
    Expr::Unsafe(ExprUnsafe { attrs: vec![], block: block_of(vec![Stmt::Expr(e)]) })
}

fn wrap_block(e: Expr) -> Expr {
    block_expr(vec![Stmt::Expr(e)])
}

fn path_expr(name: &str) -> Expr {
    Expr::Path(ExprPath { attrs: vec![], qself: None, path: ident_path(name) })
}

fn call(name: &str, arg: Expr) -> Expr {
    Expr::Call(ExprCall { attrs: vec![], func: Box::new(path_expr(name)), args: vec![arg] })
}

fn local(pat: &str, init: Option<Expr>) -> Stmt {
    Stmt::Local(Local { attrs: vec![], pat: pat.to_string(), init: init.map(Box::new) })
}

fn assign(name: &str, value: Expr) -> Expr {
    Expr::Other(ExprOther {
        attrs: vec![],
        kind: "assign".to_string(),
        tokens: "=".to_string(),
        children: vec![other("path", name), value],
    })
}

fn return_(expr: Option<Expr>) -> Expr {
    Expr::Return(ExprReturn { attrs: vec![], expr: expr.map(Box::new) })
}

// ---------------------------------------------------------------------------
// Running trees
// ---------------------------------------------------------------------------
#[derive(Clone, Debug, PartialEq)]
enum Val {
    Int(i64),
    Items(Vec<i32>),
    Fun(String, String),
    Present(Box<Val>),
    Absent,
    Unit,
}

enum Flow {
    Value(Val),
    Return(Val),
    Break(Val),
    Diverges,
}

type Env = HashMap<String, Val>;

fn as_int(v: &Val) -> i64 {
    match v {
        Val::Int(n) => *n,
        other => panic!("not an integer: {:?}", other),
    }
}

fn numbers(text: &str) -> Vec<i32> {
    text.split(',').map(|n| n.trim()).filter(|n| !n.is_empty()).map(|n| n.parse().unwrap()).collect()
}

/// A number, a variable, or either followed by `as _`.
fn term(text: &str, env: &Env) -> i64 {
    let t = text.trim().trim_end_matches("as _").trim();
    match t.parse::<i64>() {
        Ok(n) => n,
        Err(_) => as_int(env.get(t).unwrap_or_else(|| panic!("unbound {}", t))),
    }
}

/// The value of an expression kept as text: a range, `vec![..].into_iter()`,
/// `a + b`, `a - b`, a number, a variable or `None`.
fn value_of_text(text: &str, env: &Env) -> Val {
    let t = text.trim();
    let t = t.strip_prefix('(').and_then(|s| s.strip_suffix(')')).unwrap_or(t);
    if let Some(inner) = t.strip_prefix("vec![").and_then(|s| s.strip_suffix("].into_iter()")) {
        return Val::Items(numbers(inner));
    }
    if let Some((a, b)) = t.split_once("..=") {
        return Val::Items((term(a, env) as i32..=term(b, env) as i32).collect());
    }
    if let Some((a, b)) = t.split_once("..") {
        return Val::Items((term(a, env) as i32..term(b, env) as i32).collect());
    }
    let parts: Vec<&str> = t.split_whitespace().collect();
    if parts.len() == 3 && (parts[1] == "+" || parts[1] == "-") {
        let (a, b) = (term(parts[0], env), term(parts[2], env));
        return Val::Int(if parts[1] == "+" { a + b } else { a - b });
    }
    if t == "None" {
        return Val::Absent;
    }
    if let Some(v) = env.get(t) {
        return v.clone();
    }
    Val::Int(t.parse().unwrap_or_else(|_| panic!("cannot evaluate {}", t)))
}

/// `a op b` or `a % k op b`, or a variable that holds a non-zero number.
fn holds(cond: &str, env: &Env) -> bool {
    let parts: Vec<&str> = cond.split_whitespace().collect();
    let (lhs, op, rhs) = match parts.len() {
        1 => return term(parts[0], env) != 0,
        3 => (term(parts[0], env), parts[1], term(parts[2], env)),
        5 if parts[1] == "%" => (term(parts[0], env) % term(parts[2], env), parts[3], term(parts[4], env)),
        _ => panic!("condition {}", cond),
    };
    match op {
        "==" => lhs == rhs,
        ">" => lhs > rhs,
        "<" => lhs < rhs,
        op => panic!("operator {}", op),
    }
}

/// Whether `pat` matches `v`; an identifier matches anything and is bound.
fn pattern_matches(pat: &str, v: i64, env: &mut Env) -> bool {
    if pat == "_" {
        return true;
    }
    if pat.chars().next().map_or(false, |c| c.is_ascii_alphabetic()) {
        env.insert(pat.to_string(), Val::Int(v));
        return true;
    }
    if let Some((a, b)) = pat.split_once("..=") {
        let (a, b): (i64, i64) = (a.parse().unwrap(), b.parse().unwrap());
        return a <= v && v <= b;
    }
    pat.parse::<i64>().unwrap() == v
}

fn cond_holds(e: &Expr, env: &Env) -> bool {
    match e {
        Expr::Other(o) => holds(&o.tokens, env),
        _ => panic!("condition"),
    }
}

fn param(inputs: &str) -> String {
    inputs.trim_matches(|c: char| c == '|' || c.is_whitespace()).to_string()
}

/// Applies the closure `f` to `x`.
fn call_closure(f: &Expr, x: Val, env: &Env, trace: &mut Vec<String>) -> Val {
    match f {
        Expr::Closure(c) => {
            let mut inner = env.clone();
            inner.insert(param(&c.inputs), x);
            match eval(&c.body, &mut inner, trace) {
                Flow::Value(v) => v,
                _ => panic!("closure body"),
            }
        }
        _ => panic!("not a closure"),
    }
}

fn eval_block(block: &Block, env: &mut Env, trace: &mut Vec<String>) -> Flow {
    let mut last = Val::Unit;
    for stmt in &block.stmts {
        let (e, is_tail) = match stmt {
            Stmt::Expr(e) => (e, true),
            Stmt::Semi(e) => (e, false),
            Stmt::Local(l) => {
                if let Some(init) = &l.init {
                    match eval(init, env, trace) {
                        Flow::Value(v) => {
                            env.insert(l.pat.clone(), v);
                        }
                        flow => return flow,
                    }
                }
                last = Val::Unit;
                continue;
            }
            Stmt::Item(_) => continue,
        };
        match eval(e, env, trace) {
            Flow::Value(x) => last = if is_tail { x } else { Val::Unit },
            flow => return flow,
        }
    }
    Flow::Value(last)
}

fn eval(e: &Expr, env: &mut Env, trace: &mut Vec<String>) -> Flow {
    match e {
        Expr::Block(b) => eval_block(&b.block, env, trace),
        Expr::Unsafe(b) => eval_block(&b.block, env, trace),
        Expr::Match(m) => {
            let v = match eval(&m.expr, env, trace) {
                Flow::Value(v) => as_int(&v),
                _ => panic!("scrutinee"),
            };
            for a in &m.arms {
                if !pattern_matches(&a.pat, v, env) {
                    continue;
                }
                let guard_ok = a.guard.as_ref().map_or(true, |g| cond_holds(g, env));
                if guard_ok {
                    return eval(&a.body, env, trace);
                }
            }
            panic!("no arm")
        }
        Expr::If(i) => {
            if cond_holds(&i.cond, env) {
                eval_block(&i.then_branch, env, trace)
            } else {
                match &i.else_branch {
                    Some(e) => eval(e, env, trace),
                    None => Flow::Value(Val::Unit),
                }
            }
        }
        Expr::Loop(l) => {
            for _ in 0..1000 {
                match eval_block(&l.body, env, trace) {
                    Flow::Value(_) => {}
                    Flow::Break(v) => return Flow::Value(v),
                    flow => return flow,
                }
            }
            panic!("endless loop")
        }
        Expr::Closure(c) => match &*c.body {
            Expr::Other(o) => Flow::Value(Val::Fun(param(&c.inputs), o.tokens.clone())),
            _ => panic!("closure"),
        },
        Expr::Break(b) => match &b.expr {
            Some(x) => match eval(x, env, trace) {
                Flow::Value(v) => Flow::Break(v),
                flow => flow,
            },
            None => Flow::Break(Val::Unit),
        },
        Expr::Continue(_) => Flow::Diverges,
        Expr::Return(r) => match &r.expr {
            Some(e) => match eval(e, env, trace) {
                Flow::Value(x) | Flow::Return(x) => Flow::Return(x),
                flow => flow,
            },
            None => Flow::Return(Val::Unit),
        },
        Expr::Macro(m) => {
            let name = m.mac.path.segments[0].ident.as_str();
            match name {
                "panic" | "unreachable" => Flow::Diverges,
                "vec" => Flow::Value(Val::Items(numbers(&m.mac.tokens))),
                "marker" | "marker_a" => {
                    trace.push(name.to_string());
                    Flow::Value(value_of_text(&m.mac.tokens, env))
                }
                _ => panic!("macro {}", name),
            }
        }
        Expr::Call(c) => match &*c.func {
            Expr::Path(p) if p.path.segments.len() == 2 => {
                trace.push(p.path.segments[1].ident.clone());
                eval(&c.args[0], env, trace)
            }
            Expr::Path(p) if p.path.segments[0].ident == "Some" => match eval(&c.args[0], env, trace) {
                Flow::Value(v) => Flow::Value(Val::Present(Box::new(v))),
                flow => flow,
            },
            _ => panic!("call"),
        },
        Expr::Path(p) => Flow::Value(value_of_text(&p.path.segments[0].ident, env)),
        Expr::MethodCall(m) => {
            let receiver = match eval(&m.receiver, env, trace) {
                Flow::Value(v) => v,
                flow => return flow,
            };
            let value = match (m.method.as_str(), receiver) {
                ("into_iter", v) => v,
                ("transpose", v) => v,
                ("unwrap", Val::Present(v)) => *v,
                ("map", Val::Items(items)) => Val::Items(
                    items
                        .into_iter()
                        .map(|x| as_int(&call_closure(&m.args[0], Val::Int(x as i64), env, trace)) as i32)
                        .collect(),
                ),
                ("map", Val::Present(v)) => Val::Present(Box::new(call_closure(&m.args[0], *v, env, trace))),
                ("map", Val::Absent) => Val::Absent,
                ("flat_map", Val::Items(items)) => Val::Items(
                    items
                        .into_iter()
                        .flat_map(|x| match call_closure(&m.args[0], Val::Int(x as i64), env, trace) {
                            Val::Items(inner) => inner,
                            other => panic!("flat_map of {:?}", other),
                        })
                        .collect(),
                ),
                (name, v) => panic!("method {} on {:?}", name, v),
            };
            Flow::Value(value)
        }
        Expr::Other(o) => match o.kind.as_str() {
            "paren" => eval(&o.children[0], env, trace),
            "assign" => {
                let name = match &o.children[0] {
                    Expr::Other(l) => l.tokens.clone(),
                    _ => panic!("assignee"),
                };
                match eval(&o.children[1], env, trace) {
                    Flow::Value(v) => {
                        env.insert(name, v);
                        Flow::Value(Val::Unit)
                    }
                    flow => flow,
                }
            }
            "assign_op" => {
                let parts: Vec<&str> = o.tokens.split_whitespace().collect();
                let (name, n) = (parts[0].to_string(), term(parts[2], env));
                let old = term(&name, env);
                let new = match parts[1] {
                    "-=" => old - n,
                    "+=" => old + n,
                    op => panic!("operator {}", op),
                };
                env.insert(name, Val::Int(new));
                Flow::Value(Val::Unit)
            }
            _ => Flow::Value(value_of_text(&o.tokens, env)),
        },
        _ => panic!("expression"),
    }
}

fn env_of(vars: &[(&str, i64)]) -> Env {
    vars.iter().map(|(k, v)| (k.to_string(), Val::Int(*v))).collect()
}

/// The value that `e` produces (or returns) with the variables `env`, and the
/// variants (and markers) that it passes through on the way.
fn run_in(e: &Expr, mut env: Env) -> (Val, Vec<String>) {
    let mut trace = vec![];
    let val = match eval(e, &mut env, &mut trace) {
        Flow::Value(x) | Flow::Return(x) => x,
        _ => panic!("diverges"),
    };
    (val, trace)
}

fn fold_in(e: &Expr, env: Env) -> (i32, Vec<String>) {
    match run_in(e, env) {
        (Val::Items(items), trace) => (items.into_iter().fold(0, |sum, x| sum + x), trace),
        (val, _) => panic!("not an iterator: {:?}", val),
    }
}

/// `run_in` with `i`, `x` and `option` all set to `v`.
fn run(e: &Expr, v: i64) -> (Val, Vec<String>) {
    run_in(e, env_of(&[("i", v), ("x", v), ("option", v)]))
}

fn fold(e: &Expr, v: i64) -> (i32, Vec<String>) {
    fold_in(e, env_of(&[("i", v), ("x", v), ("option", v)]))
}

fn apply(param: &str, body: &str, x: i32) -> i32 {
    match value_of_text(body, &env_of(&[(param, x as i64)])) {
        Val::Int(n) => n as i32,
        other => panic!("not a number: {:?}", other),
    }
}

/// Rewrites `e` as `#[auto_enum]` does with the enum named `name` and the
/// marker macro `marker`, and returns it with the variants handed out.
fn rewrite_with(mut e: Expr, name: &str, marker: &str) -> (Expr, Vec<String>) {
    let mut builder = Builder::new(&ident_call_site(name));
    let p = Params { marker: Marker { ident: marker.to_string() } };
    let r = child_expr(&mut e, &mut builder, &p);
    assert!(r.is_ok());
    let variants = builder.variants().clone();
    (e, variants)
}

/// `rewrite_with` the enum `__Enum1` and the marker `marker!`.
fn rewrite(e: Expr) -> (Expr, Vec<String>) {
    rewrite_with(e, "__Enum1", "marker")
}

fn names(n: usize) -> Vec<String> {
    (0..n).map(|k| format!("__T{}", k)).collect()
}

fn t(k: usize) -> Vec<String> {
    vec![format!("__T{}", k)]
}

#[test]
fn nightly() {
    const ANS: &[i32] = &[28, 3];

    // let match
    let (e, vs) = rewrite(match_("i", vec![arm("0", range("1..8")), arm("_", vec_iter("1, 2, 0"))]));
    assert_eq!(vs, names(2));
    for i in 0..2 {
        let (sum, trace) = fold(&e, i as i64);
        assert_eq!(sum, ANS[i]);
        assert_eq!(trace, t(i));
    }

    // let if
    let (e, vs) = rewrite(if_(
        "i == 0",
        vec![Stmt::Expr(range("1..8"))],
        Some(if_("i > 3", vec![Stmt::Expr(range("1..=10"))], Some(block_expr(vec![Stmt::Expr(vec_iter("1, 2, 0"))])))),
    ));
    assert_eq!(vs, names(3));
    for i in 0..2 {
        let (sum, trace) = fold(&e, i as i64);
        assert_eq!(sum, ANS[i]);
        assert_eq!(trace, t(2 * i));
    }

    // no return
    let (e, vs) = rewrite(match_(
        "i",
        vec![
            arm("0", range("1..8")),
            never_arm("5..=10", loop_panic(vec![])),
            arm("_", vec_iter("1, 2, 0")),
        ],
    ));
    assert_eq!(vs, names(2));
    for i in 0..2 {
        let (sum, trace) = fold(&e, i as i64);
        assert_eq!(sum, ANS[i]);
        assert_eq!(trace, t(i));
    }
    let (e, vs) = rewrite(match_(
        "i",
        vec![
            arm("0", range("1..8")),
            arm("5..=10", mac("panic", "")),
            arm("11..=20", mac("unreachable", "")),
            arm("21..=30", break_()),
            arm("31..=40", continue_()),
            arm("41..=50", return_(None)),
            arm("_", vec_iter("1, 2, 0")),
        ],
    ));
    assert_eq!(vs, names(2));
    for i in 0..2 {
        let (sum, trace) = fold(&e, i as i64);
        assert_eq!(sum, ANS[i]);
        assert_eq!(trace, t(i));
    }
    let (e, vs) = rewrite(if_(
        "i > 3",
        vec![Stmt::Expr(loop_panic(vec![attr("never")]))],
        Some(if_("i == 0", vec![Stmt::Expr(range("1..8"))], Some(block_expr(vec![Stmt::Expr(vec_iter("1, 2, 0"))])))),
    ));
    assert_eq!(vs, names(2));
    for i in 0..2 {
        let (sum, trace) = fold(&e, i as i64);
        assert_eq!(sum, ANS[i]);
        assert_eq!(trace, t(i));
    }

    // rec
    let inner = match_with(
        vec![attr("rec")],
        "i",
        vec![
            arm("1..=10", method(paren(range("1..3")), "map", vec![closure("x", "x + 1")])),
            arm("11..=20", range("4..=5")),
            arm("_", method(paren(range("5..10")), "map", vec![closure("x", "x - 1")])),
        ],
    );
    let (e, vs) = rewrite(if_(
        "i > 3",
        vec![Stmt::Expr(inner)],
        Some(if_("i == 0", vec![Stmt::Expr(range("1..8"))], Some(block_expr(vec![Stmt::Expr(vec_iter("1, 2, 0"))])))),
    ));
    assert_eq!(vs, names(5));
    for i in 0..2 {
        let (sum, trace) = fold(&e, i as i64);
        assert_eq!(sum, ANS[i]);
        assert_eq!(trace, t(3 + i));
    }

    // never opt: the expression is left as it is, and the markers carry the values
    let e = match_(
        "i",
        vec![
            arm("0", mac("marker", "1..8")),
            arm("5..=10", loop_panic(vec![])),
            arm("_", mac("marker", "vec![1, 2, 0].into_iter()")),
        ],
    );
    for i in 0..2 {
        let (sum, trace) = fold(&e, i as i64);
        assert_eq!(sum, ANS[i]);
        assert_eq!(trace, vec!["marker".to_string()]);
    }
    let nested = |last: Expr| {
        block_expr(vec![Stmt::Expr(match_(
            "i",
            vec![
                never_arm("5..=10", loop_panic(vec![])),
                never_arm("11..=20", loop_panic(vec![])),
                arm("_", last),
            ],
        ))])
    };
    let (e, vs) = rewrite(match_(
        "i",
        vec![
            arm("0", range("1..8")),
            never_arm("5..=10", loop_panic(vec![])),
            arm("_", nested(vec_iter("1, 2, 0"))),
        ],
    ));
    assert_eq!(vs, names(2));
    for i in 0..2 {
        let (sum, trace) = fold(&e, i as i64);
        assert_eq!(sum, ANS[i]);
        assert_eq!(trace, t(i));
    }
    let (e, vs) = rewrite(match_(
        "i",
        vec![
            arm("0", range("1..8")),
            never_arm("5..=10", loop_panic(vec![])),
            arm("1..=4", vec_iter("1, 2, 0")),
            arm("_", nested(mac("panic", ""))),
        ],
    ));
    assert_eq!(vs, names(2));
    for i in 0..2 {
        let (sum, trace) = fold(&e, i as i64);
        assert_eq!(sum, ANS[i]);
        assert_eq!(trace, t(i));
    }

    // manual_4: `return marker!(..)` before a `match` with a guard
    let (e, vs) = rewrite(block_expr(vec![
        Stmt::Expr(if_("x == 0", vec![Stmt::Semi(return_(Some(mac("marker", "2..8"))))], None)),
        Stmt::Expr(match_(
            "x",
            vec![
                arm_full(vec![], "_", Some(other("binary", "x < 2")), vec_iter("2, 0")),
                arm("_", range("2..=10")),
            ],
        )),
    ]));
    assert_eq!(vs, names(2));
    for i in 0..2 {
        let (sum, _) = fold(&e, i as i64);
        assert_eq!(sum, ANS[i] - 1);
    }

    // manual_5: the attribute on a chain of method calls
    let chain = method(
        method(paren(range("0..2")), "map", vec![closure("x", "x + 1")]),
        "flat_map",
        vec![Expr::Closure(ExprClosure {
            attrs: vec![],
            inputs: "x".to_string(),
            body: Box::new(block_expr(vec![Stmt::Expr(if_(
                "x > 10",
                vec![Stmt::Expr(mac("marker", "0..x"))],
                Some(block_expr(vec![Stmt::Expr(mac("marker", "-100..=0"))])),
            ))])),
        })],
    );
    let (_, vs) = rewrite(chain);
    assert_eq!(vs, names(0));

    // manual_6: the attribute on a statement, whose arms assign the markers
    let assign = |tokens: &str| {
        Expr::Other(ExprOther {
            attrs: vec![],
            kind: "assign".to_string(),
            tokens: "=".to_string(),
            children: vec![other("path", "a"), mac("marker", tokens)],
        })
    };
    let e = match_(
        "x",
        vec![
            arm("0", assign("2..8")),
            arm_full(vec![], "_", Some(other("binary", "x < 2")), assign("vec![2, 0].into_iter()")),
            arm("_", assign("2..=10")),
        ],
    );
    for i in 0..2 {
        let a = match &e {
            Expr::Match(m) => {
                let idx = if i == 0 { 0 } else { 1 };
                match &*m.arms[idx].body {
                    Expr::Other(o) => fold(&o.children[1], i as i64).0,
                    _ => panic!("assign"),
                }
            }
            _ => panic!("match"),
        };
        assert_eq!(a, ANS[i] - 1);
    }

    // manual_7
    let (e, vs) = rewrite(match_(
        "x",
        vec![
            arm("0", range("2..8")),
            arm_full(vec![], "_", Some(other("binary", "x < 2")), vec_iter("2, 0")),
            arm("_", range("2..=10")),
        ],
    ));
    assert_eq!(vs, names(3));
    for i in 0..2 {
        let (sum, trace) = fold(&e, i as i64);
        assert_eq!(sum, ANS[i] - 1);
        assert_eq!(trace, t(i));
    }

    // fn_traits
    let (e, vs) = rewrite(block_expr(vec![Stmt::Expr(if_(
        "option",
        vec![Stmt::Expr(closure("x", "x + 1"))],
        Some(block_expr(vec![Stmt::Expr(closure("y", "y - 1"))])),
    ))]));
    assert_eq!(vs, names(2));
    let f = match run(&e, 1) {
        (Val::Fun(p, b), trace) => {
            assert_eq!(trace, t(0));
            (p, b)
        }
        (val, _) => panic!("not a closure: {:?}", val),
    };
    assert_eq!(apply(&f.0, &f.1, 1), 2);
}

/// `(0..2).map(|x| x + 1)`.
fn map_plus() -> Expr {
    method(paren(range("0..2")), "map", vec![closure("x", "x + 1")])
}

/// `if x == 0 { 1..8 } else if x > 3 { middle } else { (0..2).map(|x| x + 1) }`.
fn if_chain(middle: Vec<Stmt>) -> Expr {
    if_(
        "x == 0",
        vec![Stmt::Expr(range("1..8"))],
        Some(if_("x > 3", middle, Some(block_expr(vec![Stmt::Expr(map_plus())])))),
    )
}

/// The arms `0 => 1..8`, `middle`, `_ => (0..2).map(|x| x + 1)`.
fn three_arms(middle: Arm) -> Vec<Arm> {
    vec![arm("0", range("1..8")), middle, arm("_", map_plus())]
}

fn guarded(attrs: Vec<Attribute>, body: Expr) -> Arm {
    arm_full(attrs, "n", Some(other("binary", "n > 3")), body)
}

/// Checks the sums that `ANS` gives, and the variant each one is wrapped in.
fn check_ans(e: &Expr, ans: &[i32], variants: [usize; 2]) {
    for i in 0..2 {
        let (sum, trace) = fold(e, i as i64);
        assert_eq!(sum, ans[i]);
        assert_eq!(trace, t(variants[i]));
    }
}

#[test]
fn stable_1_30() {
    const ANS: &[i32] = &[28, 3];

    // match_
    let (e, vs) = rewrite(match_("x", three_arms(guarded(vec![], range("2..=10")))));
    assert_eq!(vs, names(3));
    check_ans(&e, ANS, [0, 2]);

    // block
    let nested = wrap_block(wrap_block(wrap_block(unsafe_(wrap_block(wrap_block(unsafe_(unsafe_(
        wrap_block(match_("x", three_arms(guarded(vec![], range("2..=10"))))),
    ))))))));
    let (e, vs) = rewrite(nested);
    assert_eq!(vs, names(3));
    check_ans(&e, ANS, [0, 2]);

    // if_
    let (e, vs) = rewrite(if_chain(vec![Stmt::Expr(range("2..=10"))]));
    assert_eq!(vs, names(3));
    check_ans(&e, ANS, [0, 2]);

    // method_call
    let chain = method(
        method(if_chain(vec![Stmt::Expr(range("2..=10"))]), "map", vec![closure("x", "x + 1")]),
        "map",
        vec![closure("x", "x - 1")],
    );
    let (e, vs) = rewrite(chain);
    assert_eq!(vs, names(3));
    check_ans(&e, ANS, [0, 2]);

    // no_return
    let (e, vs) = rewrite(match_("x", three_arms(arm("3", mac("panic", "")))));
    assert_eq!(vs, names(2));
    check_ans(&e, ANS, [0, 1]);

    // no_return2
    let inner = match_(
        "x",
        vec![arm("0", mac("panic", "")), arm("1..=3", mac("panic", "")), arm("_", mac("unreachable", ""))],
    );
    let (e, vs) = rewrite(match_("x", three_arms(arm("3", inner))));
    assert_eq!(vs, names(2));
    check_ans(&e, ANS, [0, 1]);

    // no_return3
    let inner = match_(
        "x",
        vec![
            arm("0", mac("panic", "")),
            arm("1..=3", method(paren(range("1..4")), "map", vec![closure("x", "x + 1")])),
            arm("_", mac("unreachable", "")),
        ],
    );
    let (e, vs) = rewrite(match_("x", three_arms(arm("3", inner))));
    assert_eq!(vs, names(3));
    check_ans(&e, ANS, [0, 2]);

    // no_return4
    let (e, vs) = rewrite(if_chain(vec![Stmt::Semi(mac("panic", ""))]));
    assert_eq!(vs, names(2));
    check_ans(&e, ANS, [0, 1]);

    // marker1
    let body = block_expr(vec![
        Stmt::Expr(if_(
            "x > 10",
            vec![Stmt::Semi(return_(Some(mac("marker", "(0..x as _).map(|x| x - 1)"))))],
            None,
        )),
        Stmt::Expr(if_chain(vec![Stmt::Expr(range("2..=10"))])),
    ]);
    let (e, vs) = rewrite(body);
    assert_eq!(vs, names(3));
    check_ans(&e, ANS, [0, 2]);

    // marker_in_loop
    let body = Expr::Loop(ExprLoop {
        attrs: vec![],
        label: None,
        body: block_of(vec![
            Stmt::Expr(if_(
                "x < 0",
                vec![Stmt::Semi(break_with(mac("marker", "x..0")))],
                Some(if_("x % 5 == 0", vec![Stmt::Semi(break_with(mac("marker", "0..=x")))], None)),
            )),
            Stmt::Semi(other("assign_op", "x -= 1")),
        ]),
    });
    let (e, vs) = rewrite(body);
    assert_eq!(vs, names(0));
    assert_eq!(fold_in(&e, env_of(&[("x", 14)])).0, 55);
    assert_eq!(fold_in(&e, env_of(&[("x", -5)])).0, -15);

    // marker2: the inner attribute rewrites the `let`, the outer one the tail
    let (inner, vs) = rewrite(match_(
        "x",
        vec![
            arm("0", range("2..8")),
            arm_full(vec![], "_", Some(other("binary", "y < 0")), return_(Some(mac("marker_a", "y..=0")))),
            arm("_", vec_iter("2, 0")),
        ],
    ));
    assert_eq!(vs, names(2));
    let tail = || {
        match_(
            "y",
            vec![
                arm("0", method(other("path", "iter"), "flat_map", vec![closure("x", "0..x")])),
                arm("_", method(other("path", "iter"), "map", vec![closure("x", "x + 1")])),
            ],
        )
    };
    let body = block_expr(vec![local("iter", Some(inner)), Stmt::Expr(tail())]);
    let (e, vs) = rewrite_with(body, "__Enum2", "marker_a");
    assert_eq!(vs, names(2));
    assert_eq!(fold_in(&e, env_of(&[("x", 10), ("y", 10)])).0, 4);

    // marker3: the inner attribute is on a statement, whose arms assign markers
    let body = block_expr(vec![
        local("iter", None),
        Stmt::Semi(match_(
            "x",
            vec![
                arm("0", assign("iter", mac("marker", "2..8"))),
                arm("_", assign("iter", mac("marker", "vec![2, 0].into_iter()"))),
            ],
        )),
        Stmt::Expr(if_("y < 0", vec![Stmt::Semi(return_(Some(mac("marker", "y..=0"))))], None)),
        Stmt::Expr(tail()),
    ]);
    let (e, vs) = rewrite_with(body, "__Enum2", "marker");
    assert_eq!(vs, names(2));
    assert_eq!(fold_in(&e, env_of(&[("x", 10), ("y", 10)])).0, 4);

    // marker4
    let body = block_expr(vec![
        local("iter", None),
        Stmt::Semi(match_(
            "x",
            vec![
                arm("0", assign("iter", mac("marker", "2..8"))),
                arm_full(vec![], "_", Some(other("binary", "y < 0")), return_(Some(mac("marker_a", "y..=0")))),
                arm("_", assign("iter", mac("marker", "vec![2, 0].into_iter()"))),
            ],
        )),
        Stmt::Expr(tail()),
    ]);
    let (e, vs) = rewrite_with(body, "__Enum2", "marker_a");
    assert_eq!(vs, names(2));
    assert_eq!(fold_in(&e, env_of(&[("x", 10), ("y", 10)])).0, 4);

    // rec_match_in_match
    let inner = match_(
        "x",
        vec![
            arm("2..=10", method(paren(range("1..x as _")), "map", vec![closure("x", "x - 1")])),
            arm("_", range("2..=10")),
        ],
    );
    let (e, vs) = rewrite(match_("x", three_arms(guarded(vec![attr("rec")], inner))));
    assert_eq!(vs, names(4));
    check_ans(&e, ANS, [0, 3]);

    // rec_in_block
    let branch = wrap_block(wrap_block(wrap_block(unsafe_(wrap_block(if_(
        "x > 10",
        vec![Stmt::Expr(method(paren(range("-10..=x as _")), "map", vec![closure("x", "x - 4")]))],
        Some(block_expr(vec![Stmt::Expr(method(paren(range("1..=4")), "map", vec![closure("x", "x - 4")]))])),
    ))))));
    let nested = wrap_block(wrap_block(wrap_block(unsafe_(wrap_block(wrap_block(unsafe_(unsafe_(
        wrap_block(match_("x", three_arms(guarded(vec![attr("rec")], branch)))),
    ))))))));
    let (e, vs) = rewrite(nested);
    assert_eq!(vs, names(4));
    check_ans(&e, ANS, [0, 3]);

    // rec_match_in_if
    let inner = match_with(
        vec![attr("rec")],
        "x",
        vec![
            arm("1..=4", range("2..=10")),
            arm("_", method(paren(range("11..20")), "map", vec![closure("x", "x - 1")])),
        ],
    );
    let (e, vs) = rewrite(if_chain(vec![Stmt::Expr(inner)]));
    assert_eq!(vs, names(4));
    check_ans(&e, ANS, [0, 3]);

    // rec_if_in_if
    let inner = Expr::Block(ExprBlock {
        attrs: vec![attr("rec")],
        label: None,
        block: block_of(vec![Stmt::Expr(if_(
            "x > 4",
            vec![Stmt::Expr(range("2..=10"))],
            Some(block_expr(vec![Stmt::Expr(method(paren(range("11..20")), "map", vec![closure("x", "x - 1")]))])),
        ))]),
    });
    let (e, vs) = rewrite(if_chain(vec![Stmt::Expr(inner)]));
    assert_eq!(vs, names(4));
    check_ans(&e, ANS, [0, 3]);

    // rec_nop
    let nop = Expr::Other(ExprOther {
        attrs: vec![attr("rec")],
        kind: "range".to_string(),
        tokens: "2..=10".to_string(),
        children: vec![],
    });
    let (e, vs) = rewrite(if_chain(vec![Stmt::Expr(nop)]));
    assert_eq!(vs, names(3));
    check_ans(&e, ANS, [0, 2]);

    // rec_no_return
    let (e, vs) = rewrite(match_("x", three_arms(arm_full(vec![attr("rec")], "3", None, mac("panic", "")))));
    assert_eq!(vs, names(2));
    check_ans(&e, ANS, [0, 1]);

    // transpose
    let m = match_(
        "x",
        vec![
            arm("0", call("Some", range("1..8"))),
            arm_full(vec![], "_", Some(other("binary", "x < 0")), return_(Some(path_expr("None")))),
            arm("_", call("Some", range("0..=10"))),
        ],
    );
    let inner_map = Expr::Closure(ExprClosure {
        attrs: vec![],
        inputs: "i".to_string(),
        body: Box::new(method(
            method(other("path", "i"), "map", vec![closure("x", "x + 1")]),
            "map",
            vec![closure("x", "x - 1")],
        )),
    });
    let chain = method(method(m, "transpose", vec![]), "map", vec![inner_map]);
    let (e, vs) = rewrite(chain);
    assert_eq!(vs, names(2));
    let (val, trace) = run(&e, 0);
    assert_eq!(trace, t(0));
    match val {
        Val::Present(items) => match *items {
            Val::Items(items) => assert_eq!(items.into_iter().fold(0, |sum, x| sum + x), 28),
            other => panic!("not an iterator: {:?}", other),
        },
        other => panic!("not `Some`: {:?}", other),
    }
}
