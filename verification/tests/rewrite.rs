//! Which expressions never produce a value, the errors of the rewriting, and
//! the `break`s of loops.

use auto_enumerate::context::{decimal_string, variant_ident, Builder, Marker, Params};
use auto_enumerate::expr::{child_expr, is_unreachable, Params as WalkParams};
use auto_enumerate::syntax::{
    Arm, Attribute, Block, Expr, ExprBlock, ExprBreak, ExprCall, ExprClosure, ExprContinue, ExprIf,
    ExprLoop, ExprMacro, ExprMatch, ExprOther, ExprPath, ExprReturn, ExprTry, Item, Lifetime,
    Macro, Path, PathSegment, Stmt,
};
use auto_enumerate::syntax::any_attr;
use auto_enumerate::utils::{
    block, checked_ident_call_site, expr_block, expr_call, ident_call_site, is_ident, path, unit, Error,
};

fn ident_path(name: &str) -> Path {
    Path {
        leading_colon: false,
        segments: vec![PathSegment { ident: name.to_string(), arguments: false }],
    }
}

fn two_path(a: &str, b: &str) -> Path {
    Path {
        leading_colon: false,
        segments: vec![
            PathSegment { ident: a.to_string(), arguments: false },
            PathSegment { ident: b.to_string(), arguments: false },
        ],
    }
}

fn attr(name: &str) -> Attribute {
    Attribute { path: ident_path(name), tokens: String::new() }
}

fn lit(tokens: &str) -> Expr {
    Expr::Other(ExprOther { attrs: vec![], kind: "lit".to_string(), tokens: tokens.to_string(), children: vec![] })
}

fn lit_with(attrs: Vec<Attribute>, tokens: &str) -> Expr {
    Expr::Other(ExprOther { attrs, kind: "lit".to_string(), tokens: tokens.to_string(), children: vec![] })
}

fn mac(name: &str, tokens: &str) -> Expr {
    Expr::Macro(ExprMacro { attrs: vec![], mac: Macro { path: ident_path(name), tokens: tokens.to_string() } })
}

fn path_expr(p: Path) -> Expr {
    Expr::Path(ExprPath { attrs: vec![], qself: None, path: p })
}

fn call(p: Path, arg: Expr) -> Expr {
    Expr::Call(ExprCall { attrs: vec![], func: Box::new(path_expr(p)), args: vec![arg] })
}

fn try_(e: Expr) -> Expr {
    Expr::Try(ExprTry { attrs: vec![], expr: Box::new(e) })
}

fn block_expr(stmts: Vec<Stmt>) -> Expr {
    Expr::Block(ExprBlock { attrs: vec![], label: None, block: Block { stmts } })
}

fn arm(attrs: Vec<Attribute>, pat: &str, body: Expr) -> Arm {
    Arm { attrs, pat: pat.to_string(), guard: None, body: Box::new(body), comma: true }
}

fn match_(arms: Vec<Arm>) -> Expr {
    Expr::Match(ExprMatch { attrs: vec![], expr: Box::new(lit("i")), arms })
}

fn if_(then_branch: Vec<Stmt>, else_branch: Option<Expr>) -> Expr {
    Expr::If(ExprIf {
        attrs: vec![],
        cond: Box::new(lit("c")),
        then_branch: Block { stmts: then_branch },
        else_branch: else_branch.map(Box::new),
    })
}

fn label(name: &str) -> Option<Lifetime> {
    Some(Lifetime { ident: name.to_string() })
}

fn break_(l: Option<Lifetime>, e: Option<Expr>) -> Expr {
    Expr::Break(ExprBreak { attrs: vec![], label: l, expr: e.map(Box::new) })
}

fn loop_(l: Option<Lifetime>, stmts: Vec<Stmt>) -> Expr {
    Expr::Loop(ExprLoop { attrs: vec![], label: l, body: Block { stmts } })
}

fn params() -> Params {
    Params { marker: Marker { ident: "marker".to_string() } }
}

fn builder() -> Builder {
    Builder::new(&ident_call_site("__Enum1"))
}

fn unreachable(e: &Expr) -> bool {
    let p = params();
    is_unreachable(e, &builder(), &WalkParams::from(&p))
}

/// The variant that `e` is wrapped in, if it is a call `__Enum1::__Tk(..)`.
fn variant_of(e: &Expr) -> Option<String> {
    match e {
        Expr::Call(c) => match &*c.func {
            Expr::Path(p) if p.path.segments.len() == 2 && p.path.segments[0].ident == "__Enum1" => {
                Some(p.path.segments[1].ident.clone())
            }
            _ => None,
        },
        _ => None,
    }
}

/// The value of the statement `break value;`.
fn break_value(s: &Stmt) -> &Expr {
    match s {
        Stmt::Semi(Expr::Break(b)) => b.expr.as_deref().unwrap(),
        _ => panic!("break"),
    }
}

#[test]
fn leaving_expressions_never_produce_a_value() {
    assert!(unreachable(&break_(None, None)));
    assert!(unreachable(&Expr::Continue(ExprContinue { attrs: vec![], label: None })));
    assert!(unreachable(&Expr::Return(ExprReturn { attrs: vec![], expr: Some(Box::new(lit("1"))) })));
    assert!(unreachable(&mac("panic", "\"boom\"")));
    assert!(unreachable(&mac("unreachable", "")));
    assert!(unreachable(&mac("marker", "1..8")));
    assert!(!unreachable(&mac("vec", "1, 2")));
    assert!(!unreachable(&lit("1..8")));
}

#[test]
fn failing_try_and_variant_calls_never_produce_a_value() {
    assert!(unreachable(&try_(path_expr(ident_path("None")))));
    assert!(unreachable(&try_(call(ident_path("Err"), lit("e")))));
    assert!(!unreachable(&try_(call(ident_path("Some"), lit("e")))));
    assert!(!unreachable(&try_(lit("x"))));
    assert!(unreachable(&call(two_path("__Enum1", "__T3"), lit("x"))));
    assert!(!unreachable(&call(two_path("Other", "__T3"), lit("x"))));
    assert!(!unreachable(&call(ident_path("f"), lit("x"))));
}

#[test]
fn never_attribute_and_blocks() {
    assert!(unreachable(&lit_with(vec![attr("never")], "1..8")));
    assert!(unreachable(&lit_with(vec![attr("auto_enum")], "1..8")));
    // A value-less tail `panic!();` leaves the block itself to be judged.
    assert!(!unreachable(&block_expr(vec![Stmt::Semi(mac("panic", ""))])));
    assert!(unreachable(&block_expr(vec![Stmt::Expr(mac("panic", ""))])));
    assert!(unreachable(&block_expr(vec![Stmt::Item(Item { tokens: "fn f() {}".to_string() })])));
    assert!(!unreachable(&block_expr(vec![])));
    assert!(unreachable(&block_expr(vec![Stmt::Semi(lit_with(vec![attr("never")], "x"))])));
}

#[test]
fn match_never_produces_a_value_when_no_arm_does() {
    let all = match_(vec![
        arm(vec![attr("never")], "0", lit("1..8")),
        arm(vec![], "_", mac("unreachable", "")),
    ]);
    assert!(unreachable(&all));
    let one = match_(vec![arm(vec![], "0", lit("1..8")), arm(vec![], "_", mac("panic", ""))]);
    assert!(!unreachable(&one));
}

#[test]
fn if_without_else_is_an_error() {
    let mut e = if_(vec![Stmt::Expr(lit("1"))], None);
    let mut b = builder();
    let r = child_expr(&mut e, &mut b, &params());
    assert_eq!(r, Err(Error::MissingElse));
    assert_eq!(Error::MissingElse.message(), "invalid expression: `if` expression missing an else clause");
}

#[test]
fn else_must_be_a_block_or_an_if() {
    let mut e = if_(vec![Stmt::Expr(lit("1"))], Some(lit("2")));
    let mut b = builder();
    let r = child_expr(&mut e, &mut b, &params());
    assert_eq!(r, Err(Error::ElseNotBlockOrIf));
    assert_eq!(
        Error::ElseNotBlockOrIf.message(),
        "invalid expression: after of `else` required `{` or `if`"
    );
}

#[test]
fn unreachable_expression_is_left_as_it_is() {
    let mut e = match_(vec![arm(vec![], "_", mac("panic", ""))]);
    let mut b = builder();
    assert_eq!(child_expr(&mut e, &mut b, &params()), Ok(()));
    assert!(b.variants().is_empty());
    match &e {
        Expr::Match(m) => assert!(variant_of(&m.arms[0].body).is_none()),
        _ => panic!("match"),
    }
}

#[test]
fn match_arms_get_variants_in_order() {
    let mut e = match_(vec![
        arm(vec![], "0", lit("a")),
        arm(vec![], "1", break_(None, None)),
        arm(vec![], "_", lit("b")),
    ]);
    let mut b = builder();
    assert_eq!(child_expr(&mut e, &mut b, &params()), Ok(()));
    assert_eq!(b.variants(), &vec!["__T0".to_string(), "__T1".to_string()]);
    match &e {
        Expr::Match(m) => {
            assert_eq!(variant_of(&m.arms[0].body), Some("__T0".to_string()));
            assert_eq!(variant_of(&m.arms[1].body), None);
            assert_eq!(variant_of(&m.arms[2].body), Some("__T1".to_string()));
        }
        _ => panic!("match"),
    }
}

#[test]
fn breaks_of_the_loop_get_variants() {
    // loop { if c { break 1; } else { break marker!(2); } loop { break 3; } |x| { break 4; }; break; }
    let mut e = loop_(
        None,
        vec![
            Stmt::Expr(if_(
                vec![Stmt::Semi(break_(None, Some(lit("1"))))],
                Some(block_expr(vec![Stmt::Semi(break_(None, Some(mac("marker", "2"))))])),
            )),
            Stmt::Expr(loop_(None, vec![Stmt::Semi(break_(None, Some(lit("3"))))])),
            Stmt::Semi(Expr::Closure(ExprClosure {
                attrs: vec![],
                inputs: "x".to_string(),
                body: Box::new(block_expr(vec![Stmt::Semi(break_(None, Some(lit("4"))))])),
            })),
            Stmt::Semi(break_(None, None)),
        ],
    );
    let mut b = builder();
    assert_eq!(child_expr(&mut e, &mut b, &params()), Ok(()));
    assert_eq!(b.variants(), &vec!["__T0".to_string(), "__T1".to_string()]);
    let body = match &e {
        Expr::Loop(l) => &l.body.stmts,
        _ => panic!("loop"),
    };
    match &body[0] {
        Stmt::Expr(Expr::If(i)) => {
            assert_eq!(variant_of(break_value(&i.then_branch.stmts[0])), Some("__T0".to_string()));
            match i.else_branch.as_deref() {
                Some(Expr::Block(b)) => {
                    assert!(matches!(break_value(&b.block.stmts[0]), Expr::Macro(_)))
                }
                _ => panic!("else"),
            }
        }
        _ => panic!("if"),
    }
    match &body[1] {
        Stmt::Expr(Expr::Loop(l)) => assert!(matches!(break_value(&l.body.stmts[0]), Expr::Other(_))),
        _ => panic!("inner loop"),
    }
    match &body[2] {
        Stmt::Semi(Expr::Closure(c)) => match &*c.body {
            Expr::Block(b) => assert!(matches!(break_value(&b.block.stmts[0]), Expr::Other(_))),
            _ => panic!("closure body"),
        },
        _ => panic!("closure"),
    }
    // `break;` gets the unit value, wrapped.
    match &body[3] {
        Stmt::Semi(Expr::Break(_)) => assert_eq!(variant_of(break_value(&body[3])), Some("__T1".to_string())),
        _ => panic!("break"),
    }
}

#[test]
fn labelled_breaks_leave_nested_loops() {
    // 'a: loop { loop { break 'a 1; break 2; } }
    let mut e = loop_(
        label("a"),
        vec![Stmt::Expr(loop_(
            None,
            vec![
                Stmt::Semi(break_(label("a"), Some(lit("1")))),
                Stmt::Semi(break_(None, Some(lit("2")))),
            ],
        ))],
    );
    let mut b = builder();
    assert_eq!(child_expr(&mut e, &mut b, &params()), Ok(()));
    assert_eq!(b.variants(), &vec!["__T0".to_string()]);
    match &e {
        Expr::Loop(outer) => match &outer.body.stmts[0] {
            Stmt::Expr(Expr::Loop(inner)) => {
                match &inner.body.stmts[0] {
                    Stmt::Semi(Expr::Break(br)) => {
                        assert_eq!(variant_of(br.expr.as_deref().unwrap()), Some("__T0".to_string()))
                    }
                    _ => panic!("labelled break"),
                }
                match &inner.body.stmts[1] {
                    Stmt::Semi(Expr::Break(br)) => assert_eq!(variant_of(br.expr.as_deref().unwrap()), None),
                    _ => panic!("inner break"),
                }
            }
            _ => panic!("inner loop"),
        },
        _ => panic!("outer loop"),
    }
}

#[test]
fn rewriting_only_wraps_values() {
    // if c { 1 } else if c { panic!() } else { 2 }
    let mut e = if_(
        vec![Stmt::Expr(lit("1"))],
        Some(if_(vec![Stmt::Expr(mac("panic", ""))], Some(block_expr(vec![Stmt::Expr(lit("2"))])))),
    );
    let mut b = builder();
    assert_eq!(child_expr(&mut e, &mut b, &params()), Ok(()));
    assert_eq!(b.variants().len(), 2);
    let tail = |blk: &Block| -> Expr {
        match &blk.stmts[0] {
            Stmt::Expr(x) => match x {
                Expr::Call(c) => {
                    assert!(variant_of(x).is_some());
                    match &c.args[0] {
                        Expr::Block(inner) => match &inner.block.stmts[0] {
                            Stmt::Expr(Expr::Other(o)) => lit(&o.tokens),
                            _ => panic!("inner"),
                        },
                        _ => panic!("wrapped block"),
                    }
                }
                Expr::Macro(_) => mac("panic", ""),
                _ => panic!("branch"),
            },
            _ => panic!("stmt"),
        }
    };
    match &e {
        Expr::If(i) => {
            assert!(matches!(tail(&i.then_branch), Expr::Other(o) if o.tokens == "1"));
            match i.else_branch.as_deref() {
                Some(Expr::If(j)) => {
                    assert!(matches!(tail(&j.then_branch), Expr::Macro(_)));
                    match j.else_branch.as_deref() {
                        Some(Expr::Block(b)) => {
                            assert!(matches!(tail(&b.block), Expr::Other(o) if o.tokens == "2"))
                        }
                        _ => panic!("else"),
                    }
                }
                _ => panic!("else if"),
            }
        }
        _ => panic!("if"),
    }
}

#[test]
fn variant_names_are_numbered() {
    assert_eq!(decimal_string(0), "0");
    assert_eq!(decimal_string(1234), "1234");
    assert_eq!(variant_ident(0), "__T0");
    assert_eq!(variant_ident(12), "__T12");
    assert_ne!(variant_ident(1), variant_ident(10));
}

#[test]
fn builder_hands_out_paths_in_order() {
    let mut b = builder();
    assert_eq!(b.ident(), "__Enum1");
    let p0 = b.next_path();
    let p1 = b.next_path();
    let names = |p: &Path| p.segments.iter().map(|s| s.ident.clone()).collect::<Vec<_>>();
    assert_eq!(names(&p0), vec!["__Enum1".to_string(), "__T0".to_string()]);
    assert_eq!(names(&p1), vec!["__Enum1".to_string(), "__T1".to_string()]);
    let e = b.next_expr(lit("x"));
    assert_eq!(variant_of(&e), Some("__T2".to_string()));
    assert_eq!(b.variants().len(), 3);
}

#[test]
fn syntax_helpers() {
    let p = path(vec![
        PathSegment { ident: "a".to_string(), arguments: false },
        PathSegment { ident: "b".to_string(), arguments: false },
    ]);
    assert!(!p.leading_colon);
    assert_eq!(p.segments.len(), 2);
    assert!(ident_path("x").is_ident("x"));
    assert!(!ident_path("x").is_ident("y"));
    assert!(!p.is_ident("a"));
    let attrs = vec![attr("rec"), Attribute { path: ident_path("never"), tokens: "(x)".to_string() }];
    assert!(any_attr(&attrs, "never"));
    assert!(!lit_with(attrs, "1").any_empty_attr("never"));
    match unit() {
        Expr::Other(o) => {
            assert_eq!(o.kind, "tuple");
            assert!(o.tokens.is_empty() && o.children.is_empty() && o.attrs.is_empty());
        }
        _ => panic!("unit"),
    }
    let b = block(vec![Stmt::Expr(lit("1"))]);
    match expr_block(b) {
        Expr::Block(e) => {
            assert!(e.attrs.is_empty() && e.label.is_none());
            assert_eq!(e.block.stmts.len(), 1);
        }
        _ => panic!("block"),
    }
    let c = expr_call(vec![attr("a")], two_path("__Enum1", "__T0"), lit("1"));
    assert_eq!(variant_of(&c), Some("__T0".to_string()));
    match &c {
        Expr::Call(x) => assert_eq!(x.attrs.len(), 1),
        _ => panic!("call"),
    }
}

#[test]
fn marker_macro_is_recognised() {
    let m = Marker { ident: "marker".to_string() };
    let p = Params { marker: Marker { ident: "marker".to_string() } };
    assert_eq!(p.marker().ident, "marker");
    assert!(m.marker_macro(&Macro { path: ident_path("marker"), tokens: String::new() }));
    assert!(!m.marker_macro(&Macro { path: ident_path("other"), tokens: String::new() }));
    let w = WalkParams::from(&p);
    assert!(!w.rec);
    assert_eq!(w.marker.ident, "marker");
}

#[test]
fn identifiers_beyond_ascii() {
    assert!(is_ident("__Enum1"));
    assert!(is_ident("_"));
    assert!(is_ident("énum"));
    assert!(is_ident("名前"));
    assert!(!is_ident(""));
    assert!(!is_ident("1a"));
    assert!(!is_ident("a-b"));
    assert!(!is_ident("a b"));
    assert_eq!(checked_ident_call_site("énum").unwrap().to_string(), "énum");
    assert_eq!(checked_ident_call_site("__Enum2").unwrap().to_string(), "__Enum2");
    assert!(checked_ident_call_site("2x").is_none());
    assert_eq!(ident_call_site("x_1").to_string(), "x_1");
}
