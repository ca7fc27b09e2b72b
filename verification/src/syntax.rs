//! The syntax tree that the expression rewriting reads and writes: the part of
//! Rust's expression grammar that decides where the branches of an expression
//! end, with everything else kept as opaque text or as a generic node with
//! children.
//!
//! Every type has a view: the same tree built from `Seq`s and `Seq<char>`s, over
//! which the contracts of the rewriting are stated.
use vstd::prelude::*;

verus! {

// ---------------------------------------------------------------------------
// Executable syntax tree
// ---------------------------------------------------------------------------
/// One segment of a path: an identifier, and whether generic arguments follow it.
pub struct PathSegment {
    pub ident: String,
    pub arguments: bool,
}

/// A path such as `a::b::c` or `::a`.
pub struct Path {
    pub leading_colon: bool,
    pub segments: Vec<PathSegment>,
}

/// An attribute `#[path tokens]`.
pub struct Attribute {
    pub path: Path,
    pub tokens: String,
}

/// A loop label such as `'outer` (without the quote).
pub struct Lifetime {
    pub ident: String,
}

/// A macro invocation `path!(tokens)`.
pub struct Macro {
    pub path: Path,
    pub tokens: String,
}

/// A block `{ stmts }`.
pub struct Block {
    pub stmts: Vec<Stmt>,
}

/// A `let` statement.
pub struct Local {
    pub attrs: Vec<Attribute>,
    pub pat: String,
    pub init: Option<Box<Expr>>,
}

/// An item declared inside a block, kept as text.
pub struct Item {
    pub tokens: String,
}

/// A statement.
pub enum Stmt {
    Local(Local),
    Item(Item),
    /// An expression without a trailing semicolon.
    Expr(Expr),
    /// An expression with a trailing semicolon.
    Semi(Expr),
}

/// One arm of a `match`.
pub struct Arm {
    pub attrs: Vec<Attribute>,
    pub pat: String,
    pub guard: Option<Box<Expr>>,
    pub body: Box<Expr>,
    pub comma: bool,
}

pub struct ExprBlock {
    pub attrs: Vec<Attribute>,
    pub label: Option<Lifetime>,
    pub block: Block,
}

pub struct ExprUnsafe {
    pub attrs: Vec<Attribute>,
    pub block: Block,
}

pub struct ExprMatch {
    pub attrs: Vec<Attribute>,
    pub expr: Box<Expr>,
    pub arms: Vec<Arm>,
}

pub struct ExprIf {
    pub attrs: Vec<Attribute>,
    pub cond: Box<Expr>,
    pub then_branch: Block,
    pub else_branch: Option<Box<Expr>>,
}

pub struct ExprLoop {
    pub attrs: Vec<Attribute>,
    pub label: Option<Lifetime>,
    pub body: Block,
}

pub struct ExprForLoop {
    pub attrs: Vec<Attribute>,
    pub label: Option<Lifetime>,
    pub pat: String,
    pub expr: Box<Expr>,
    pub body: Block,
}

pub struct ExprWhile {
    pub attrs: Vec<Attribute>,
    pub label: Option<Lifetime>,
    pub cond: Box<Expr>,
    pub body: Block,
}

pub struct ExprClosure {
    pub attrs: Vec<Attribute>,
    pub inputs: String,
    pub body: Box<Expr>,
}

pub struct ExprBreak {
    pub attrs: Vec<Attribute>,
    pub label: Option<Lifetime>,
    pub expr: Option<Box<Expr>>,
}

pub struct ExprContinue {
    pub attrs: Vec<Attribute>,
    pub label: Option<Lifetime>,
}

pub struct ExprReturn {
    pub attrs: Vec<Attribute>,
    pub expr: Option<Box<Expr>>,
}

pub struct ExprMacro {
    pub attrs: Vec<Attribute>,
    pub mac: Macro,
}

pub struct ExprCall {
    pub attrs: Vec<Attribute>,
    pub func: Box<Expr>,
    pub args: Vec<Expr>,
}

pub struct ExprMethodCall {
    pub attrs: Vec<Attribute>,
    pub receiver: Box<Expr>,
    pub method: String,
    pub args: Vec<Expr>,
}

pub struct ExprPath {
    pub attrs: Vec<Attribute>,
    /// The qualified self type `<T as Trait>`, as text, if any.
    pub qself: Option<String>,
    pub path: Path,
}

pub struct ExprTry {
    pub attrs: Vec<Attribute>,
    pub expr: Box<Expr>,
}

/// Any other expression: its kind (such as `tuple`, `binary`, `lit`), its
/// tokens that are not expressions, and its sub-expressions in source order.
pub struct ExprOther {
    pub attrs: Vec<Attribute>,
    pub kind: String,
    pub tokens: String,
    pub children: Vec<Expr>,
}

/// An expression.
pub enum Expr {
    Block(ExprBlock),
    Unsafe(ExprUnsafe),
    Match(ExprMatch),
    If(ExprIf),
    Loop(ExprLoop),
    ForLoop(ExprForLoop),
    While(ExprWhile),
    Closure(ExprClosure),
    Break(ExprBreak),
    Continue(ExprContinue),
    Return(ExprReturn),
    Macro(ExprMacro),
    Call(ExprCall),
    MethodCall(ExprMethodCall),
    Path(ExprPath),
    Try(ExprTry),
    Other(ExprOther),
}

// ---------------------------------------------------------------------------
// The mathematical tree
// ---------------------------------------------------------------------------
pub struct SegmentView {
    pub ident: Seq<char>,
    pub arguments: bool,
}

pub struct PathView {
    pub leading_colon: bool,
    pub segments: Seq<SegmentView>,
}

pub struct AttrView {
    pub path: PathView,
    pub tokens: Seq<char>,
}

pub enum StmtView {
    Local { attrs: Seq<AttrView>, pat: Seq<char>, init: Option<Box<ExprView>> },
    Item { tokens: Seq<char> },
    Expr(ExprView),
    Semi(ExprView),
}

pub struct ArmView {
    pub attrs: Seq<AttrView>,
    pub pat: Seq<char>,
    pub guard: Option<Box<ExprView>>,
    pub body: Box<ExprView>,
    pub comma: bool,
}

/// A block is viewed as its statements; a label as its identifier.
#[allow(inconsistent_fields)]
pub enum ExprView {
    Block { attrs: Seq<AttrView>, label: Option<Seq<char>>, stmts: Seq<StmtView> },
    Unsafe { attrs: Seq<AttrView>, stmts: Seq<StmtView> },
    Match { attrs: Seq<AttrView>, expr: Box<ExprView>, arms: Seq<ArmView> },
    If {
        attrs: Seq<AttrView>,
        cond: Box<ExprView>,
        then_branch: Seq<StmtView>,
        else_branch: Option<Box<ExprView>>,
    },
    Loop { attrs: Seq<AttrView>, label: Option<Seq<char>>, body: Seq<StmtView> },
    ForLoop {
        attrs: Seq<AttrView>,
        label: Option<Seq<char>>,
        pat: Seq<char>,
        expr: Box<ExprView>,
        body: Seq<StmtView>,
    },
    While {
        attrs: Seq<AttrView>,
        label: Option<Seq<char>>,
        cond: Box<ExprView>,
        body: Seq<StmtView>,
    },
    Closure { attrs: Seq<AttrView>, inputs: Seq<char>, body: Box<ExprView> },
    Break { attrs: Seq<AttrView>, label: Option<Seq<char>>, expr: Option<Box<ExprView>> },
    Continue { attrs: Seq<AttrView>, label: Option<Seq<char>> },
    Return { attrs: Seq<AttrView>, expr: Option<Box<ExprView>> },
    Macro { attrs: Seq<AttrView>, path: PathView, tokens: Seq<char> },
    Call { attrs: Seq<AttrView>, func: Box<ExprView>, args: Seq<ExprView> },
    MethodCall {
        attrs: Seq<AttrView>,
        receiver: Box<ExprView>,
        method: Seq<char>,
        args: Seq<ExprView>,
    },
    Path { attrs: Seq<AttrView>, qself: Option<Seq<char>>, path: PathView },
    Try { attrs: Seq<AttrView>, expr: Box<ExprView> },
    Other { attrs: Seq<AttrView>, kind: Seq<char>, tokens: Seq<char>, children: Seq<ExprView> },
}

// ---------------------------------------------------------------------------
// Views
// ---------------------------------------------------------------------------
impl View for PathSegment {
    type V = SegmentView;

    open spec fn view(&self) -> SegmentView {
        SegmentView { ident: self.ident@, arguments: self.arguments }
    }
}

impl View for Path {
    type V = PathView;

    open spec fn view(&self) -> PathView {
        PathView {
            leading_colon: self.leading_colon,
            segments: self.segments@.map_values(|s: PathSegment| s@),
        }
    }
}

impl View for Attribute {
    type V = AttrView;

    open spec fn view(&self) -> AttrView {
        AttrView { path: self.path@, tokens: self.tokens@ }
    }
}

pub open spec fn attrs_view(attrs: Seq<Attribute>) -> Seq<AttrView> {
    attrs.map_values(|a: Attribute| a@)
}

pub open spec fn label_view(label: Option<Lifetime>) -> Option<Seq<char>> {
    match label {
        Some(l) => Some(l.ident@),
        None => None,
    }
}

pub open spec fn opt_string_view(s: Option<String>) -> Option<Seq<char>> {
    match s {
        Some(s) => Some(s@),
        None => None,
    }
}

pub open spec fn view_opt_expr(e: Option<Box<Expr>>) -> Option<Box<ExprView>>
    decreases e,
{
    match e {
        Some(b) => Some(Box::new(view_expr(*b))),
        None => None,
    }
}

pub open spec fn view_exprs(v: Seq<Expr>) -> Seq<ExprView>
    decreases v,
{
    Seq::new(v.len(), |i: int| if 0 <= i < v.len() { view_expr(v[i]) } else { view_unit() })
}

pub open spec fn view_stmt(s: Stmt) -> StmtView
    decreases s,
{
    match s {
        Stmt::Local(l) => StmtView::Local {
            attrs: attrs_view(l.attrs@),
            pat: l.pat@,
            init: view_opt_expr(l.init),
        },
        Stmt::Item(i) => StmtView::Item { tokens: i.tokens@ },
        Stmt::Expr(e) => StmtView::Expr(view_expr(e)),
        Stmt::Semi(e) => StmtView::Semi(view_expr(e)),
    }
}

pub open spec fn view_stmts(v: Seq<Stmt>) -> Seq<StmtView>
    decreases v,
{
    Seq::new(
        v.len(),
        |i: int| if 0 <= i < v.len() { view_stmt(v[i]) } else { StmtView::Item { tokens: Seq::empty() } },
    )
}

pub open spec fn view_arm(a: Arm) -> ArmView
    decreases a,
{
    ArmView {
        attrs: attrs_view(a.attrs@),
        pat: a.pat@,
        guard: view_opt_expr(a.guard),
        body: Box::new(view_expr(*a.body)),
        comma: a.comma,
    }
}

pub open spec fn view_arms(v: Seq<Arm>) -> Seq<ArmView>
    decreases v,
{
    Seq::new(
        v.len(),
        |i: int|
            if 0 <= i < v.len() {
                view_arm(v[i])
            } else {
                ArmView {
                    attrs: Seq::empty(),
                    pat: Seq::empty(),
                    guard: None,
                    body: Box::new(view_unit()),
                    comma: false,
                }
            },
    )
}

pub open spec fn view_expr(e: Expr) -> ExprView
    decreases e,
{
    match e {
        Expr::Block(x) => ExprView::Block {
            attrs: attrs_view(x.attrs@),
            label: label_view(x.label),
            stmts: view_stmts(x.block.stmts@),
        },
        Expr::Unsafe(x) => ExprView::Unsafe {
            attrs: attrs_view(x.attrs@),
            stmts: view_stmts(x.block.stmts@),
        },
        Expr::Match(x) => ExprView::Match {
            attrs: attrs_view(x.attrs@),
            expr: Box::new(view_expr(*x.expr)),
            arms: view_arms(x.arms@),
        },
        Expr::If(x) => ExprView::If {
            attrs: attrs_view(x.attrs@),
            cond: Box::new(view_expr(*x.cond)),
            then_branch: view_stmts(x.then_branch.stmts@),
            else_branch: view_opt_expr(x.else_branch),
        },
        Expr::Loop(x) => ExprView::Loop {
            attrs: attrs_view(x.attrs@),
            label: label_view(x.label),
            body: view_stmts(x.body.stmts@),
        },
        Expr::ForLoop(x) => ExprView::ForLoop {
            attrs: attrs_view(x.attrs@),
            label: label_view(x.label),
            pat: x.pat@,
            expr: Box::new(view_expr(*x.expr)),
            body: view_stmts(x.body.stmts@),
        },
        Expr::While(x) => ExprView::While {
            attrs: attrs_view(x.attrs@),
            label: label_view(x.label),
            cond: Box::new(view_expr(*x.cond)),
            body: view_stmts(x.body.stmts@),
        },
        Expr::Closure(x) => ExprView::Closure {
            attrs: attrs_view(x.attrs@),
            inputs: x.inputs@,
            body: Box::new(view_expr(*x.body)),
        },
        Expr::Break(x) => ExprView::Break {
            attrs: attrs_view(x.attrs@),
            label: label_view(x.label),
            expr: view_opt_expr(x.expr),
        },
        Expr::Continue(x) => ExprView::Continue {
            attrs: attrs_view(x.attrs@),
            label: label_view(x.label),
        },
        Expr::Return(x) => ExprView::Return {
            attrs: attrs_view(x.attrs@),
            expr: view_opt_expr(x.expr),
        },
        Expr::Macro(x) => ExprView::Macro {
            attrs: attrs_view(x.attrs@),
            path: x.mac.path@,
            tokens: x.mac.tokens@,
        },
        Expr::Call(x) => ExprView::Call {
            attrs: attrs_view(x.attrs@),
            func: Box::new(view_expr(*x.func)),
            args: view_exprs(x.args@),
        },
        Expr::MethodCall(x) => ExprView::MethodCall {
            attrs: attrs_view(x.attrs@),
            receiver: Box::new(view_expr(*x.receiver)),
            method: x.method@,
            args: view_exprs(x.args@),
        },
        Expr::Path(x) => ExprView::Path {
            attrs: attrs_view(x.attrs@),
            qself: opt_string_view(x.qself),
            path: x.path@,
        },
        Expr::Try(x) => ExprView::Try { attrs: attrs_view(x.attrs@), expr: Box::new(view_expr(*x.expr)) },
        Expr::Other(x) => ExprView::Other {
            attrs: attrs_view(x.attrs@),
            kind: x.kind@,
            tokens: x.tokens@,
            children: view_exprs(x.children@),
        },
    }
}

/// The unit expression `()`.
pub open spec fn view_unit() -> ExprView {
    ExprView::Other { attrs: Seq::empty(), kind: TUPLE_KIND@, tokens: Seq::empty(), children: Seq::empty() }
}

impl View for Expr {
    type V = ExprView;

    open spec fn view(&self) -> ExprView {
        view_expr(*self)
    }
}

impl View for Stmt {
    type V = StmtView;

    open spec fn view(&self) -> StmtView {
        view_stmt(*self)
    }
}

impl View for Arm {
    type V = ArmView;

    open spec fn view(&self) -> ArmView {
        view_arm(*self)
    }
}

impl View for Block {
    type V = Seq<StmtView>;

    open spec fn view(&self) -> Seq<StmtView> {
        view_stmts(self.stmts@)
    }
}

/// The kind of a tuple expression in [`ExprOther`].
pub const TUPLE_KIND: &'static str = "tuple";

// ---------------------------------------------------------------------------
// Paths and attributes
// ---------------------------------------------------------------------------
/// The path is exactly the identifier `ident`: no leading `::`, one segment,
/// no generic arguments.
pub open spec fn path_is_ident(p: PathView, ident: Seq<char>) -> bool {
    &&& !p.leading_colon
    &&& p.segments.len() == 1
    &&& !p.segments[0].arguments
    &&& p.segments[0].ident == ident
}

/// Some attribute is named `ident`.
pub open spec fn has_attr(attrs: Seq<AttrView>, ident: Seq<char>) -> bool {
    exists|i: int| 0 <= i < attrs.len() && path_is_ident(#[trigger] attrs[i].path, ident)
}

/// Some attribute is named `ident` and has no tokens after its name.
pub open spec fn has_empty_attr(attrs: Seq<AttrView>, ident: Seq<char>) -> bool {
    exists|i: int|
        0 <= i < attrs.len() && path_is_ident(#[trigger] attrs[i].path, ident) && attrs[i].tokens.len()
            == 0
}

/// The attributes of an expression.
pub open spec fn expr_attrs(e: ExprView) -> Seq<AttrView> {
    match e {
        ExprView::Block { attrs, .. } => attrs,
        ExprView::Unsafe { attrs, .. } => attrs,
        ExprView::Match { attrs, .. } => attrs,
        ExprView::If { attrs, .. } => attrs,
        ExprView::Loop { attrs, .. } => attrs,
        ExprView::ForLoop { attrs, .. } => attrs,
        ExprView::While { attrs, .. } => attrs,
        ExprView::Closure { attrs, .. } => attrs,
        ExprView::Break { attrs, .. } => attrs,
        ExprView::Continue { attrs, .. } => attrs,
        ExprView::Return { attrs, .. } => attrs,
        ExprView::Macro { attrs, .. } => attrs,
        ExprView::Call { attrs, .. } => attrs,
        ExprView::MethodCall { attrs, .. } => attrs,
        ExprView::Path { attrs, .. } => attrs,
        ExprView::Try { attrs, .. } => attrs,
        ExprView::Other { attrs, .. } => attrs,
    }
}

impl Path {
    /// Whether this path is exactly the identifier `ident`.
    pub fn is_ident(&self, ident: &str) -> (r: bool)
        ensures
            r == path_is_ident(self@, ident@),
    {
        if self.leading_colon || self.segments.len() != 1 || self.segments[0].arguments {
            return false;
        }
        let name = String::from_str(ident);
        self.segments[0].ident == name
    }
}

/// Whether some attribute in `attrs` is named `ident`.
pub fn any_attr(attrs: &Vec<Attribute>, ident: &str) -> (r: bool)
    ensures
        r == has_attr(attrs_view(attrs@), ident@),
{
    let mut i: usize = 0;
    while i < attrs.len()
        invariant
            i <= attrs@.len(),
            forall|j: int| 0 <= j < i ==> !path_is_ident(#[trigger] attrs@[j].path@, ident@),
        decreases attrs@.len() - i,
    {
        if attrs[i].path.is_ident(ident) {
            assert(path_is_ident(attrs_view(attrs@)[i as int].path, ident@));
            return true;
        }
        i = i + 1;
    }
    assert forall|j: int| 0 <= j < attrs_view(attrs@).len() implies !path_is_ident(
        #[trigger] attrs_view(attrs@)[j].path,
        ident@,
    ) by {
        assert(attrs_view(attrs@)[j] == attrs@[j]@);
    }
    false
}

/// Whether some attribute in `attrs` is named `ident` and has no tokens.
pub fn any_empty_attr(attrs: &Vec<Attribute>, ident: &str) -> (r: bool)
    ensures
        r == has_empty_attr(attrs_view(attrs@), ident@),
{
    let mut i: usize = 0;
    while i < attrs.len()
        invariant
            i <= attrs@.len(),
            forall|j: int|
                0 <= j < i ==> !(path_is_ident(#[trigger] attrs@[j].path@, ident@) && attrs@[j].tokens@.len()
                    == 0),
        decreases attrs@.len() - i,
    {
        if attrs[i].path.is_ident(ident) && attrs[i].tokens.as_str().is_empty() {
            assert(path_is_ident(attrs_view(attrs@)[i as int].path, ident@));
            return true;
        }
        i = i + 1;
    }
    assert forall|j: int| 0 <= j < attrs_view(attrs@).len() implies !(path_is_ident(
        #[trigger] attrs_view(attrs@)[j].path,
        ident@,
    ) && attrs_view(attrs@)[j].tokens.len() == 0) by {
        assert(attrs_view(attrs@)[j] == attrs@[j]@);
    }
    false
}

impl Expr {
    /// The attributes of this expression.
    pub fn attrs(&self) -> (r: &Vec<Attribute>)
        ensures
            attrs_view(r@) == expr_attrs(self@),
    {
        match self {
            Expr::Block(x) => &x.attrs,
            Expr::Unsafe(x) => &x.attrs,
            Expr::Match(x) => &x.attrs,
            Expr::If(x) => &x.attrs,
            Expr::Loop(x) => &x.attrs,
            Expr::ForLoop(x) => &x.attrs,
            Expr::While(x) => &x.attrs,
            Expr::Closure(x) => &x.attrs,
            Expr::Break(x) => &x.attrs,
            Expr::Continue(x) => &x.attrs,
            Expr::Return(x) => &x.attrs,
            Expr::Macro(x) => &x.attrs,
            Expr::Call(x) => &x.attrs,
            Expr::MethodCall(x) => &x.attrs,
            Expr::Path(x) => &x.attrs,
            Expr::Try(x) => &x.attrs,
            Expr::Other(x) => &x.attrs,
        }
    }

    /// Whether some attribute of this expression is named `ident`.
    pub fn any_attr(&self, ident: &str) -> (r: bool)
        ensures
            r == has_attr(expr_attrs(self@), ident@),
    {
        any_attr(self.attrs(), ident)
    }

    /// Whether some attribute of this expression is named `ident` and has no
    /// tokens.
    pub fn any_empty_attr(&self, ident: &str) -> (r: bool)
        ensures
            r == has_empty_attr(expr_attrs(self@), ident@),
    {
        any_empty_attr(self.attrs(), ident)
    }
}

impl Arm {
    /// Whether some attribute of this arm is named `ident` and has no tokens.
    pub fn any_empty_attr(&self, ident: &str) -> (r: bool)
        ensures
            r == has_empty_attr(self@.attrs, ident@),
    {
        any_empty_attr(&self.attrs, ident)
    }
}

// ---------------------------------------------------------------------------
// Views of sequences, element by element
// ---------------------------------------------------------------------------
pub proof fn lemma_view_stmts_split(v: Seq<Stmt>)
    requires
        v.len() > 0,
    ensures
        view_stmts(v)[0] == view_stmt(v[0]),
        view_stmts(v).drop_first() == view_stmts(v.drop_first()),
        view_stmts(v).len() == v.len(),
{
    assert(view_stmts(v).drop_first() =~= view_stmts(v.drop_first()));
}

pub proof fn lemma_view_stmts_cons(x: Stmt, v: Seq<Stmt>)
    ensures
        view_stmts(seq![x] + v) == seq![view_stmt(x)] + view_stmts(v),
{
    assert(view_stmts(seq![x] + v) =~= seq![view_stmt(x)] + view_stmts(v));
}

pub proof fn lemma_view_exprs_split(v: Seq<Expr>)
    requires
        v.len() > 0,
    ensures
        view_exprs(v)[0] == view_expr(v[0]),
        view_exprs(v).drop_first() == view_exprs(v.drop_first()),
        view_exprs(v).len() == v.len(),
{
    assert(view_exprs(v).drop_first() =~= view_exprs(v.drop_first()));
}

pub proof fn lemma_view_exprs_cons(x: Expr, v: Seq<Expr>)
    ensures
        view_exprs(seq![x] + v) == seq![view_expr(x)] + view_exprs(v),
{
    assert(view_exprs(seq![x] + v) =~= seq![view_expr(x)] + view_exprs(v));
}

pub proof fn lemma_view_arms_split(v: Seq<Arm>)
    requires
        v.len() > 0,
    ensures
        view_arms(v)[0] == view_arm(v[0]),
        view_arms(v).drop_first() == view_arms(v.drop_first()),
        view_arms(v).len() == v.len(),
{
    assert(view_arms(v).drop_first() =~= view_arms(v.drop_first()));
}

pub proof fn lemma_view_arms_cons(x: Arm, v: Seq<Arm>)
    ensures
        view_arms(seq![x] + v) == seq![view_arm(x)] + view_arms(v),
{
    assert(view_arms(seq![x] + v) =~= seq![view_arm(x)] + view_arms(v));
}

} // verus!
