//! Small helpers: building syntax nodes, removing the first matching element
//! of a vector, identifiers, and the error type of the rewriting.

use crate::syntax::{
    AttrView, Attribute, Block, Expr, ExprBlock, ExprCall, ExprPath, ExprView, Path, PathSegment,
    PathView, SegmentView, Stmt, StmtView, attrs_view, view_stmts, ExprOther, TUPLE_KIND, view_unit,
    view_exprs,
};
use proc_macro2::{Ident, Span};
use crate::derive::{TraitDerive, TraitDeriveView};
use smallvec::SmallVec;
use vstd::prelude::*;

verus! {

// ---------------------------------------------------------------------------
// Errors
// ---------------------------------------------------------------------------
/// Why an expression cannot be rewritten.
#[derive(PartialEq, Eq, Structural, Clone, Copy, Debug)]
pub enum Error {
    /// The `else` of an `if` is followed by something that is neither a block
    /// nor another `if`.
    ElseNotBlockOrIf,
    /// An `if` that has to produce a value has no `else`.
    MissingElse,
}

pub type Result<T> = core::result::Result<T, Error>;

/// The message of `invalid_expr` for each error.
pub open spec fn error_message(e: Error) -> Seq<char> {
    match e {
        Error::ElseNotBlockOrIf => "invalid expression: after of `else` required `{` or `if`"@,
        Error::MissingElse => "invalid expression: `if` expression missing an else clause"@,
    }
}

impl Error {
    /// The message that the error is reported with.
    pub fn message(&self) -> (r: String)
        ensures
            r@ == error_message(*self),
    {
        match self {
            Error::ElseNotBlockOrIf => String::from_str(
                "invalid expression: after of `else` required `{` or `if`",
            ),
            Error::MissingElse => String::from_str(
                "invalid expression: `if` expression missing an else clause",
            ),
        }
    }
}

// ---------------------------------------------------------------------------
// Stacks
// ---------------------------------------------------------------------------
/// A vector that keeps its first eight elements inline.
#[verifier::external_body]
#[verifier::reject_recursive_types(T)]
pub struct Stack<T> {
    items: SmallVec<[T; 8]>,
}

/// The requests on a stack of derives, from the bottom up.
pub uninterp spec fn stack_items(stack: Stack<TraitDerive>) -> Seq<TraitDeriveView>;

/// `SmallVec::new`: an empty stack.
#[verifier::external_body]
fn new_stack() -> (r: Stack<TraitDerive>)
    ensures
        stack_items(r) == Seq::<TraitDeriveView>::empty(),
{
    Stack { items: SmallVec::new() }
}

/// `SmallVec::push`: appends `item` at the top of the stack. When the buffer
/// is full the source grows it to the next power of two above the length, and
/// panics if that many elements overflow the largest allocation; the stack
/// would then already fill half of the address space. The contract does not
/// state that limit.
#[verifier::external_body]
pub(crate) fn push_stack(stack: &mut Stack<TraitDerive>, item: TraitDerive)
    ensures
        stack_items(*final(stack)) == stack_items(*old(stack)).push(item@),
{
    stack.items.push(item)
}

/// `SmallVec::into_vec`: the elements in a `Vec`, in the same order.
#[verifier::external_body]
fn stack_into_vec(stack: Stack<TraitDerive>) -> (r: Vec<TraitDerive>)
    ensures
        r@.map_values(|x: TraitDerive| x@) == stack_items(stack),
{
    stack.items.into_vec()
}

impl Stack<TraitDerive> {
    /// An empty stack.
    pub fn new() -> (r: Self)
        ensures
            stack_items(r) == Seq::<TraitDeriveView>::empty(),
    {
        new_stack()
    }

    /// The requests, from the bottom up.
    pub fn into_vec(self) -> (r: Vec<TraitDerive>)
        ensures
            r@.map_values(|x: TraitDerive| x@) == stack_items(self),
    {
        stack_into_vec(self)
    }
}

// ---------------------------------------------------------------------------
// Default values
// ---------------------------------------------------------------------------
/// `T::default()`.
pub fn default<T: Default>() -> (r: T)
    ensures
        call_ensures(T::default, (), r),
{
    T::default()
}

// ---------------------------------------------------------------------------
// Removing from a vector
// ---------------------------------------------------------------------------
/// What `find_remove` gives back: the index of the first element for which the
/// predicate is true, if there is one.
pub open spec fn first_match<T, P: Fn(&T) -> bool>(v: Seq<T>, predicate: P, i: int) -> bool {
    &&& 0 <= i < v.len()
    &&& call_ensures(predicate, (&v[i],), true)
    &&& forall|j: int| 0 <= j < i ==> call_ensures(predicate, (&v[j],), false)
}

pub trait VecExt<T>: Sized {
    /// Removes the first element for which `predicate` holds, keeping the order
    /// of the others, and returns it; returns `None` and leaves the vector as it
    /// was when there is none.
    fn find_remove<P>(&mut self, predicate: P) -> (r: Option<T>) where
        P: Fn(&T) -> bool,
        requires
            forall|x: &T| predicate.requires((x,)),
        ensures
            match r {
                Some(x) => exists|i: int|
                    {
                        &&& first_match(old(self).seq_of(), predicate, i)
                        &&& x == old(self).seq_of()[i]
                        &&& final(self).seq_of() == old(self).seq_of().remove(i)
                    },
                None => {
                    &&& final(self).seq_of() == old(self).seq_of()
                    &&& forall|j: int|
                        0 <= j < old(self).seq_of().len() ==> call_ensures(
                            predicate,
                            (&old(self).seq_of()[j],),
                            false,
                        )
                },
            },
    ;

    /// The elements, in order.
    spec fn seq_of(&self) -> Seq<T>;
}

/// The element at `index`, removed; for one or two elements by `pop` and
/// `swap_remove`, which keep the order of what is left as `remove` does.
fn remove<T>(v: &mut Vec<T>, index: usize) -> (r: T)
    requires
        index < old(v)@.len(),
    ensures
        r == old(v)@[index as int],
        final(v)@ == old(v)@.remove(index as int),
{
    match v.len() {
        1 => v.pop().unwrap(),
        2 => v.swap_remove(index),
        _ => v.remove(index),
    }
}

impl<T> VecExt<T> for Vec<T> {
    open spec fn seq_of(&self) -> Seq<T> {
        self@
    }

    fn find_remove<P>(&mut self, predicate: P) -> (r: Option<T>) where P: Fn(&T) -> bool {
        let mut i: usize = 0;
        while i < self.len()
            invariant
                i <= self@.len(),
                self@ == old(self)@,
                forall|x: &T| predicate.requires((x,)),
                forall|j: int| 0 <= j < i ==> call_ensures(predicate, (&self@[j],), false),
            decreases self@.len() - i,
        {
            if predicate(&self[i]) {
                let ghost before = self@;
                let x = remove(self, i);
                assert(first_match(before, predicate, i as int));
                assert({
                    &&& first_match(old(self).seq_of(), predicate, i as int)
                    &&& x == old(self).seq_of()[i as int]
                    &&& self.seq_of() == old(self).seq_of().remove(i as int)
                });
                return Some(x);
            }
            i = i + 1;
        }
        None
    }
}

// ---------------------------------------------------------------------------
// Identifiers
// ---------------------------------------------------------------------------
#[verifier::external_type_specification]
#[verifier::external_body]
pub struct ExIdent(Ident);

/// The text that an identifier is printed as (its `Display`).
pub uninterp spec fn ident_text(ident: Ident) -> Seq<char>;

/// Whether `c` has the Unicode property `XID_Start`.
pub uninterp spec fn xid_start(c: char) -> bool;

/// Whether `c` has the Unicode property `XID_Continue`.
pub uninterp spec fn xid_continue(c: char) -> bool;

/// `unicode_ident::is_xid_start(c)`.
#[verifier::external_body]
fn is_xid_start(c: char) -> (r: bool)
    ensures
        r == xid_start(c),
{
    unicode_ident::is_xid_start(c)
}

/// `unicode_ident::is_xid_continue(c)`.
#[verifier::external_body]
fn is_xid_continue(c: char) -> (r: bool)
    ensures
        r == xid_continue(c),
{
    unicode_ident::is_xid_continue(c)
}

/// An identifier as `Ident::new` accepts one: `_` or an `XID_Start`
/// character, followed by `XID_Continue` characters.
pub open spec fn is_ident_text(s: Seq<char>) -> bool {
    &&& s.len() > 0
    &&& (s[0] == '_' || xid_start(s[0]))
    &&& forall|i: int| 1 <= i < s.len() ==> xid_continue(#[trigger] s[i])
}

/// An identifier made of ASCII characters only: a letter or `_` followed by
/// letters, digits and `_`.
pub open spec fn is_ascii_ident(s: Seq<char>) -> bool {
    &&& s.len() > 0
    &&& ('a' <= s[0] <= 'z' || 'A' <= s[0] <= 'Z' || s[0] == '_')
    &&& forall|i: int|
        1 <= i < s.len() ==> ('a' <= #[trigger] s[i] <= 'z' || 'A' <= s[i] <= 'Z' || '0' <= s[i]
            <= '9' || s[i] == '_')
}

/// `proc_macro2::Ident::new(s, Span::call_site())`. It panics unless `s` is an
/// identifier (`_` or `XID_Start`, then `XID_Continue`), which `requires`
/// rules out. The identifier prints as `s` when made outside a procedural
/// macro; inside one, the compiler may normalise non-ASCII text, so the
/// printed text is claimed for ASCII identifiers only.
#[verifier::external_body]
fn new_ident_call_site(s: &str) -> (r: Ident)
    requires
        is_ident_text(s@),
    ensures
        is_ascii_ident(s@) ==> ident_text(r) == s@,
{
    Ident::new(s, Span::call_site())
}

/// `ident.to_string()`: the text that `Display` prints for the identifier.
#[verifier::external_body]
pub(crate) fn ident_to_string(ident: &Ident) -> (r: String)
    ensures
        r@ == ident_text(*ident),
{
    ident.to_string()
}

/// An identifier with call-site hygiene; one of ASCII characters prints as
/// `s`.
pub fn ident_call_site(s: &str) -> (r: Ident)
    requires
        is_ident_text(s@),
    ensures
        is_ascii_ident(s@) ==> ident_text(r) == s@,
{
    new_ident_call_site(s)
}

/// Whether `s` is an identifier that `ident_call_site` accepts.
pub fn is_ident(s: &str) -> (r: bool)
    ensures
        r == is_ident_text(s@),
{
    let n = s.unicode_len();
    if n == 0 {
        return false;
    }
    let c0 = s.get_char(0);
    if !(c0 == '_' || is_xid_start(c0)) {
        return false;
    }
    let mut i: usize = 1;
    while i < n
        invariant
            n == s@.len(),
            1 <= i <= n,
            forall|j: int| 1 <= j < i ==> xid_continue(#[trigger] s@[j]),
        decreases n - i,
    {
        let c = s.get_char(i);
        if !is_xid_continue(c) {
            assert(!xid_continue(s@[i as int]));
            return false;
        }
        i = i + 1;
    }
    true
}

/// The identifier `s` with call-site hygiene, or `None` where `s` is not an
/// identifier.
pub fn checked_ident_call_site(s: &str) -> (r: Option<Ident>)
    ensures
        r is Some <==> is_ident_text(s@),
        r matches Some(i) ==> (is_ascii_ident(s@) ==> ident_text(i) == s@),
{
    if is_ident(s) {
        Some(ident_call_site(s))
    } else {
        None
    }
}

// ---------------------------------------------------------------------------
// Building syntax
// ---------------------------------------------------------------------------
/// A path of the given segments, without a leading `::`.
pub fn path(segments: Vec<PathSegment>) -> (r: Path)
    ensures
        r@ == (PathView { leading_colon: false, segments: segments@.map_values(|s: PathSegment| s@) }),
{
    Path { leading_colon: false, segments }
}

/// A block of the given statements.
pub fn block(stmts: Vec<Stmt>) -> (r: Block)
    ensures
        r@ == view_stmts(stmts@),
        r.stmts == stmts,
{
    Block { stmts }
}

/// The unit expression `()`.
pub fn unit() -> (r: Expr)
    ensures
        r@ == view_unit(),
{
    let r = Expr::Other(
        ExprOther {
            attrs: Vec::new(),
            kind: String::from_str(TUPLE_KIND),
            tokens: String::new(),
            children: Vec::new(),
        },
    );
    assert(attrs_view(Seq::<Attribute>::empty()) =~= Seq::<AttrView>::empty());
    assert(view_exprs(Seq::<Expr>::empty()) =~= Seq::<ExprView>::empty());
    r
}

/// The block expression `{ block }`, without attributes or label.
pub open spec fn block_expr_view(stmts: Seq<StmtView>) -> ExprView {
    ExprView::Block { attrs: Seq::empty(), label: None, stmts }
}

/// The expression `{ block }`.
pub fn expr_block(block: Block) -> (r: Expr)
    ensures
        r@ == block_expr_view(block@),
{
    let r = Expr::Block(ExprBlock { attrs: Vec::new(), label: None, block });
    assert(attrs_view(Seq::<Attribute>::empty()) =~= Seq::<AttrView>::empty());
    r
}

/// The call `path(arg)` with the given attributes: the path has no attributes
/// and no qualified self type.
pub open spec fn call_view(attrs: Seq<AttrView>, path: PathView, arg: ExprView) -> ExprView {
    ExprView::Call {
        attrs,
        func: Box::new(ExprView::Path { attrs: Seq::empty(), qself: None, path }),
        args: seq![arg],
    }
}

/// The expression `path(args)` with one argument.
pub fn expr_call(attrs: Vec<Attribute>, path: Path, args: Expr) -> (r: Expr)
    ensures
        r@ == call_view(attrs_view(attrs@), path@, args@),
{
    let ghost a = args@;
    let ghost pv = path@;
    let ghost av = attrs_view(attrs@);
    let mut v: Vec<Expr> = Vec::new();
    v.push(args);
    assert(crate::syntax::view_exprs(v@) =~= seq![a]);
    let ghost vv = v@;
    let func = Expr::Path(ExprPath { attrs: Vec::new(), qself: None, path });
    assert(attrs_view(Seq::<Attribute>::empty()) =~= Seq::<AttrView>::empty());
    assert(func@ == ExprView::Path { attrs: Seq::empty(), qself: None, path: pv });
    let r = Expr::Call(ExprCall { attrs, func: Box::new(func), args: v });
    assert(r@ == call_view(av, pv, a));
    r
}

} // verus!
