//! The state that the rewriting carries: the builder of the generated enum,
//! which numbers its variants, and the marker macro.
use crate::syntax::{Path, AttrView, Attribute, attrs_view, Expr, ExprView, Macro, PathSegment, PathView, SegmentView, path_is_ident};
use crate::utils::{call_view, expr_call, ident_text, ident_to_string, path};
use proc_macro2::Ident;
use vstd::prelude::*;

verus! {

// ---------------------------------------------------------------------------
// Variant names
// ---------------------------------------------------------------------------
/// The decimal digit `d`.
pub open spec fn digit_char(d: nat) -> char {
    if d == 0 {
        '0'
    } else if d == 1 {
        '1'
    } else if d == 2 {
        '2'
    } else if d == 3 {
        '3'
    } else if d == 4 {
        '4'
    } else if d == 5 {
        '5'
    } else if d == 6 {
        '6'
    } else if d == 7 {
        '7'
    } else if d == 8 {
        '8'
    } else {
        '9'
    }
}

/// `n` written in decimal, without leading zeros.
pub open spec fn decimal(n: nat) -> Seq<char>
    decreases n,
{
    if n < 10 {
        seq![digit_char(n)]
    } else {
        decimal(n / 10).push(digit_char(n % 10))
    }
}

/// The prefix of every variant name.
pub const VARIANT_PREFIX: &'static str = "__T";

/// The name of the `k`-th variant of the generated enum: `__T0`, `__T1`, ...
pub open spec fn variant_name(k: nat) -> Seq<char> {
    VARIANT_PREFIX@ + decimal(k)
}

proof fn lemma_decimal_len(n: nat)
    ensures
        decimal(n).len() >= 1,
        n >= 10 ==> decimal(n).len() >= 2,
    decreases n,
{
    if n >= 10 {
        lemma_decimal_len(n / 10);
    }
}

proof fn lemma_decimal_injective(a: nat, b: nat)
    requires
        decimal(a) == decimal(b),
    ensures
        a == b,
    decreases a,
{
    lemma_decimal_len(a);
    lemma_decimal_len(b);
    if a >= 10 && b >= 10 {
        let da = decimal(a);
        let db = decimal(b);
        assert(da.last() == digit_char(a % 10));
        assert(db.last() == digit_char(b % 10));
        assert(da.drop_last() == decimal(a / 10));
        assert(db.drop_last() == decimal(b / 10));
        lemma_decimal_injective(a / 10, b / 10);
    } else if a < 10 && b < 10 {
        assert(decimal(a)[0] == digit_char(a));
        assert(decimal(b)[0] == digit_char(b));
    }
}

/// Different variants have different names.
pub proof fn law_variant_names_distinct(i: nat, j: nat)
    requires
        i != j,
    ensures
        variant_name(i) != variant_name(j),
{
    if variant_name(i) == variant_name(j) {
        let p = VARIANT_PREFIX@.len() as int;
        assert(variant_name(i).subrange(p, variant_name(i).len() as int) =~= decimal(i));
        assert(variant_name(j).subrange(p, variant_name(j).len() as int) =~= decimal(j));
        lemma_decimal_injective(i, j);
    }
}

fn digit_str(d: usize) -> (r: &'static str)
    requires
        d < 10,
    ensures
        r@ == seq![digit_char(d as nat)],
{
    proof {
        reveal_strlit("0");
        reveal_strlit("1");
        reveal_strlit("2");
        reveal_strlit("3");
        reveal_strlit("4");
        reveal_strlit("5");
        reveal_strlit("6");
        reveal_strlit("7");
        reveal_strlit("8");
        reveal_strlit("9");
    }
    match d {
        0 => "0",
        1 => "1",
        2 => "2",
        3 => "3",
        4 => "4",
        5 => "5",
        6 => "6",
        7 => "7",
        8 => "8",
        _ => "9",
    }
}

/// `n` written in decimal.
pub fn decimal_string(n: usize) -> (r: String)
    ensures
        r@ == decimal(n as nat),
    decreases n,
{
    if n < 10 {
        String::from_str(digit_str(n))
    } else {
        let mut s = decimal_string(n / 10);
        s.append(digit_str(n % 10));
        s
    }
}

/// The name of the `k`-th variant.
pub fn variant_ident(k: usize) -> (r: String)
    ensures
        r@ == variant_name(k as nat),
{
    let mut s = String::from_str(VARIANT_PREFIX);
    let d = decimal_string(k);
    s.append(d.as_str());
    s
}

// ---------------------------------------------------------------------------
// The builder of the generated enum
// ---------------------------------------------------------------------------
/// The generated enum: its name, and the variants handed out so far, the
/// `k`-th named `variant_name(k)`.
pub struct Builder {
    ident: String,
    variants: Vec<String>,
}

pub struct BuilderView {
    pub ident: Seq<char>,
    pub variants: Seq<Seq<char>>,
}

impl BuilderView {
    /// The number of variants handed out.
    pub open spec fn len(self) -> nat {
        self.variants.len()
    }

    /// The variants handed out after the first `from`: `variant_name(k)` for
    /// each `k` from `from`, in order.
    pub open spec fn numbered_from(self, from: nat) -> bool {
        &&& from <= self.variants.len()
        &&& forall|k: int| from <= k < self.variants.len() ==> #[trigger] self.variants[k] == variant_name(k as nat)
    }
}

impl View for Builder {
    type V = BuilderView;

    closed spec fn view(&self) -> BuilderView {
        BuilderView { ident: self.ident@, variants: self.variants@.map_values(|v: String| v@) }
    }
}

/// The names of the variants numbered `from` up to `to`, in order.
pub open spec fn names(from: nat, to: nat) -> Seq<Seq<char>> {
    Seq::new((to - from) as nat, |k: int| variant_name((from + k) as nat))
}

/// `new` is `old` after handing out the variants up to `to`: same enum, the
/// variants of `old` followed by the next ones in order.
pub open spec fn grown(old: BuilderView, new: BuilderView, to: nat) -> bool {
    &&& new.ident == old.ident
    &&& old.len() <= to
    &&& new.variants == old.variants + names(old.len(), to)
}

/// Handing out variants in two steps is handing them out in one.
pub broadcast proof fn lemma_grown_trans(a: BuilderView, b: BuilderView, c: BuilderView, n1: nat, n2: nat)
    requires
        #[trigger] grown(a, b, n1),
        #[trigger] grown(b, c, n2),
    ensures
        grown(a, c, n2),
{
    assert(a.variants + names(a.len(), n1) + names(n1, n2) =~= a.variants + names(a.len(), n2));
}

/// Handing out no variant.
pub proof fn lemma_grown_refl(a: BuilderView)
    ensures
        grown(a, a, a.len()),
{
    assert(a.variants + names(a.len(), a.len()) =~= a.variants);
}

/// The path `ident::variant_name(k)`.
pub open spec fn variant_path(ident: Seq<char>, k: nat) -> PathView {
    PathView {
        leading_colon: false,
        segments: seq![
            SegmentView { ident, arguments: false },
            SegmentView { ident: variant_name(k), arguments: false },
        ],
    }
}

/// `e` wrapped in the `k`-th variant of the enum named `ident`:
/// `ident::__Tk(e)`.
pub open spec fn wrap(e: ExprView, ident: Seq<char>, k: nat) -> ExprView {
    call_view(Seq::empty(), variant_path(ident, k), e)
}

impl Builder {
    /// A builder of the enum named `ident`, with no variants yet.
    pub fn new(ident: &Ident) -> (r: Builder)
        ensures
            r@.ident == ident_text(*ident),
            r@.variants == Seq::<Seq<char>>::empty(),
    {
        Builder { ident: ident_to_string(ident), variants: Vec::new() }
    }

    /// A builder that stands in for another while that one is lent out: an
    /// enum with an empty name and no variants.
    pub(crate) fn placeholder() -> (r: Builder)
        ensures
            r@.ident == Seq::<char>::empty(),
            r@.variants == Seq::<Seq<char>>::empty(),
    {
        let r = Builder { ident: String::new(), variants: Vec::new() };
        assert(r@.variants =~= Seq::<Seq<char>>::empty());
        r
    }

    /// The name of the enum.
    pub fn ident(&self) -> (r: &String)
        ensures
            r@ == self@.ident,
    {
        &self.ident
    }

    /// The names of the variants handed out so far, in order.
    pub fn variants(&self) -> (r: &Vec<String>)
        ensures
            r@.map_values(|v: String| v@) == self@.variants,
    {
        &self.variants
    }

    /// The path of a new variant of the enum: the next one in order.
    pub fn next_path(&mut self) -> (r: Path)
        ensures
            grown(old(self)@, final(self)@, old(self)@.len() + 1),
            r@ == variant_path(old(self)@.ident, old(self)@.len()),
    {
        let k = self.variants.len();
        let variant = variant_ident(k);
        let mut segments: Vec<PathSegment> = Vec::new();
        segments.push(PathSegment { ident: self.ident.clone(), arguments: false });
        segments.push(PathSegment { ident: variant.clone(), arguments: false });
        assert(segments@.map_values(|s: PathSegment| s@) =~= variant_path(self.ident@, k as nat).segments);
        let p = path(segments);
        self.variants.push(variant);
        assert(self@.variants =~= old(self)@.variants + names(k as nat, (k + 1) as nat));
        p
    }

    /// `expr` wrapped in a new variant of the enum: the next one in order.
    pub fn next_expr(&mut self, expr: Expr) -> (r: Expr)
        ensures
            grown(old(self)@, final(self)@, old(self)@.len() + 1),
            r@ == wrap(expr@, old(self)@.ident, old(self)@.len()),
    {
        let p = self.next_path();
        let attrs: Vec<Attribute> = Vec::new();
        assert(attrs_view(attrs@) =~= Seq::<AttrView>::empty());
        expr_call(attrs, p, expr)
    }
}

// ---------------------------------------------------------------------------
// The marker macro
// ---------------------------------------------------------------------------
/// The macro that marks an expression as already belonging to the enum.
pub struct Marker {
    pub ident: String,
}

impl Marker {
    /// Whether `mac` is an invocation of the marker macro.
    pub fn marker_macro(&self, mac: &Macro) -> (r: bool)
        ensures
            r == path_is_ident(mac.path@, self.ident@),
    {
        mac.path.is_ident(self.ident.as_str())
    }
}

/// The parameters of the attribute that the rewriting reads.
pub struct Params {
    pub marker: Marker,
}

impl Params {
    pub fn marker(&self) -> (r: &Marker)
        ensures
            r == &self.marker,
    {
        &self.marker
    }
}

} // verus!
