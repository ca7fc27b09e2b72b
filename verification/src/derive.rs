//! What the derives of `#[enum_derive(..)]` hand to the code that writes an
//! impl for each variant: the trait's path and its definition, with the paths
//! of std written from the root that the generated code names std by.
//!
//! Tokens are kept as their text.
pub mod deref_mut;
pub mod buf_read;
pub mod extend;
pub mod stream;

use vstd::prelude::*;

verus! {

/// The text of each string, in order.
pub open spec fn texts(v: Seq<String>) -> Seq<Seq<char>> {
    v.map_values(|s: String| s@)
}

/// The root of std's paths in generated code.
pub const STD_ROOT: &'static str = "::std";

/// The path that generated code names std by.
pub fn std_root() -> (r: String)
    ensures
        r@ == STD_ROOT@,
{
    String::from_str(STD_ROOT)
}

/// A copy of each string, in order.
pub fn clone_texts(v: &Vec<String>) -> (r: Vec<String>)
    ensures
        texts(r@) == texts(v@),
{
    let mut r: Vec<String> = Vec::new();
    let mut i: usize = 0;
    while i < v.len()
        invariant
            i <= v@.len(),
            texts(r@) == texts(v@).take(i as int),
        decreases v@.len() - i,
    {
        let s = v[i].clone();
        let ghost before = r@;
        r.push(s);
        assert(texts(r@) =~= texts(before).push(v@[i as int]@));
        assert(texts(r@) =~= texts(v@).take(i + 1));
        i = i + 1;
    }
    assert(texts(v@).take(v@.len() as int) =~= texts(v@));
    r
}

/// An enum whose variants each hold one field, as the derives read it. Each
/// part is the text of its tokens.
pub struct EnumData {
    pub name: String,
    /// The generic parameters, with their bounds: `A: Clone`.
    pub impl_generics: Vec<String>,
    /// The generic arguments of the enum's type: `A`.
    pub ty_generics: Vec<String>,
    /// The predicates of the enum's `where` clause.
    pub where_clause: Vec<String>,
    /// The path of each variant: `Enum::A`.
    pub variants: Vec<String>,
    /// The type of each variant's field.
    pub fields: Vec<String>,
}

pub struct EnumDataView {
    pub name: Seq<char>,
    pub impl_generics: Seq<Seq<char>>,
    pub ty_generics: Seq<Seq<char>>,
    pub where_clause: Seq<Seq<char>>,
    pub variants: Seq<Seq<char>>,
    pub fields: Seq<Seq<char>>,
}

impl View for EnumData {
    type V = EnumDataView;

    open spec fn view(&self) -> EnumDataView {
        EnumDataView {
            name: self.name@,
            impl_generics: texts(self.impl_generics@),
            ty_generics: texts(self.ty_generics@),
            where_clause: texts(self.where_clause@),
            variants: texts(self.variants@),
            fields: texts(self.fields@),
        }
    }
}

impl EnumData {
    /// A copy of the enum's parts.
    pub fn copy(&self) -> (r: EnumData)
        ensures
            r@ == self@,
    {
        EnumData {
            name: self.name.clone(),
            impl_generics: clone_texts(&self.impl_generics),
            ty_generics: clone_texts(&self.ty_generics),
            where_clause: clone_texts(&self.where_clause),
            variants: clone_texts(&self.variants),
            fields: clone_texts(&self.fields),
        }
    }
}

/// The definition of a trait: `trait name<generics> { items }`.
pub struct TraitDef {
    pub name: String,
    pub generics: Vec<String>,
    /// The text of each item, attributes included.
    pub items: Vec<String>,
}

pub struct TraitDefView {
    pub name: Seq<char>,
    pub generics: Seq<Seq<char>>,
    pub items: Seq<Seq<char>>,
}

impl View for TraitDef {
    type V = TraitDefView;

    open spec fn view(&self) -> TraitDefView {
        TraitDefView { name: self.name@, generics: texts(self.generics@), items: texts(self.items@) }
    }
}

/// What a derive sets itself where it does not leave it to the defaults: the
/// number of items the impl is built with room for, the root of std's paths,
/// and the types whose supertraits the impl also bounds.
pub struct ImplSettings {
    pub capacity: usize,
    pub root: String,
    pub supertraits: Vec<String>,
}

pub struct ImplSettingsView {
    pub capacity: nat,
    pub root: Seq<char>,
    pub supertraits: Seq<Seq<char>>,
}

impl View for ImplSettings {
    type V = ImplSettingsView;

    open spec fn view(&self) -> ImplSettingsView {
        ImplSettingsView {
            capacity: self.capacity as nat,
            root: self.root@,
            supertraits: texts(self.supertraits@),
        }
    }
}

/// A request to implement a trait for the enum of `data` by delegating each
/// method to the variants.
pub struct TraitDerive {
    pub data: EnumData,
    pub trait_path: String,
    pub definition: TraitDef,
    pub settings: Option<ImplSettings>,
}

pub struct TraitDeriveView {
    pub data: EnumDataView,
    pub trait_path: Seq<char>,
    pub definition: TraitDefView,
    pub settings: Option<ImplSettingsView>,
}

impl View for TraitDerive {
    type V = TraitDeriveView;

    open spec fn view(&self) -> TraitDeriveView {
        TraitDeriveView {
            data: self.data@,
            trait_path: self.trait_path@,
            definition: self.definition@,
            settings: match self.settings {
                Some(s) => Some(s@),
                None => None,
            },
        }
    }
}

/// `a + b`, as a new string.
pub(crate) fn concat2(a: &str, b: &str) -> (r: String)
    ensures
        r@ == a@ + b@,
{
    let mut s = String::from_str(a);
    s.append(b);
    s
}

/// `a + b + c`, as a new string.
pub(crate) fn concat3(a: &str, b: &str, c: &str) -> (r: String)
    ensures
        r@ == a@ + b@ + c@,
{
    let mut s = concat2(a, b);
    s.append(c);
    s
}

} // verus!
