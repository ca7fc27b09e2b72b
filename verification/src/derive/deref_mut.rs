//! `#[enum_derive(DerefMut)]`: an impl of `DerefMut` whose `deref_mut` forwards
//! to the one field of whichever variant the value is.
use crate::derive::{clone_texts, concat2, concat3, std_root, texts, EnumData, EnumDataView};
use vstd::prelude::*;

verus! {

/// `impl<impl_generics> trait_path for name<ty_generics> where where_clause {
/// fn deref_mut(&mut self) -> &mut Self::Target { match self { arms } } }`.
pub struct DerefMutImpl {
    pub impl_generics: Vec<String>,
    pub trait_path: String,
    pub name: String,
    pub ty_generics: Vec<String>,
    pub where_clause: Vec<String>,
    /// Each arm of the `match`.
    pub arms: Vec<String>,
}

pub struct DerefMutImplView {
    pub impl_generics: Seq<Seq<char>>,
    pub trait_path: Seq<char>,
    pub name: Seq<char>,
    pub ty_generics: Seq<Seq<char>>,
    pub where_clause: Seq<Seq<char>>,
    pub arms: Seq<Seq<char>>,
}

impl View for DerefMutImpl {
    type V = DerefMutImplView;

    open spec fn view(&self) -> DerefMutImplView {
        DerefMutImplView {
            impl_generics: texts(self.impl_generics@),
            trait_path: self.trait_path@,
            name: self.name@,
            ty_generics: texts(self.ty_generics@),
            where_clause: texts(self.where_clause@),
            arms: texts(self.arms@),
        }
    }
}

/// The parameter that the impl adds: the target type of every field.
pub const TARGET_PARAM: &'static str = "__T: ?Sized";

/// `root::ops::DerefMut`.
pub open spec fn deref_mut_path(root: Seq<char>) -> Seq<char> {
    root + "::ops::DerefMut"@
}

/// The bound that each field gets: `field: trait_<Target = __T>`.
pub open spec fn field_bound(field: Seq<char>, trait_: Seq<char>) -> Seq<char> {
    field + ": "@ + trait_ + "<Target = __T>"@
}

/// The arm for each variant: `variant(x) => x.deref_mut()`.
pub open spec fn variant_arm(variant: Seq<char>) -> Seq<char> {
    variant + "(x) => x.deref_mut()"@
}

/// What `deref_mut` builds from `data` with std named by `root`.
pub open spec fn deref_mut_impl(data: EnumDataView, root: Seq<char>) -> DerefMutImplView {
    let trait_ = deref_mut_path(root);
    DerefMutImplView {
        impl_generics: data.impl_generics.push(TARGET_PARAM@),
        trait_path: trait_,
        name: data.name,
        ty_generics: data.ty_generics,
        where_clause: data.where_clause + data.fields.map_values(|f: Seq<char>| field_bound(f, trait_)),
        arms: data.variants.map_values(|v: Seq<char>| variant_arm(v)),
    }
}

/// The impl of `DerefMut` for the enum of `data`: the enum's own predicates
/// followed by one bound per field, and one arm per variant, in order.
pub fn deref_mut(data: &EnumData, root: &str) -> (r: DerefMutImpl)
    ensures
        r@ == deref_mut_impl(data@, root@),
{
    let trait_ = concat2(root, "::ops::DerefMut");
    let mut impl_generics = clone_texts(&data.impl_generics);
    impl_generics.push(String::from_str(TARGET_PARAM));
    let mut where_clause = clone_texts(&data.where_clause);
    let ghost base = texts(data.where_clause@);
    let ghost fields = data@.fields;
    let mut i: usize = 0;
    while i < data.fields.len()
        invariant
            i <= data.fields@.len(),
            fields == texts(data.fields@),
            trait_@ == deref_mut_path(root@),
            texts(where_clause@) == base + fields.take(i as int).map_values(
                |f: Seq<char>| field_bound(f, trait_@),
            ),
        decreases data.fields@.len() - i,
    {
        let b = concat3(data.fields[i].as_str(), ": ", trait_.as_str());
        let mut b = b;
        b.append("<Target = __T>");
        assert(b@ == field_bound(fields[i as int], trait_@));
        let ghost before = where_clause@;
        where_clause.push(b);
        assert(texts(where_clause@) =~= texts(before).push(field_bound(fields[i as int], trait_@)));
        assert(fields.take(i + 1) =~= fields.take(i as int).push(fields[i as int]));
        assert(texts(where_clause@) =~= base + fields.take(i + 1).map_values(
            |f: Seq<char>| field_bound(f, trait_@),
        ));
        i = i + 1;
    }
    assert(fields.take(fields.len() as int) =~= fields);
    let ghost variants = data@.variants;
    let mut arms: Vec<String> = Vec::new();
    let mut j: usize = 0;
    while j < data.variants.len()
        invariant
            j <= data.variants@.len(),
            variants == texts(data.variants@),
            texts(arms@) == variants.take(j as int).map_values(|v: Seq<char>| variant_arm(v)),
        decreases data.variants@.len() - j,
    {
        let a = concat2(data.variants[j].as_str(), "(x) => x.deref_mut()");
        assert(a@ == variant_arm(variants[j as int]));
        let ghost before = arms@;
        arms.push(a);
        assert(texts(arms@) =~= texts(before).push(variant_arm(variants[j as int])));
        assert(variants.take(j + 1) =~= variants.take(j as int).push(variants[j as int]));
        assert(texts(arms@) =~= variants.take(j + 1).map_values(|v: Seq<char>| variant_arm(v)));
        j = j + 1;
    }
    assert(variants.take(variants.len() as int) =~= variants);
    let r = DerefMutImpl {
        impl_generics,
        trait_path: trait_,
        name: data.name.clone(),
        ty_generics: clone_texts(&data.ty_generics),
        where_clause,
        arms,
    };
    assert(r@.impl_generics =~= data@.impl_generics.push(TARGET_PARAM@));
    r
}

/// The derive of `DerefMut` for a parsed enum, with std's paths written from
/// `std_root`.
pub fn enum_derive(data: &EnumData) -> (r: DerefMutImpl)
    ensures
        r@ == deref_mut_impl(data@, crate::derive::STD_ROOT@),
{
    let root = std_root();
    deref_mut(data, root.as_str())
}

/// The impl that `deref_mut` builds, part by part, for every enum: the
/// enum's generic parameters and then `__T: ?Sized`; the enum's own
/// predicates and then exactly one bound `f: root::ops::DerefMut<Target = __T>`
/// for each field `f`, in order, whether or not the enum has a `where` clause;
/// and one arm `v(x) => x.deref_mut()` for each variant `v`, in order.
pub proof fn law_deref_mut_parts(data: EnumDataView, root: Seq<char>)
    ensures
        ({
            let r = deref_mut_impl(data, root);
            let w = data.where_clause.len();
            &&& r.trait_path == root + "::ops::DerefMut"@
            &&& r.name == data.name
            &&& r.ty_generics == data.ty_generics
            &&& r.impl_generics.len() == data.impl_generics.len() + 1
            &&& (forall|j: int| 0 <= j < data.impl_generics.len() ==> r.impl_generics[j] == data.impl_generics[j])
            &&& r.impl_generics[data.impl_generics.len() as int] == "__T: ?Sized"@
            &&& r.where_clause.len() == w + data.fields.len()
            &&& (forall|j: int| 0 <= j < w ==> r.where_clause[j] == data.where_clause[j])
            &&& (forall|i: int| 0 <= i < data.fields.len() ==> r.where_clause[w + i] == data.fields[i] + ": "@
                + root + "::ops::DerefMut"@ + "<Target = __T>"@)
            &&& r.arms.len() == data.variants.len()
            &&& (forall|i: int| 0 <= i < data.variants.len() ==> r.arms[i] == data.variants[i]
                + "(x) => x.deref_mut()"@)
        }),
{
    let r = deref_mut_impl(data, root);
    let w = data.where_clause.len();
    assert forall|i: int| 0 <= i < data.fields.len() implies r.where_clause[w + i] == data.fields[i]
        + ": "@ + root + "::ops::DerefMut"@ + "<Target = __T>"@ by {
        assert(r.where_clause[w + i] == field_bound(data.fields[i], deref_mut_path(root)));
    }
}

} // verus!
