//! `#[enum_derive(Extend)]`.
use crate::derive::{texts, EnumData, EnumDataView, TraitDef, TraitDefView, TraitDerive, TraitDeriveView};
use crate::utils::{push_stack, stack_items, Stack};
use vstd::prelude::*;

verus! {

/// The `Extend` trait: `::core::iter::Extend`.
pub const EXTEND_PATH: &'static str = "::core::iter::Extend";

/// The one method of `Extend` that the impl forwards.
pub const EXTEND_ITEM: &'static str =
    "#[inline] fn extend<__T: ::core::iter::IntoIterator<Item = __A>>(&mut self, iter: __T);";

/// The request that the derive of `Extend` makes for the enum of `data`.
pub open spec fn extend_derive(data: EnumDataView) -> TraitDeriveView {
    TraitDeriveView {
        data,
        trait_path: EXTEND_PATH@,
        definition: TraitDefView {
            name: "Extend"@,
            generics: seq!["__A"@],
            items: seq![EXTEND_ITEM@],
        },
        settings: None,
    }
}

/// The derive of `Extend` for the enum of `data`: the request for
/// `Extend<__A>`, pushed on `stack`.
pub fn derive(data: &EnumData, stack: &mut Stack<TraitDerive>)
    ensures
        stack_items(*final(stack)) == stack_items(*old(stack)).push(extend_derive(data@)),
{
    let mut generics: Vec<String> = Vec::new();
    generics.push(String::from_str("__A"));
    let mut items: Vec<String> = Vec::new();
    items.push(String::from_str(EXTEND_ITEM));
    assert(texts(generics@) =~= seq!["__A"@]);
    assert(texts(items@) =~= seq![EXTEND_ITEM@]);
    let item = TraitDerive {
        data: data.copy(),
        trait_path: String::from_str(EXTEND_PATH),
        definition: TraitDef { name: String::from_str("Extend"), generics, items },
        settings: None,
    };
    push_stack(stack, item);
}

/// The request carries the enum it was made for unchanged: its name,
/// generics, `where` clause, variants and fields.
pub proof fn law_extend_derive_keeps_enum(data: EnumDataView)
    ensures
        extend_derive(data).data == data,
{
}

} // verus!
