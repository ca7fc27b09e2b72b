//! `#[enum_derive(futures::Stream)]`.
use crate::derive::{concat2, concat3, std_root, texts, TraitDef, TraitDefView, TraitDerive, TraitDeriveView, STD_ROOT, EnumData, EnumDataView};
use vstd::prelude::*;

verus! {

/// The `Stream` trait of `futures`.
pub const STREAM_PATH: &'static str = "::futures::stream::Stream";

/// The method of `Stream` that the impl forwards, with `pin` the path of
/// `Pin` and `root` that of std.
pub open spec fn poll_next_item(root: Seq<char>, pin: Seq<char>) -> Seq<char> {
    "#[inline] fn poll_next(self: "@ + pin + "<&mut Self>, lw: &"@ + root
        + "::task::LocalWaker) -> "@ + root + "::task::Poll<"@ + root
        + "::option::Option<Self::Item>>;"@
}

/// The request that the derive of `Stream` makes for the enum of `data`, with
/// std named by `root`.
pub open spec fn stream_derive(data: EnumDataView, root: Seq<char>) -> TraitDeriveView {
    TraitDeriveView {
        data,
        trait_path: STREAM_PATH@,
        definition: TraitDefView {
            name: "Stream"@,
            generics: Seq::empty(),
            items: seq!["type Item;"@, poll_next_item(root, root + "::pin::Pin"@)],
        },
        settings: None,
    }
}

/// The derive of `futures::Stream` for the enum of `data`: its associated type and `poll_next`,
/// with std's paths written from std's root.
pub fn derive(data: &EnumData) -> (r: TraitDerive)
    ensures
        r@ == stream_derive(data@, STD_ROOT@),
{
    let root = std_root();
    let r = root.as_str();
    let pin = concat2(r, "::pin::Pin");
    let mut s = concat3("#[inline] fn poll_next(self: ", pin.as_str(), "<&mut Self>, lw: &");
    s.append(r);
    s.append("::task::LocalWaker) -> ");
    s.append(r);
    s.append("::task::Poll<");
    s.append(r);
    s.append("::option::Option<Self::Item>>;");
    let mut items: Vec<String> = Vec::new();
    items.push(String::from_str("type Item;"));
    items.push(s);
    let generics: Vec<String> = Vec::new();
    assert(texts(items@) =~= seq!["type Item;"@, poll_next_item(root@, pin@)]);
    assert(texts(generics@) =~= Seq::<Seq<char>>::empty());
    TraitDerive {
        data: data.copy(),
        trait_path: String::from_str(STREAM_PATH),
        definition: TraitDef { name: String::from_str("Stream"), generics, items },
        settings: None,
    }
}

/// The request carries the enum it was made for unchanged: its name,
/// generics, `where` clause, variants and fields.
pub proof fn law_stream_derive_keeps_enum(data: EnumDataView, root: Seq<char>)
    ensures
        stream_derive(data, root).data == data,
{
}

} // verus!
