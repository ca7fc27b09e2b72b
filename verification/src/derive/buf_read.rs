//! `#[enum_derive(BufRead)]`.
use crate::derive::{
    concat2, concat3, std_root, texts, ImplSettings, ImplSettingsView, TraitDef, TraitDefView,
    TraitDerive, TraitDeriveView, STD_ROOT, EnumData, EnumDataView,
};
use vstd::prelude::*;

verus! {

/// The number of items the impl is built with room for: one per method.
pub const CAPACITY: usize = 4;

/// The items of `BufRead` that the impl forwards, with `io` the path of
/// `std::io` and `root` that of std.
pub open spec fn buf_read_items(root: Seq<char>, io: Seq<char>) -> Seq<Seq<char>> {
    seq![
        "#[inline] fn fill_buf(&mut self) -> "@ + io + "::Result<&[u8]>;"@,
        "#[inline] fn consume(&mut self, amt: usize);"@,
        "#[inline] fn read_until(&mut self, byte: u8, buf: &mut "@ + root + "::vec::Vec<u8>) -> "@
            + io + "::Result<usize>;"@,
        "#[inline] fn read_line(&mut self, buf: &mut "@ + root + "::string::String) -> "@ + io
            + "::Result<usize>;"@,
    ]
}

/// The request that the derive of `BufRead` makes for the enum of `data`,
/// with std named by `root`.
pub open spec fn buf_read_derive(data: EnumDataView, root: Seq<char>) -> TraitDeriveView {
    let io = root + "::io"@;
    TraitDeriveView {
        data,
        trait_path: io + "::BufRead"@,
        definition: TraitDefView {
            name: "BufRead"@,
            generics: Seq::empty(),
            items: buf_read_items(root, io),
        },
        settings: Some(ImplSettingsView { capacity: CAPACITY as nat, root, supertraits: Seq::empty() }),
    }
}

/// `io::Result<T>` read through `buf: &mut T` by a method of `BufRead`.
fn read_item(head: &str, root: &str, middle: &str, io: &str) -> (r: String)
    ensures
        r@ == head@ + root@ + middle@ + io@ + "::Result<usize>;"@,
{
    let mut s = concat3(head, root, middle);
    s.append(io);
    s.append("::Result<usize>;");
    s
}

/// The derive of `BufRead` for the enum of `data`: its path and definition
/// under std's root, built with room for its four methods and no supertraits.
pub fn derive(data: &EnumData) -> (r: TraitDerive)
    ensures
        r@ == buf_read_derive(data@, STD_ROOT@),
{
    let root = std_root();
    let io = concat2(root.as_str(), "::io");
    let trait_path = concat2(io.as_str(), "::BufRead");
    let mut items: Vec<String> = Vec::new();
    items.push(concat3("#[inline] fn fill_buf(&mut self) -> ", io.as_str(), "::Result<&[u8]>;"));
    items.push(String::from_str("#[inline] fn consume(&mut self, amt: usize);"));
    items.push(
        read_item(
            "#[inline] fn read_until(&mut self, byte: u8, buf: &mut ",
            root.as_str(),
            "::vec::Vec<u8>) -> ",
            io.as_str(),
        ),
    );
    items.push(
        read_item(
            "#[inline] fn read_line(&mut self, buf: &mut ",
            root.as_str(),
            "::string::String) -> ",
            io.as_str(),
        ),
    );
    let ghost rv = root@;
    let ghost iv = io@;
    assert(texts(items@) =~= buf_read_items(rv, iv));
    let generics: Vec<String> = Vec::new();
    let supertraits: Vec<String> = Vec::new();
    assert(texts(generics@) =~= Seq::<Seq<char>>::empty());
    assert(texts(supertraits@) =~= Seq::<Seq<char>>::empty());
    TraitDerive {
        data: data.copy(),
        trait_path,
        definition: TraitDef { name: String::from_str("BufRead"), generics, items },
        settings: Some(ImplSettings { capacity: CAPACITY, root, supertraits }),
    }
}

/// The request carries the enum it was made for unchanged: its name,
/// generics, `where` clause, variants and fields.
pub proof fn law_buf_read_derive_keeps_enum(data: EnumDataView, root: Seq<char>)
    ensures
        buf_read_derive(data, root).data == data,
{
}

} // verus!
