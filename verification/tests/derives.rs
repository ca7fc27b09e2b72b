//! The requests of the derives, and the small helpers.

use auto_enumerate::derive::deref_mut::{deref_mut, enum_derive};
use auto_enumerate::derive::EnumData;
use auto_enumerate::derive::{buf_read, clone_texts, extend, std_root, stream};
use auto_enumerate::utils::{Stack, VecExt};

fn strings(v: &[&str]) -> Vec<String> {
    v.iter().map(|s| s.to_string()).collect()
}

fn data() -> EnumData {
    EnumData {
        name: "Enum".to_string(),
        impl_generics: strings(&["A", "B"]),
        ty_generics: strings(&["A", "B"]),
        where_clause: strings(&["A: Clone"]),
        variants: strings(&["Enum::A", "Enum::B"]),
        fields: strings(&["A", "B"]),
    }
}

#[test]
fn deref_mut_bounds_each_field_and_forwards_each_variant() {
    let r = deref_mut(&data(), "::core");
    assert_eq!(r.trait_path, "::core::ops::DerefMut");
    assert_eq!(r.impl_generics, strings(&["A", "B", "__T: ?Sized"]));
    assert_eq!(r.name, "Enum");
    assert_eq!(r.ty_generics, strings(&["A", "B"]));
    assert_eq!(
        r.where_clause,
        strings(&[
            "A: Clone",
            "A: ::core::ops::DerefMut<Target = __T>",
            "B: ::core::ops::DerefMut<Target = __T>",
        ])
    );
    assert_eq!(r.arms, strings(&["Enum::A(x) => x.deref_mut()", "Enum::B(x) => x.deref_mut()"]));
}

#[test]
fn deref_mut_of_an_enum_without_variants() {
    let d = EnumData {
        name: "Never".to_string(),
        impl_generics: vec![],
        ty_generics: vec![],
        where_clause: vec![],
        variants: vec![],
        fields: vec![],
    };
    let r = deref_mut(&d, "::std");
    assert_eq!(r.impl_generics, strings(&["__T: ?Sized"]));
    assert!(r.where_clause.is_empty());
    assert!(r.arms.is_empty());
}

#[test]
fn enum_derive_names_std() {
    assert_eq!(std_root(), "::std");
    let r = enum_derive(&data());
    assert_eq!(r.trait_path, "::std::ops::DerefMut");
    assert_eq!(r.where_clause[1], "A: ::std::ops::DerefMut<Target = __T>");
}

#[test]
fn buf_read_request() {
    let r = buf_read::derive(&data());
    assert_eq!(r.data.name, "Enum");
    assert_eq!(r.data.fields, strings(&["A", "B"]));
    assert_eq!(r.data.variants, strings(&["Enum::A", "Enum::B"]));
    assert_eq!(r.trait_path, "::std::io::BufRead");
    assert_eq!(r.definition.name, "BufRead");
    assert!(r.definition.generics.is_empty());
    assert_eq!(
        r.definition.items,
        strings(&[
            "#[inline] fn fill_buf(&mut self) -> ::std::io::Result<&[u8]>;",
            "#[inline] fn consume(&mut self, amt: usize);",
            "#[inline] fn read_until(&mut self, byte: u8, buf: &mut ::std::vec::Vec<u8>) -> ::std::io::Result<usize>;",
            "#[inline] fn read_line(&mut self, buf: &mut ::std::string::String) -> ::std::io::Result<usize>;",
        ])
    );
    let s = r.settings.unwrap();
    assert_eq!(s.capacity, 4);
    assert_eq!(s.root, "::std");
    assert!(s.supertraits.is_empty());
}

#[test]
fn extend_request_is_pushed_on_the_stack() {
    let mut stack = Stack::new();
    extend::derive(&data(), &mut stack);
    extend::derive(&data(), &mut stack);
    let v = stack.into_vec();
    assert_eq!(v.len(), 2);
    for r in &v {
        assert_eq!(r.trait_path, "::core::iter::Extend");
        assert_eq!(r.definition.name, "Extend");
        assert_eq!(r.definition.generics, strings(&["__A"]));
        assert_eq!(
            r.definition.items,
            strings(&["#[inline] fn extend<__T: ::core::iter::IntoIterator<Item = __A>>(&mut self, iter: __T);"])
        );
        assert!(r.settings.is_none());
        assert_eq!(r.data.name, "Enum");
        assert_eq!(r.data.ty_generics, strings(&["A", "B"]));
    }
}

#[test]
fn stack_holds_more_than_its_inline_room() {
    let mut stack = Stack::new();
    for _ in 0..10 {
        extend::derive(&data(), &mut stack);
    }
    assert_eq!(stack.into_vec().len(), 10);
}

#[test]
fn stream_request() {
    let r = stream::derive(&data());
    assert_eq!(r.data.where_clause, strings(&["A: Clone"]));
    assert_eq!(r.data.impl_generics, strings(&["A", "B"]));
    assert_eq!(r.trait_path, "::futures::stream::Stream");
    assert_eq!(r.definition.name, "Stream");
    assert_eq!(
        r.definition.items,
        strings(&[
            "type Item;",
            "#[inline] fn poll_next(self: ::std::pin::Pin<&mut Self>, lw: &::std::task::LocalWaker) -> ::std::task::Poll<::std::option::Option<Self::Item>>;",
        ])
    );
    assert!(r.settings.is_none());
}

#[test]
fn find_remove_takes_the_first_match() {
    let mut v = vec![1, 2, 3, 2];
    assert_eq!(v.find_remove(|x: &i32| *x == 2), Some(2));
    assert_eq!(v, vec![1, 3, 2]);
    assert_eq!(v.find_remove(|x: &i32| *x == 5), None);
    assert_eq!(v, vec![1, 3, 2]);
}

#[test]
fn find_remove_keeps_order_in_short_vectors() {
    let mut one = vec![7];
    assert_eq!(one.find_remove(|x: &i32| *x == 7), Some(7));
    assert!(one.is_empty());
    let mut two = vec![4, 5];
    assert_eq!(two.find_remove(|x: &i32| *x == 4), Some(4));
    assert_eq!(two, vec![5]);
    let mut two = vec![4, 5];
    assert_eq!(two.find_remove(|x: &i32| *x == 5), Some(5));
    assert_eq!(two, vec![4]);
    let mut empty: Vec<i32> = vec![];
    assert_eq!(empty.find_remove(|_: &i32| true), None);
}

#[test]
fn default_values() {
    assert_eq!(auto_enumerate::utils::default::<i32>(), 0);
    assert_eq!(auto_enumerate::utils::default::<String>(), "");
    assert_eq!(auto_enumerate::utils::default::<Vec<u8>>(), Vec::<u8>::new());
}

#[test]
fn clone_texts_copies_in_order() {
    let v = strings(&["a", "b", "c"]);
    assert_eq!(clone_texts(&v), v);
    assert!(clone_texts(&vec![]).is_empty());
}

#[test]
fn enum_data_copy_keeps_every_part() {
    let d = data();
    let c = d.copy();
    assert_eq!(c.name, d.name);
    assert_eq!(c.impl_generics, d.impl_generics);
    assert_eq!(c.ty_generics, d.ty_generics);
    assert_eq!(c.where_clause, d.where_clause);
    assert_eq!(c.variants, d.variants);
    assert_eq!(c.fields, d.fields);
}
