use zvariant::{Basic, Double, Signature, Single, Type};

fn descriptor<T: Basic>() -> (char, &'static str, usize) {
    (T::SIGNATURE_CHAR, T::SIGNATURE_STR, T::ALIGNMENT)
}

#[test]
fn table_of_tags_and_alignments() {
    assert_eq!(descriptor::<u8>(), ('y', "y", 1));
    assert_eq!(descriptor::<bool>(), ('b', "b", 4));
    assert_eq!(descriptor::<i16>(), ('n', "n", 2));
    assert_eq!(descriptor::<u16>(), ('q', "q", 2));
    assert_eq!(descriptor::<i32>(), ('i', "i", 4));
    assert_eq!(descriptor::<u32>(), ('u', "u", 4));
    assert_eq!(descriptor::<i64>(), ('x', "x", 8));
    assert_eq!(descriptor::<u64>(), ('t', "t", 8));
    assert_eq!(descriptor::<Double>(), ('d', "d", 8));
    assert_eq!(descriptor::<&str>(), ('s', "s", 4));
    assert_eq!(descriptor::<String>(), ('s', "s", 4));
}

#[test]
fn aliased_types_carry_their_target() {
    assert_eq!(descriptor::<i8>(), descriptor::<i16>());
    assert_eq!(descriptor::<i8>(), ('n', "n", 2));
    assert_eq!(descriptor::<Single>(), descriptor::<Double>());
    assert_eq!(descriptor::<Single>(), ('d', "d", 8));
    assert_eq!(descriptor::<char>(), descriptor::<&str>());
    assert_eq!(descriptor::<char>(), ('s', "s", 4));
}

fn tag_alone<T: Basic>() {
    assert_eq!(T::SIGNATURE_STR.chars().count(), 1);
    assert_eq!(T::SIGNATURE_STR.chars().next(), Some(T::SIGNATURE_CHAR));
    assert!(matches!(T::ALIGNMENT, 1 | 2 | 4 | 8));
}

#[test]
fn signature_string_is_the_tag_alone() {
    tag_alone::<u8>();
    tag_alone::<i8>();
    tag_alone::<bool>();
    tag_alone::<i16>();
    tag_alone::<u16>();
    tag_alone::<i32>();
    tag_alone::<u32>();
    tag_alone::<i64>();
    tag_alone::<u64>();
    tag_alone::<Single>();
    tag_alone::<Double>();
    tag_alone::<&str>();
    tag_alone::<String>();
    tag_alone::<char>();
}

#[test]
fn type_signature_is_the_signature_string() {
    assert_eq!(u32::signature().as_str(), "u");
    assert_eq!(i8::signature().as_str(), "n");
    assert_eq!(<&str>::signature().as_str(), "s");
    assert_eq!(char::signature().as_str(), "s");
    assert_eq!(Single::signature(), Double::signature());
    assert!(u32::signature() != i32::signature());
}

#[test]
fn signatures_compare_by_text() {
    let a = Signature::from_str_unchecked("a{sv}");
    let b = Signature::from_string_unchecked(String::from("a{sv}"));
    assert_eq!(a, b);
    assert_eq!(a.to_owned().as_str(), "a{sv}");
    assert!(a != Signature::from_str_unchecked("a{su}"));
}
