use zvariant::{Dict, Double, Error, Signature, Type, Value};

fn string_to_u32() -> Dict {
    Dict::new(String::signature(), u32::signature())
}

#[test]
fn new_dict_is_empty() {
    let d = string_to_u32();
    assert_eq!(d.len(), 0);
    assert_eq!(d.key_signature().as_str(), "s");
    assert_eq!(d.value_signature().as_str(), "u");
    assert!(d.entry(0).is_none());
    assert_eq!(d.get::<String, u32>(&String::from("a")), Ok(None));
}

#[test]
fn first_match_wins() {
    let mut d = string_to_u32();
    d.add("a", 1u32).unwrap();
    d.add("b", 2u32).unwrap();
    d.add("a", 3u32).unwrap();
    assert_eq!(d.len(), 3);
    assert_eq!(d.get::<str, u32>("a"), Ok(Some(&1)));
    assert_eq!(d.get::<str, u32>("b"), Ok(Some(&2)));
    assert_eq!(d.get::<str, u32>("c"), Ok(None));
    assert_eq!(d.get::<String, u32>(&String::from("a")), Ok(Some(&1)));
    assert_eq!(d.get::<String, u32>(&String::from("b")), Ok(Some(&2)));
    assert_eq!(d.get::<String, u32>(&String::from("c")), Ok(None));
}

#[test]
fn add_of_wrong_key_type_fails_and_leaves_dict_empty() {
    let mut d = Dict::new(i32::signature(), u32::signature());
    assert_eq!(d.add("x", 5u32), Err(Error::IncorrectType));
    assert_eq!(d.len(), 0);
    assert_eq!(d, Dict::new(i32::signature(), u32::signature()));
}

#[test]
fn add_of_wrong_value_type_fails() {
    let mut d = string_to_u32();
    assert_eq!(d.add("x", 5u64), Err(Error::IncorrectType));
    assert_eq!(d.add("x", 5i32), Err(Error::IncorrectType));
    assert_eq!(d.len(), 0);
}

#[test]
fn append_checks_both_signatures() {
    let mut d = string_to_u32();
    assert_eq!(d.append(Value::Str(String::from("k")), Value::U32(7)), Ok(()));
    assert_eq!(d.append(Value::U32(1), Value::U32(7)), Err(Error::IncorrectType));
    assert_eq!(
        d.append(Value::Str(String::from("k")), Value::Str(String::from("v"))),
        Err(Error::IncorrectType)
    );
    assert_eq!(d.len(), 1);
    let e = d.entry(0).unwrap();
    assert_eq!(e.key(), &Value::Str(String::from("k")));
    assert_eq!(e.value(), &Value::U32(7));
    assert!(d.entry(1).is_none());
}

#[test]
fn get_after_append_gives_the_value() {
    let mut d = Dict::new(u8::signature(), i64::signature());
    d.append(Value::U8(9), Value::I64(-4)).unwrap();
    assert_eq!(d.get::<u8, i64>(&9), Ok(Some(&-4)));
    d.append(Value::U8(10), Value::I64(40)).unwrap();
    assert_eq!(d.get::<u8, i64>(&10), Ok(Some(&40)));
    assert_eq!(d.get::<u8, i64>(&9), Ok(Some(&-4)));
}

#[test]
fn get_by_the_wrong_types_fails() {
    let mut d = string_to_u32();
    assert_eq!(d.get::<u8, u32>(&1), Ok(None));
    d.add("a", 1u32).unwrap();
    assert_eq!(d.get::<u8, u32>(&1), Err(Error::IncorrectType));
    assert_eq!(d.get::<String, u64>(&String::from("a")), Err(Error::IncorrectType));
    assert_eq!(d.get::<String, u64>(&String::from("z")), Ok(None));
}

#[test]
fn signature_is_array_of_entries() {
    let mut d = string_to_u32();
    assert_eq!(d.signature().as_str(), "a{su}");
    d.add("a", 1u32).unwrap();
    assert_eq!(d.signature().as_str(), "a{su}");
    let nested = Dict::new(
        Signature::from_str_unchecked("s"),
        Signature::from_str_unchecked("a{sv}"),
    );
    assert_eq!(nested.signature().as_str(), "a{sa{sv}}");
    assert_eq!(Dict::new(i8::signature(), Double::signature()).signature().as_str(), "a{nd}");
}

#[test]
fn deep_copy_outlives_its_source() {
    let copy = {
        let source = String::from("borrowed key");
        let mut d = string_to_u32();
        d.add(source.as_str(), 11u32).unwrap();
        d.add("other", 12u32).unwrap();
        let copy = d.to_owned();
        assert_eq!(copy, d);
        copy
    };
    assert_eq!(copy.len(), 2);
    assert_eq!(copy.signature().as_str(), "a{su}");
    assert_eq!(copy.get::<String, u32>(&String::from("borrowed key")), Ok(Some(&11)));
    assert_eq!(copy.get::<String, u32>(&String::from("other")), Ok(Some(&12)));
    assert_eq!(copy.clone(), copy);
}

#[test]
fn aliased_natives_are_held_as_their_target() {
    assert_eq!(Value::new(-3i8), Value::I16(-3));
    assert_eq!(Value::new('x'), Value::Str(String::from("x")));
    assert_eq!(Value::new("xy"), Value::Str(String::from("xy")));
    assert_eq!(Value::new(Double { bits: 7 }), Value::F64(Double { bits: 7 }));
    let mut d = Dict::new(char::signature(), i8::signature());
    d.add('k', -1i8).unwrap();
    assert_eq!(d.get::<String, i16>(&String::from("k")), Ok(Some(&-1)));
}

#[test]
fn value_signature_tells_the_kind() {
    assert_eq!(Value::U8(1).value_signature().as_str(), "y");
    assert_eq!(Value::Bool(true).value_signature().as_str(), "b");
    assert_eq!(Value::I16(1).value_signature().as_str(), "n");
    assert_eq!(Value::U16(1).value_signature().as_str(), "q");
    assert_eq!(Value::I32(1).value_signature().as_str(), "i");
    assert_eq!(Value::U32(1).value_signature().as_str(), "u");
    assert_eq!(Value::I64(1).value_signature().as_str(), "x");
    assert_eq!(Value::U64(1).value_signature().as_str(), "t");
    assert_eq!(Value::F64(Double { bits: 0 }).value_signature().as_str(), "d");
    assert_eq!(Value::Str(String::new()).value_signature().as_str(), "s");
}

#[test]
fn downcast_follows_the_kind() {
    let v = Value::U32(5);
    assert_eq!(v.downcast_ref::<u32>(), Some(&5));
    assert_eq!(v.downcast_ref::<i32>(), None);
    assert_eq!(v.downcast_ref::<String>(), None);
    assert_eq!(v.to_owned(), v);
    let s = Value::Str(String::from("t"));
    assert_eq!(s.downcast_ref::<String>(), Some(&String::from("t")));
    assert_eq!(s.downcast_ref::<str>(), Some("t"));
    assert_eq!(s.downcast_ref::<u8>(), None);
}

#[test]
fn error_has_a_message() {
    assert_eq!(Error::IncorrectType.message(), "incorrect type");
}

#[test]
fn entries_come_in_insertion_order() {
    let mut d = Dict::new(u8::signature(), u8::signature());
    for k in [3u8, 1, 2, 1] {
        d.add(k, k + 1).unwrap();
    }
    let keys: Vec<Value> = d.entries().iter().map(|e| e.key().clone()).collect();
    assert_eq!(keys, vec![Value::U8(3), Value::U8(1), Value::U8(2), Value::U8(1)]);
    let values: Vec<Value> = d.entries().iter().map(|e| e.value().clone()).collect();
    assert_eq!(values, vec![Value::U8(4), Value::U8(2), Value::U8(3), Value::U8(2)]);
    assert_eq!(d.entry(2).unwrap(), &d.entries()[2]);
}

#[test]
fn string_values_are_lent_as_slices() {
    let mut d = Dict::new(u16::signature(), String::signature());
    d.add(1u16, "one").unwrap();
    d.add(2u16, String::from("two")).unwrap();
    assert_eq!(d.get::<u16, str>(&1), Ok(Some("one")));
    assert_eq!(d.get::<u16, str>(&2), Ok(Some("two")));
    assert_eq!(d.get::<u16, String>(&2), Ok(Some(&String::from("two"))));
    assert_eq!(d.get::<u16, str>(&3), Ok(None));
    assert_eq!(str::signature().as_str(), "s");
}
