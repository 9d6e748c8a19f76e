use std::collections::hash_map::RandomState;
use std::collections::HashMap;
use std::convert::TryFrom;

use zvariant::{Dict, Error, Type, Value};

#[test]
fn map_round_trip_gives_the_map_back() {
    let mut m: HashMap<u32, u64> = HashMap::new();
    m.insert(1, 10);
    m.insert(2, 20);
    m.insert(7, 70);
    let d = Dict::from(m.clone());
    assert_eq!(d.len(), 3);
    assert_eq!(d.signature().as_str(), "a{ut}");
    let back: HashMap<u32, u64> = HashMap::<u32, u64>::try_from(d).unwrap();
    assert_eq!(back, m);
}

#[test]
fn map_round_trip_with_string_keys() {
    let mut m: HashMap<String, bool> = HashMap::new();
    m.insert(String::from("yes"), true);
    m.insert(String::from("no"), false);
    let d = Dict::from(m.clone());
    assert_eq!(d.key_signature().as_str(), "s");
    assert_eq!(d.value_signature().as_str(), "b");
    assert_eq!(d.get::<String, bool>(&String::from("yes")), Ok(Some(&true)));
    assert_eq!(d.get::<String, bool>(&String::from("no")), Ok(Some(&false)));
    let back = HashMap::<String, bool>::try_from(d).unwrap();
    assert_eq!(back, m);
}

#[test]
fn empty_map_round_trip() {
    let m: HashMap<i16, i32> = HashMap::new();
    let d = Dict::from(m.clone());
    assert_eq!(d.len(), 0);
    assert_eq!(d, Dict::new(i16::signature(), i32::signature()));
    let back = HashMap::<i16, i32>::try_from(d).unwrap();
    assert_eq!(back, m);
}

#[test]
fn from_map_holds_every_pair_once() {
    let mut m: HashMap<u8, u8> = HashMap::new();
    for k in 0..20u8 {
        m.insert(k, k + 100);
    }
    let d = Dict::from(m);
    assert_eq!(d.len(), 20);
    for k in 0..20u8 {
        assert_eq!(d.get::<u8, u8>(&k), Ok(Some(&(k + 100))));
    }
    assert_eq!(d.get::<u8, u8>(&20), Ok(None));
}

#[test]
fn later_entry_wins_in_a_native_map() {
    let mut d = Dict::new(String::signature(), u32::signature());
    d.add("a", 1u32).unwrap();
    d.add("b", 2u32).unwrap();
    d.add("a", 3u32).unwrap();
    assert_eq!(d.get::<String, u32>(&String::from("a")), Ok(Some(&1)));
    let m = HashMap::<String, u32>::try_from(d).unwrap();
    assert_eq!(m.len(), 2);
    assert_eq!(m.get("a"), Some(&3));
    assert_eq!(m.get("b"), Some(&2));
}

#[test]
fn conversion_to_a_map_of_other_types_fails() {
    let mut d = Dict::new(String::signature(), u32::signature());
    d.add("a", 1u32).unwrap();
    d.add("b", 2u32).unwrap();
    assert_eq!(
        HashMap::<u32, u32>::try_from(d.clone()),
        Err(Error::IncorrectType)
    );
    assert_eq!(
        HashMap::<String, u64>::try_from(d.clone()),
        Err(Error::IncorrectType)
    );
    assert!(HashMap::<String, u32>::try_from(d).is_ok());
}

#[test]
fn empty_dict_converts_to_any_map() {
    let d = Dict::new(String::signature(), u32::signature());
    let m = HashMap::<u8, bool>::try_from(d).unwrap();
    assert!(m.is_empty());
}

#[test]
fn from_map_wraps_aliased_natives() {
    let mut m: HashMap<char, i8> = HashMap::new();
    m.insert('z', -5);
    let d = Dict::from(m);
    assert_eq!(d.signature().as_str(), "a{sn}");
    let e = d.entry(0).unwrap();
    assert_eq!(e.key(), &Value::Str(String::from("z")));
    assert_eq!(e.value(), &Value::I16(-5));
}

#[test]
fn conversion_takes_any_hasher() {
    let mut d = Dict::new(u64::signature(), bool::signature());
    d.add(5u64, true).unwrap();
    let m: HashMap<u64, bool, RandomState> = HashMap::try_from(d).unwrap();
    assert_eq!(m.get(&5), Some(&true));
    assert_eq!(m.len(), 1);
}
