use vstd::prelude::*;
use vstd::string::StringExecFns;
use crate::basic::{lemma_descriptor_table, Double};
use crate::error::Error;
use crate::signature::{Signature, Type};

verus! {

/// What a dynamic value is: its kind and what it holds.
pub enum ValueView {
    U8(u8),
    Bool(bool),
    I16(i16),
    U16(u16),
    I32(i32),
    U32(u32),
    I64(i64),
    U64(u64),
    /// The bit pattern of a 64-bit float.
    F64(u64),
    Str(Seq<char>),
}

impl ValueView {
    /// The text of the signature of such a value.
    pub open spec fn signature(self) -> Seq<char> {
        match self {
            ValueView::U8(_) => u8::signature_spec(),
            ValueView::Bool(_) => bool::signature_spec(),
            ValueView::I16(_) => i16::signature_spec(),
            ValueView::U16(_) => u16::signature_spec(),
            ValueView::I32(_) => i32::signature_spec(),
            ValueView::U32(_) => u32::signature_spec(),
            ValueView::I64(_) => i64::signature_spec(),
            ValueView::U64(_) => u64::signature_spec(),
            ValueView::F64(_) => Double::signature_spec(),
            ValueView::Str(_) => String::signature_spec(),
        }
    }
}

/// A value that carries its own kind.
#[derive(Debug, Clone, PartialEq)]
pub enum Value {
    U8(u8),
    Bool(bool),
    I16(i16),
    U16(u16),
    I32(i32),
    U32(u32),
    I64(i64),
    U64(u64),
    F64(Double),
    Str(String),
}

impl View for Value {
    type V = ValueView;

    open spec fn view(&self) -> ValueView {
        match self {
            Value::U8(x) => ValueView::U8(*x),
            Value::Bool(x) => ValueView::Bool(*x),
            Value::I16(x) => ValueView::I16(*x),
            Value::U16(x) => ValueView::U16(*x),
            Value::I32(x) => ValueView::I32(*x),
            Value::U32(x) => ValueView::U32(*x),
            Value::I64(x) => ValueView::I64(*x),
            Value::U64(x) => ValueView::U64(*x),
            Value::F64(x) => ValueView::F64(x.bits),
            Value::Str(x) => ValueView::Str(x@),
        }
    }
}

/// A native type whose values can be held as dynamic values.
pub trait IntoValue: Type {
    /// The dynamic value that holds this native value.
    spec fn wrap(&self) -> ValueView;

    /// Lifts the native value into a dynamic one.
    fn into_value(self) -> (v: Value) where Self: Sized
        ensures
            v@ == self.wrap(),
    ;

    /// The dynamic value that holds a copy of the native value.
    fn to_value(&self) -> (v: Value)
        ensures
            v@ == self.wrap(),
    ;

    /// A wrapped value has the signature of its native type.
    proof fn lemma_wrap_signature(&self)
        ensures
            self.wrap().signature() == Self::signature_spec(),
    ;
}

/// A native type whose values can be taken out of dynamic values.
pub trait FromValue: IntoValue {
    /// A view of the native value inside `v`, where `v` is of this type's kind.
    fn downcast_ref(v: &Value) -> (r: Option<&Self>)
        ensures
            r is Some <==> v@.signature() == Self::signature_spec(),
            r matches Some(x) ==> x.wrap() == v@,
    ;

    /// The native value inside `v`, where `v` is of this type's kind.
    fn from_value(v: Value) -> (r: Result<Self, Error>) where Self: Sized
        ensures
            r is Ok <==> v@.signature() == Self::signature_spec(),
            r matches Ok(x) ==> x.wrap() == v@,
            r matches Err(e) ==> e == Error::IncorrectType,
    ;

    /// Whether two native values are the same dynamic value.
    fn same(&self, other: &Self) -> (b: bool)
        ensures
            b == (self.wrap() == other.wrap()),
    ;
}

/// The signature of a dynamic value is one character, which tells its kind.
pub proof fn lemma_signature_tells_kind(v: ValueView)
    ensures
        v.signature().len() == 1,
        v.signature() == u8::signature_spec() <==> v is U8,
        v.signature() == bool::signature_spec() <==> v is Bool,
        v.signature() == i16::signature_spec() <==> v is I16,
        v.signature() == u16::signature_spec() <==> v is U16,
        v.signature() == i32::signature_spec() <==> v is I32,
        v.signature() == u32::signature_spec() <==> v is U32,
        v.signature() == i64::signature_spec() <==> v is I64,
        v.signature() == u64::signature_spec() <==> v is U64,
        v.signature() == Double::signature_spec() <==> v is F64,
        v.signature() == String::signature_spec() <==> v is Str,
{
    lemma_descriptor_table();
    assert(seq!['y'][0] == 'y');
    assert(seq!['b'][0] == 'b');
    assert(seq!['n'][0] == 'n');
    assert(seq!['q'][0] == 'q');
    assert(seq!['i'][0] == 'i');
    assert(seq!['u'][0] == 'u');
    assert(seq!['x'][0] == 'x');
    assert(seq!['t'][0] == 't');
    assert(seq!['d'][0] == 'd');
    assert(seq!['s'][0] == 's');
}

/// Compares two string slices with `==` of `str`, which std documents to
/// hold exactly where both spell the same characters.
#[verifier::external_body]
fn str_eq(a: &str, b: &str) -> (r: bool)
    ensures
        r == (a@ == b@),
{
    a == b
}

/// Makes the one-character string that holds `c`, with `char::to_string`,
/// which std documents to give exactly that character as a string.
#[verifier::external_body]
fn string_of_char(c: char) -> (s: String)
    ensures
        s@ == seq![c],
{
    c.to_string()
}

impl IntoValue for u8 {
    open spec fn wrap(&self) -> ValueView {
        ValueView::U8(*self)
    }

    fn into_value(self) -> (v: Value) {
        Value::U8(self)
    }

    fn to_value(&self) -> (v: Value) {
        Value::U8(*self)
    }

    proof fn lemma_wrap_signature(&self) {
    }
}

impl FromValue for u8 {
    fn downcast_ref(v: &Value) -> (r: Option<&u8>) {
        proof {
            lemma_signature_tells_kind(v@);
        }
        match v {
            Value::U8(x) => Some(x),
            _ => None,
        }
    }

    fn from_value(v: Value) -> (r: Result<u8, Error>) {
        proof {
            lemma_signature_tells_kind(v@);
        }
        match v {
            Value::U8(x) => Ok(x),
            _ => Err(Error::IncorrectType),
        }
    }

    fn same(&self, other: &u8) -> (b: bool) {
        *self == *other
    }
}

impl IntoValue for bool {
    open spec fn wrap(&self) -> ValueView {
        ValueView::Bool(*self)
    }

    fn into_value(self) -> (v: Value) {
        Value::Bool(self)
    }

    fn to_value(&self) -> (v: Value) {
        Value::Bool(*self)
    }

    proof fn lemma_wrap_signature(&self) {
    }
}

impl FromValue for bool {
    fn downcast_ref(v: &Value) -> (r: Option<&bool>) {
        proof {
            lemma_signature_tells_kind(v@);
        }
        match v {
            Value::Bool(x) => Some(x),
            _ => None,
        }
    }

    fn from_value(v: Value) -> (r: Result<bool, Error>) {
        proof {
            lemma_signature_tells_kind(v@);
        }
        match v {
            Value::Bool(x) => Ok(x),
            _ => Err(Error::IncorrectType),
        }
    }

    fn same(&self, other: &bool) -> (b: bool) {
        *self == *other
    }
}

impl IntoValue for i16 {
    open spec fn wrap(&self) -> ValueView {
        ValueView::I16(*self)
    }

    fn into_value(self) -> (v: Value) {
        Value::I16(self)
    }

    fn to_value(&self) -> (v: Value) {
        Value::I16(*self)
    }

    proof fn lemma_wrap_signature(&self) {
    }
}

impl FromValue for i16 {
    fn downcast_ref(v: &Value) -> (r: Option<&i16>) {
        proof {
            lemma_signature_tells_kind(v@);
        }
        match v {
            Value::I16(x) => Some(x),
            _ => None,
        }
    }

    fn from_value(v: Value) -> (r: Result<i16, Error>) {
        proof {
            lemma_signature_tells_kind(v@);
        }
        match v {
            Value::I16(x) => Ok(x),
            _ => Err(Error::IncorrectType),
        }
    }

    fn same(&self, other: &i16) -> (b: bool) {
        *self == *other
    }
}

impl IntoValue for u16 {
    open spec fn wrap(&self) -> ValueView {
        ValueView::U16(*self)
    }

    fn into_value(self) -> (v: Value) {
        Value::U16(self)
    }

    fn to_value(&self) -> (v: Value) {
        Value::U16(*self)
    }

    proof fn lemma_wrap_signature(&self) {
    }
}

impl FromValue for u16 {
    fn downcast_ref(v: &Value) -> (r: Option<&u16>) {
        proof {
            lemma_signature_tells_kind(v@);
        }
        match v {
            Value::U16(x) => Some(x),
            _ => None,
        }
    }

    fn from_value(v: Value) -> (r: Result<u16, Error>) {
        proof {
            lemma_signature_tells_kind(v@);
        }
        match v {
            Value::U16(x) => Ok(x),
            _ => Err(Error::IncorrectType),
        }
    }

    fn same(&self, other: &u16) -> (b: bool) {
        *self == *other
    }
}

impl IntoValue for i32 {
    open spec fn wrap(&self) -> ValueView {
        ValueView::I32(*self)
    }

    fn into_value(self) -> (v: Value) {
        Value::I32(self)
    }

    fn to_value(&self) -> (v: Value) {
        Value::I32(*self)
    }

    proof fn lemma_wrap_signature(&self) {
    }
}

impl FromValue for i32 {
    fn downcast_ref(v: &Value) -> (r: Option<&i32>) {
        proof {
            lemma_signature_tells_kind(v@);
        }
        match v {
            Value::I32(x) => Some(x),
            _ => None,
        }
    }

    fn from_value(v: Value) -> (r: Result<i32, Error>) {
        proof {
            lemma_signature_tells_kind(v@);
        }
        match v {
            Value::I32(x) => Ok(x),
            _ => Err(Error::IncorrectType),
        }
    }

    fn same(&self, other: &i32) -> (b: bool) {
        *self == *other
    }
}

impl IntoValue for u32 {
    open spec fn wrap(&self) -> ValueView {
        ValueView::U32(*self)
    }

    fn into_value(self) -> (v: Value) {
        Value::U32(self)
    }

    fn to_value(&self) -> (v: Value) {
        Value::U32(*self)
    }

    proof fn lemma_wrap_signature(&self) {
    }
}

impl FromValue for u32 {
    fn downcast_ref(v: &Value) -> (r: Option<&u32>) {
        proof {
            lemma_signature_tells_kind(v@);
        }
        match v {
            Value::U32(x) => Some(x),
            _ => None,
        }
    }

    fn from_value(v: Value) -> (r: Result<u32, Error>) {
        proof {
            lemma_signature_tells_kind(v@);
        }
        match v {
            Value::U32(x) => Ok(x),
            _ => Err(Error::IncorrectType),
        }
    }

    fn same(&self, other: &u32) -> (b: bool) {
        *self == *other
    }
}

impl IntoValue for i64 {
    open spec fn wrap(&self) -> ValueView {
        ValueView::I64(*self)
    }

    fn into_value(self) -> (v: Value) {
        Value::I64(self)
    }

    fn to_value(&self) -> (v: Value) {
        Value::I64(*self)
    }

    proof fn lemma_wrap_signature(&self) {
    }
}

impl FromValue for i64 {
    fn downcast_ref(v: &Value) -> (r: Option<&i64>) {
        proof {
            lemma_signature_tells_kind(v@);
        }
        match v {
            Value::I64(x) => Some(x),
            _ => None,
        }
    }

    fn from_value(v: Value) -> (r: Result<i64, Error>) {
        proof {
            lemma_signature_tells_kind(v@);
        }
        match v {
            Value::I64(x) => Ok(x),
            _ => Err(Error::IncorrectType),
        }
    }

    fn same(&self, other: &i64) -> (b: bool) {
        *self == *other
    }
}

impl IntoValue for u64 {
    open spec fn wrap(&self) -> ValueView {
        ValueView::U64(*self)
    }

    fn into_value(self) -> (v: Value) {
        Value::U64(self)
    }

    fn to_value(&self) -> (v: Value) {
        Value::U64(*self)
    }

    proof fn lemma_wrap_signature(&self) {
    }
}

impl FromValue for u64 {
    fn downcast_ref(v: &Value) -> (r: Option<&u64>) {
        proof {
            lemma_signature_tells_kind(v@);
        }
        match v {
            Value::U64(x) => Some(x),
            _ => None,
        }
    }

    fn from_value(v: Value) -> (r: Result<u64, Error>) {
        proof {
            lemma_signature_tells_kind(v@);
        }
        match v {
            Value::U64(x) => Ok(x),
            _ => Err(Error::IncorrectType),
        }
    }

    fn same(&self, other: &u64) -> (b: bool) {
        *self == *other
    }
}

impl IntoValue for Double {
    open spec fn wrap(&self) -> ValueView {
        ValueView::F64(self.bits)
    }

    fn into_value(self) -> (v: Value) {
        Value::F64(self)
    }

    fn to_value(&self) -> (v: Value) {
        Value::F64(*self)
    }

    proof fn lemma_wrap_signature(&self) {
    }
}

impl FromValue for Double {
    fn downcast_ref(v: &Value) -> (r: Option<&Double>) {
        proof {
            lemma_signature_tells_kind(v@);
        }
        match v {
            Value::F64(x) => Some(x),
            _ => None,
        }
    }

    fn from_value(v: Value) -> (r: Result<Double, Error>) {
        proof {
            lemma_signature_tells_kind(v@);
        }
        match v {
            Value::F64(x) => Ok(x),
            _ => Err(Error::IncorrectType),
        }
    }

    fn same(&self, other: &Double) -> (b: bool) {
        self.bits == other.bits
    }
}

impl IntoValue for String {
    open spec fn wrap(&self) -> ValueView {
        ValueView::Str(self@)
    }

    fn into_value(self) -> (v: Value) {
        Value::Str(self)
    }

    fn to_value(&self) -> (v: Value) {
        Value::Str(self.clone())
    }

    proof fn lemma_wrap_signature(&self) {
    }
}

impl FromValue for String {
    fn downcast_ref(v: &Value) -> (r: Option<&String>) {
        proof {
            lemma_signature_tells_kind(v@);
        }
        match v {
            Value::Str(x) => Some(x),
            _ => None,
        }
    }

    fn from_value(v: Value) -> (r: Result<String, Error>) {
        proof {
            lemma_signature_tells_kind(v@);
        }
        match v {
            Value::Str(x) => Ok(x),
            _ => Err(Error::IncorrectType),
        }
    }

    fn same(&self, other: &String) -> (b: bool) {
        *self == *other
    }
}

impl IntoValue for str {
    open spec fn wrap(&self) -> ValueView {
        ValueView::Str(self@)
    }

    fn to_value(&self) -> (v: Value) {
        Value::Str(String::from_str(self))
    }

    proof fn lemma_wrap_signature(&self) {
        lemma_descriptor_table();
    }
}

impl FromValue for str {
    fn downcast_ref(v: &Value) -> (r: Option<&str>) {
        proof {
            lemma_signature_tells_kind(v@);
            lemma_descriptor_table();
        }
        match v {
            Value::Str(x) => Some(x.as_str()),
            _ => None,
        }
    }

    fn same(&self, other: &str) -> (b: bool) {
        str_eq(self, other)
    }
}

impl<'a> IntoValue for &'a str {
    open spec fn wrap(&self) -> ValueView {
        ValueView::Str(self@)
    }

    fn into_value(self) -> (v: Value) {
        Value::Str(String::from_str(self))
    }

    fn to_value(&self) -> (v: Value) {
        Value::Str(String::from_str(*self))
    }

    proof fn lemma_wrap_signature(&self) {
        lemma_descriptor_table();
    }
}

// An 8-bit signed integer is held as a 16-bit one.
impl IntoValue for i8 {
    open spec fn wrap(&self) -> ValueView {
        ValueView::I16(*self as i16)
    }

    fn into_value(self) -> (v: Value) {
        Value::I16(self as i16)
    }

    fn to_value(&self) -> (v: Value) {
        Value::I16(*self as i16)
    }

    proof fn lemma_wrap_signature(&self) {
        lemma_descriptor_table();
    }
}

// A single Unicode scalar value is held as the string of that one character.
impl IntoValue for char {
    open spec fn wrap(&self) -> ValueView {
        ValueView::Str(seq![*self])
    }

    fn into_value(self) -> (v: Value) {
        Value::Str(string_of_char(self))
    }

    fn to_value(&self) -> (v: Value) {
        Value::Str(string_of_char(*self))
    }

    proof fn lemma_wrap_signature(&self) {
        lemma_descriptor_table();
    }
}

impl Value {
    /// Lifts a native value into a dynamic one.
    pub fn new<T: IntoValue>(native: T) -> (v: Value)
        ensures
            v@ == native.wrap(),
            v@.signature() == T::signature_spec(),
    {
        proof {
            native.lemma_wrap_signature();
        }
        native.into_value()
    }

    /// The signature of this value.
    pub fn value_signature(&self) -> (s: Signature)
        ensures
            s@ == self@.signature(),
    {
        proof {
            lemma_signature_tells_kind(self@);
        }
        match self {
            Value::U8(_) => u8::signature(),
            Value::Bool(_) => bool::signature(),
            Value::I16(_) => i16::signature(),
            Value::U16(_) => u16::signature(),
            Value::I32(_) => i32::signature(),
            Value::U32(_) => u32::signature(),
            Value::I64(_) => i64::signature(),
            Value::U64(_) => u64::signature(),
            Value::F64(_) => Double::signature(),
            Value::Str(_) => String::signature(),
        }
    }

    /// A view of the native value inside, where this value is of `T`'s kind.
    pub fn downcast_ref<T: FromValue + ?Sized>(&self) -> (r: Option<&T>)
        ensures
            r is Some <==> self@.signature() == T::signature_spec(),
            r matches Some(x) ==> x.wrap() == self@,
    {
        T::downcast_ref(self)
    }

    /// A value of the same kind and content that borrows nothing.
    pub fn to_owned(&self) -> (v: Value)
        ensures
            v@ == self@,
    {
        match self {
            Value::U8(x) => Value::U8(*x),
            Value::Bool(x) => Value::Bool(*x),
            Value::I16(x) => Value::I16(*x),
            Value::U16(x) => Value::U16(*x),
            Value::I32(x) => Value::I32(*x),
            Value::U32(x) => Value::U32(*x),
            Value::I64(x) => Value::I64(*x),
            Value::U64(x) => Value::U64(*x),
            Value::F64(x) => Value::F64(*x),
            Value::Str(x) => Value::Str(x.clone()),
        }
    }
}

} // verus!
