use vstd::prelude::*;

verus! {

/// A type with a one-character wire tag, a signature string and an alignment.
pub trait Basic {
    const SIGNATURE_CHAR: char;
    const SIGNATURE_STR: &'static str;
    const ALIGNMENT: usize;
}

/// A 64-bit IEEE 754 number, held by its bit pattern.
#[derive(Debug, Clone, Copy, PartialEq, Eq, Hash, Structural)]
pub struct Double {
    pub bits: u64,
}

/// A 32-bit IEEE 754 number, held by its bit pattern.
#[derive(Debug, Clone, Copy, PartialEq, Eq, Hash, Structural)]
pub struct Single {
    pub bits: u32,
}

impl Basic for u8 {
    const SIGNATURE_CHAR: char = 'y';
    const SIGNATURE_STR: &'static str = "y";
    const ALIGNMENT: usize = 1;
}

// The wire format has no 8-bit signed integer: it travels as a 16-bit one.
impl Basic for i8 {
    const SIGNATURE_CHAR: char = i16::SIGNATURE_CHAR;
    const SIGNATURE_STR: &'static str = i16::SIGNATURE_STR;
    const ALIGNMENT: usize = i16::ALIGNMENT;
}

impl Basic for bool {
    const SIGNATURE_CHAR: char = 'b';
    const SIGNATURE_STR: &'static str = "b";
    const ALIGNMENT: usize = 4;
}

impl Basic for i16 {
    const SIGNATURE_CHAR: char = 'n';
    const SIGNATURE_STR: &'static str = "n";
    const ALIGNMENT: usize = 2;
}

impl Basic for u16 {
    const SIGNATURE_CHAR: char = 'q';
    const SIGNATURE_STR: &'static str = "q";
    const ALIGNMENT: usize = 2;
}

impl Basic for i32 {
    const SIGNATURE_CHAR: char = 'i';
    const SIGNATURE_STR: &'static str = "i";
    const ALIGNMENT: usize = 4;
}

impl Basic for u32 {
    const SIGNATURE_CHAR: char = 'u';
    const SIGNATURE_STR: &'static str = "u";
    const ALIGNMENT: usize = 4;
}

impl Basic for i64 {
    const SIGNATURE_CHAR: char = 'x';
    const SIGNATURE_STR: &'static str = "x";
    const ALIGNMENT: usize = 8;
}

impl Basic for u64 {
    const SIGNATURE_CHAR: char = 't';
    const SIGNATURE_STR: &'static str = "t";
    const ALIGNMENT: usize = 8;
}

// The wire format has no 32-bit float: it travels as a 64-bit one.
impl Basic for Single {
    const SIGNATURE_CHAR: char = Double::SIGNATURE_CHAR;
    const SIGNATURE_STR: &'static str = Double::SIGNATURE_STR;
    const ALIGNMENT: usize = Double::ALIGNMENT;
}

impl Basic for Double {
    const SIGNATURE_CHAR: char = 'd';
    const SIGNATURE_STR: &'static str = "d";
    const ALIGNMENT: usize = 8;
}

impl Basic for &str {
    const SIGNATURE_CHAR: char = 's';
    const SIGNATURE_STR: &'static str = "s";
    const ALIGNMENT: usize = 4;
}

impl Basic for String {
    const SIGNATURE_CHAR: char = 's';
    const SIGNATURE_STR: &'static str = "s";
    const ALIGNMENT: usize = 4;
}

// A single Unicode scalar value travels as a string.
impl Basic for char {
    const SIGNATURE_CHAR: char = <&str>::SIGNATURE_CHAR;
    const SIGNATURE_STR: &'static str = <&str>::SIGNATURE_STR;
    const ALIGNMENT: usize = <&str>::ALIGNMENT;
}

/// The signature string of `T` is its tag alone, and its alignment is a
/// power of two up to eight.
pub open spec fn well_described<T: Basic>() -> bool {
    &&& T::SIGNATURE_STR@ == seq![T::SIGNATURE_CHAR]
    &&& (T::ALIGNMENT == 1 || T::ALIGNMENT == 2 || T::ALIGNMENT == 4 || T::ALIGNMENT == 8)
}

/// `T` has the tag `tag` and the alignment `alignment`.
pub open spec fn described_as<T: Basic>(tag: char, alignment: usize) -> bool {
    T::SIGNATURE_CHAR == tag && T::SIGNATURE_STR@ == seq![tag] && T::ALIGNMENT == alignment
}

/// `T` and `U` have the same tag, signature string and alignment.
pub open spec fn same_descriptor<T: Basic, U: Basic>() -> bool {
    &&& T::SIGNATURE_CHAR == U::SIGNATURE_CHAR
    &&& T::SIGNATURE_STR@ == U::SIGNATURE_STR@
    &&& T::ALIGNMENT == U::ALIGNMENT
}

/// Every primitive type has the tag and the alignment that the wire format
/// assigns to it, and its signature string is that tag alone.
pub proof fn lemma_descriptor_table()
    ensures
        described_as::<u8>('y', 1),
        described_as::<bool>('b', 4),
        described_as::<i16>('n', 2),
        described_as::<u16>('q', 2),
        described_as::<i32>('i', 4),
        described_as::<u32>('u', 4),
        described_as::<i64>('x', 8),
        described_as::<u64>('t', 8),
        described_as::<Double>('d', 8),
        described_as::<&str>('s', 4),
        described_as::<String>('s', 4),
        described_as::<i8>('n', 2),
        described_as::<Single>('d', 8),
        described_as::<char>('s', 4),
{
    reveal_strlit("y");
    reveal_strlit("b");
    reveal_strlit("n");
    reveal_strlit("q");
    reveal_strlit("i");
    reveal_strlit("u");
    reveal_strlit("x");
    reveal_strlit("t");
    reveal_strlit("d");
    reveal_strlit("s");
    assert("y"@ =~= seq!['y']);
    assert("b"@ =~= seq!['b']);
    assert("n"@ =~= seq!['n']);
    assert("q"@ =~= seq!['q']);
    assert("i"@ =~= seq!['i']);
    assert("u"@ =~= seq!['u']);
    assert("x"@ =~= seq!['x']);
    assert("t"@ =~= seq!['t']);
    assert("d"@ =~= seq!['d']);
    assert("s"@ =~= seq!['s']);
}

/// Every primitive type's signature string has length one and is its tag,
/// and its alignment is one of 1, 2, 4 and 8.
pub proof fn lemma_well_described()
    ensures
        well_described::<u8>(),
        well_described::<bool>(),
        well_described::<i16>(),
        well_described::<u16>(),
        well_described::<i32>(),
        well_described::<u32>(),
        well_described::<i64>(),
        well_described::<u64>(),
        well_described::<Double>(),
        well_described::<&str>(),
        well_described::<String>(),
        well_described::<i8>(),
        well_described::<Single>(),
        well_described::<char>(),
{
    lemma_descriptor_table();
}

/// The three types without a wire representation of their own carry the
/// descriptor of the type that stands in for them.
pub proof fn lemma_aliases()
    ensures
        same_descriptor::<i8, i16>(),
        same_descriptor::<Single, Double>(),
        same_descriptor::<char, &str>(),
{
}

} // verus!
