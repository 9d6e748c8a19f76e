use vstd::prelude::*;
use vstd::string::StringExecFns;
use crate::basic::Basic;

verus! {

/// A string that describes the wire shape of a value.
#[derive(Debug, Clone)]
pub struct Signature {
    text: String,
}

impl View for Signature {
    type V = Seq<char>;

    closed spec fn view(&self) -> Seq<char> {
        self.text@
    }
}

impl PartialEq for Signature {
    fn eq(&self, other: &Signature) -> (r: bool) {
        self.text == other.text
    }
}

impl vstd::std_specs::cmp::PartialEqSpecImpl for Signature {
    open spec fn obeys_eq_spec() -> bool {
        true
    }

    open spec fn eq_spec(&self, other: &Signature) -> bool {
        self@ == other@
    }
}

impl Signature {
    /// The signature that `text` spells. The text is taken as it is.
    pub fn from_str_unchecked(text: &str) -> (s: Signature)
        ensures
            s@ == text@,
    {
        Signature { text: String::from_str(text) }
    }

    /// The signature that `text` spells. The text is taken as it is.
    pub fn from_string_unchecked(text: String) -> (s: Signature)
        ensures
            s@ == text@,
    {
        Signature { text }
    }

    /// The text of the signature.
    pub fn as_str(&self) -> (s: &str)
        ensures
            s@ == self@,
    {
        self.text.as_str()
    }

    /// A signature with the same text that borrows nothing.
    pub fn to_owned(&self) -> (s: Signature)
        ensures
            s@ == self@,
    {
        Signature { text: self.text.clone() }
    }
}

/// A type that knows the signature of its values.
pub trait Type {
    /// The text of the signature.
    spec fn signature_spec() -> Seq<char>;

    /// The signature of every value of this type.
    fn signature() -> (s: Signature)
        ensures
            s@ == Self::signature_spec(),
    ;
}

// A string slice has the signature of the reference to it.
impl Type for str {
    open spec fn signature_spec() -> Seq<char> {
        <&str>::SIGNATURE_STR@
    }

    fn signature() -> (s: Signature) {
        Signature::from_str_unchecked(<&str>::SIGNATURE_STR)
    }
}

impl<T: Basic> Type for T {
    open spec fn signature_spec() -> Seq<char> {
        T::SIGNATURE_STR@
    }

    fn signature() -> (s: Signature) {
        Signature::from_str_unchecked(T::SIGNATURE_STR)
    }
}

} // verus!
