//! The typed-value layer of a self-describing wire format: the registry of
//! primitive signatures and the signature-checked dictionary.

pub mod basic;
pub mod dict;
pub mod error;
pub mod signature;
pub mod value;

pub use basic::{Basic, Double, Single};
pub use dict::{Dict, DictEntry, DictView};
pub use error::Error;
pub use signature::{Signature, Type};
pub use value::{FromValue, IntoValue, Value, ValueView};
