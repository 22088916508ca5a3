//! The value model: the tagged union of rich runtime value kinds that commands
//! exchange through the handle store when a plain text variable cannot carry
//! the payload.

use vstd::prelude::*;

verus! {

/// A rich runtime value held by the handle store. The scripting runtime's
/// variables are plain text; a command whose result cannot be represented as
/// text stores one of these and hands the generated handle key around instead.
///
/// Adding a kind is a new variant here, so every consumption site is forced by
/// the compiler to decide what the new kind means for it.
pub enum Value {
    /// Plain text, for commands that deliberately move text through a handle.
    Text(String),
    /// A binary byte sequence, the kind the base64 commands work with.
    ByteArray(Vec<u8>),
}

/// The mathematical shape of a [`Value`]: the same tags over abstract
/// sequences.
pub enum ValueView {
    Text(Seq<char>),
    ByteArray(Seq<u8>),
}

impl View for Value {
    type V = ValueView;

    open spec fn view(&self) -> ValueView {
        match self {
            Value::Text(s) => ValueView::Text(s@),
            Value::ByteArray(b) => ValueView::ByteArray(b@),
        }
    }
}

impl DeepView for Value {
    type V = ValueView;

    open spec fn deep_view(&self) -> ValueView {
        self.view()
    }
}

impl Value {
    /// Whether this value is of the binary byte-sequence kind.
    pub fn is_byte_array(&self) -> (r: bool)
        ensures
            r == (self@ is ByteArray),
    {
        match self {
            Value::ByteArray(_) => true,
            _ => false,
        }
    }
}

} // verus!
