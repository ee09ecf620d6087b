//! Case transforms on text.

use vstd::prelude::*;
use crate::value::{Value, ValueView, option_view};

verus! {

/// The upper-case form of a text, as the standard library computes it.
pub uninterp spec fn uppercase(text: Seq<char>) -> Seq<char>;

/// The lower-case form of a text, as the standard library computes it.
pub uninterp spec fn lowercase(text: Seq<char>) -> Seq<char>;

/// `str::to_uppercase` gives the upper-case equivalent of a string slice, by
/// the case mappings of Unicode that the standard library holds. It reads
/// nothing but the slice, no locale either, so its result is a function of
/// the text: the one that `uppercase` names.
pub assume_specification[ str::to_uppercase ](text: &str) -> (result: String)
    ensures
        result@ == uppercase(text@),
;

/// `str::to_lowercase` gives the lower-case equivalent of a string slice, by
/// the case mappings of Unicode that the standard library holds. It reads
/// nothing but the slice, no locale either, so its result is a function of
/// the text: the one that `lowercase` names.
pub assume_specification[ str::to_lowercase ](text: &str) -> (result: String)
    ensures
        result@ == lowercase(text@),
;

/// A transform of one string into another.
#[derive(Clone, Copy, Debug, PartialEq, Eq)]
pub enum StringTransform {
    UpperCase,
    LowerCase,
}

impl StringTransform {
    /// The text that the transform makes of `text`.
    pub open spec fn apply(self, text: Seq<char>) -> Seq<char> {
        match self {
            StringTransform::UpperCase => uppercase(text),
            StringTransform::LowerCase => lowercase(text),
        }
    }

    /// The value that the transform makes of `input`: a string gives the
    /// transformed string, any other value gives nothing.
    pub open spec fn transformed(self, input: ValueView) -> Option<ValueView> {
        match input {
            ValueView::String(text) => Some(ValueView::String(self.apply(text))),
            _ => None,
        }
    }

    /// Applies the transform to a value. Only a string can be transformed.
    pub fn evaluate(&self, input: Value) -> (result: Option<Value>)
        ensures
            option_view(result) == self.transformed(input@),
    {
        let s = input.as_str()?;
        match self {
            StringTransform::UpperCase => Some(Value::String(s.to_uppercase())),
            StringTransform::LowerCase => Some(Value::String(s.to_lowercase())),
        }
    }
}

} // verus!
