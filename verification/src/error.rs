//! The error of a value that could not be parsed.
use vstd::prelude::*;

verus! {

#[derive(Debug)]
pub struct ParseError<'a> {
    pub error: &'static str,
    pub value: &'a str,
}

impl<'a> ParseError<'a> {
    pub fn new(error: &'static str, value: &'a str) -> (r: Self)
        ensures
            r.error == error,
            r.value == value,
    {
        Self { error, value }
    }

    /// The error as text: `error: value`.
    pub fn message(&self) -> (r: String)
        ensures
            r@ == self.error@ + ": "@ + self.value@,
    {
        let mut out: Vec<char> = Vec::new();
        crate::text::push_str(&mut out, self.error);
        crate::text::push_str(&mut out, ": ");
        crate::text::push_str(&mut out, self.value);
        crate::text::string_from_chars(out.as_slice())
    }
}

} // verus!
