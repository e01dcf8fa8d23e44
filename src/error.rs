use vstd::prelude::*;

verus! {

/// Every way in which building or decoding an identifier can fail.
#[derive(Debug, Clone, Copy, PartialEq, Eq, Structural)]
pub enum Error {
    /// The text is not an E.164 telephone number: an optional `+` and then
    /// one to fifteen decimal digits, nothing else.
    InvalidPhoneNumber,
    /// The object has no `"format"` member, or the member is not a string,
    /// or it names a format that this decoder does not know.
    UnknownFormat,
    /// The value is not an object, or the format is known but the members do
    /// not follow its schema: a required member is missing or repeated, a
    /// member is foreign to the format, a member holds a value of the wrong
    /// shape or an empty string, or an aliases list is empty.
    SchemaMismatch,
    /// The object is neither an atomic identifier nor an aliases identifier.
    NoMatchingShape,
}

} // verus!
