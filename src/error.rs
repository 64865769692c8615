//! Errors of argument parsing and encoding.
use vstd::prelude::*;

verus! {

/// Why a command-line argument or type could not be turned into its
/// canonical form.
#[derive(Debug)]
pub enum ArgError {
    /// A literal that its type's parser does not accept; holds the literal.
    Parse(String),
    /// A string that is not hex; holds the string.
    Decode(String),
    /// A string that is neither a checksummed nor a hex address; holds it.
    AddressFormat(String),
    /// The elements of one vector are nested to different depths.
    DepthMismatch,
    /// A JSON `null` or object, which has no encoding.
    UnsupportedLiteral,
    /// A type name outside the supported set; holds the name.
    InvalidArgType(String),
    /// An argument without the `<type>:` in front of its value.
    MissingType,
    /// A type (a reference, or one that did not parse) with no on-chain tag.
    TypeConversion,
}

} // verus!
