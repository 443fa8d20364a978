//! What the library takes from the standard library about Unicode text.
//!
//! Nothing in this file is proved. Each item gives a contract to one function
//! of the standard library, and the rest of the crate is verified against
//! these contracts.

use vstd::prelude::*;
use vstd::string::StringSliceAdditionalSpecFns;
use vstd::utf8::valid_utf8;

verus! {

/// The lowercase form of `s`: the text that `str::to_lowercase` returns for it.
pub uninterp spec fn lowercase(s: Seq<char>) -> Seq<char>;

/// `str::to_lowercase` returns the lowercase form of the whole text as a new
/// `String`. The mapping is Unicode's and depends on the text alone, so the
/// contract only names it.
pub assume_specification[ str::to_lowercase ](s: &str) -> (lower: String)
    ensures
        lower@ == lowercase(s@),
;

/// The error of `core::str::from_utf8`. The library never looks inside it.
#[verifier::external_type_specification]
#[verifier::external_body]
pub struct ExUtf8Error(core::str::Utf8Error);

/// `core::str::from_utf8` accepts exactly the well-formed UTF-8 byte
/// sequences, and the string slice it returns consists of the bytes it was
/// given.
pub assume_specification[ core::str::from_utf8 ](bytes: &[u8]) -> (text: Result<
    &str,
    core::str::Utf8Error,
>)
    ensures
        text is Ok <==> valid_utf8(bytes@),
        text matches Ok(s) ==> s.spec_bytes() == bytes@,
;

} // verus!
