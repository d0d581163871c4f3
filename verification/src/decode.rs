//! Reading bytes as text.

use vstd::prelude::*;
use vstd::utf8::{encode_utf8, valid_utf8};

verus! {

/// The error with which `String::from_utf8` refuses bytes that are not valid
/// UTF-8. Nothing is known of what it holds.
#[verifier::external_type_specification]
#[verifier::external_body]
pub struct ExFromUtf8Error(std::string::FromUtf8Error);

/// `String::from_utf8` is believed to accept a vector exactly when its bytes
/// are valid UTF-8, and to return then the string that is made of these
/// bytes: the string whose UTF-8 encoding they are.
pub assume_specification[ String::from_utf8 ](vec: Vec<u8>) -> (outcome: Result<
    String,
    std::string::FromUtf8Error,
>)
    ensures
        outcome is Ok <==> valid_utf8(vec@),
        outcome matches Ok(text) ==> encode_utf8(text@) == vec@,
;

} // verus!
