//! From a file's bytes to the decision whether it is rewritten.

use crate::cleaner::{cleaned_text, has_flagged_line, LineCleaner, Rewrite};
use crate::failure::FailureKind;
use crate::language::Language;
use vstd::prelude::*;
use vstd::utf8::{decode_utf8, valid_utf8};

verus! {

/// `std::string::FromUtf8Error`. Nothing is known of what is inside.
#[verifier::external_type_specification]
#[verifier::external_body]
pub struct ExFromUtf8Error(std::string::FromUtf8Error);

/// `String::from_utf8` succeeds exactly on valid UTF-8, and the string
/// then holds the characters that the bytes encode.
pub assume_specification[ String::from_utf8 ](vec: Vec<u8>) -> (r: Result<
    String,
    std::string::FromUtf8Error,
>)
    ensures
        valid_utf8(vec@) <==> r is Ok,
        r matches Ok(s) ==> s@ == decode_utf8(vec@),
;

/// Decodes the bytes of a file with the given extension and runs over
/// the text. Bytes that are not UTF-8 are a decode failure; otherwise the
/// file is rewritten exactly when some line changed.
pub fn process_content(bytes: Vec<u8>, extension: &str) -> (r: Result<Rewrite, FailureKind>)
    ensures
        match r {
            Err(kind) => kind == FailureKind::Decode && !valid_utf8(bytes@),
            Ok(rewrite) => {
                let syntax = Language::of_extension(extension@).syntax_model();
                &&& valid_utf8(bytes@)
                &&& match rewrite {
                    Rewrite::Keep => !has_flagged_line(decode_utf8(bytes@), syntax),
                    Rewrite::Replace(text) => {
                        &&& has_flagged_line(decode_utf8(bytes@), syntax)
                        &&& text@ == cleaned_text(decode_utf8(bytes@), syntax)
                    },
                }
            },
        },
{
    match String::from_utf8(bytes) {
        Ok(content) => Ok(LineCleaner::for_extension(extension).sweep(content.as_str())),
        Err(_) => Err(FailureKind::Decode),
    }
}

} // verus!
