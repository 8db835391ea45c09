//! The fields of a submitted form, and the target record that a creation
//! form asks for.

use crate::digest::{gen_hash, hashes_password};
use crate::error::Error;
use crate::record::Target;
use vstd::prelude::*;

verus! {

/// The value of one form entry: text, or an uploaded file, of which only the
/// presence matters here.
#[derive(Debug, PartialEq, Eq)]
pub enum FormValue {
    Field(String),
    File,
}

/// The text of a form entry; nothing for a missing entry and for a file.
pub open spec fn field_text(value: Option<FormValue>) -> Option<Seq<char>> {
    match value {
        Some(FormValue::Field(text)) => Some(text@),
        _ => None,
    }
}

/// The text of a form entry; nothing for a missing entry and for a file.
pub fn field(value: Option<FormValue>) -> (text: Option<String>)
    ensures
        match text {
            Some(t) => field_text(value) == Some(t@),
            None => field_text(value) is None,
        },
{
    match value {
        Some(FormValue::Field(text)) => Some(text),
        _ => None,
    }
}

/// The target record that a creation form asks for: the URL as it was
/// entered, and a fresh digest of the password if one was entered. A form
/// without a URL in text fails validation.
pub fn get_target(url: Option<FormValue>, password: Option<FormValue>) -> (outcome: Result<
    Target,
    Error,
>)
    ensures
        match outcome {
            Ok(target) => field_text(url) == Some(target.url@) && hashes_password(
                target@.pw_hash,
                field_text(password),
            ),
            Err(e) => e == Error::Validation && field_text(url) is None,
        },
{
    match field(url) {
        None => Err(Error::Validation),
        Some(new_url) => {
            let pw_hash = match field(password) {
                Some(secret) => Some(gen_hash(secret)),
                None => None,
            };
            Ok(Target { url: new_url, pw_hash })
        },
    }
}

} // verus!
