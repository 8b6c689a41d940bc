//! The grammar of sandbox and namespace names.

use vstd::prelude::*;

verus! {

/// A character allowed anywhere in a sandbox or namespace name.
pub open spec fn is_name_char(c: char) -> bool {
    is_name_start_char(c) || c == '-' || c == '_'
}

/// A character allowed at the start of a name: ASCII alphanumeric.
pub open spec fn is_name_start_char(c: char) -> bool {
    ('0' <= c && c <= '9') || ('a' <= c && c <= 'z') || ('A' <= c && c <= 'Z')
}

/// A valid sandbox or namespace name: non-empty, at most 63 characters,
/// made of alphanumerics, `-` and `_`, and starting with an alphanumeric.
pub open spec fn valid_name(s: Seq<char>) -> bool {
    &&& 1 <= s.len() <= 63
    &&& is_name_start_char(s[0])
    &&& forall|i: int| 0 <= i < s.len() ==> is_name_char(#[trigger] s[i])
}

/// Decides whether one character may start a name.
pub fn name_start_char(c: char) -> (r: bool)
    ensures
        r == is_name_start_char(c),
{
    ('0' <= c && c <= '9') || ('a' <= c && c <= 'z') || ('A' <= c && c <= 'Z')
}

/// Decides whether one character may appear in a name.
pub fn name_char(c: char) -> (r: bool)
    ensures
        r == is_name_char(c),
{
    name_start_char(c) || c == '-' || c == '_'
}

/// Decides the name grammar: non-empty, at most 63 characters, alphanumeric
/// plus `-` and `_`, starting with an alphanumeric.
pub fn is_valid_name(name: &str) -> (r: bool)
    ensures
        r == valid_name(name@),
{
    let len = name.unicode_len();
    if len == 0 || len > 63 {
        return false;
    }
    if !name_start_char(name.get_char(0)) {
        return false;
    }
    let mut i: usize = 0;
    while i < len
        invariant
            i <= len,
            len == name@.len(),
            1 <= len <= 63,
            is_name_start_char(name@[0]),
            forall|k: int| 0 <= k < i ==> is_name_char(#[trigger] name@[k]),
        decreases len - i,
    {
        if !name_char(name.get_char(i)) {
            return false;
        }
        i = i + 1;
    }
    true
}

/// Validates a sandbox name, accepting exactly the name grammar.
pub fn validate_sandbox_name(name: &str) -> (r: Result<(), crate::error::ServerError>)
    ensures
        r.is_ok() == valid_name(name@),
        r is Err ==> r->Err_0 is InvalidInput,
{
    if is_valid_name(name) {
        Ok(())
    } else {
        Err(crate::error::ServerError::InvalidInput(
            "sandbox name must be 1-63 alphanumeric, '-' or '_' characters and start with an alphanumeric".to_owned(),
        ))
    }
}

/// Validates a namespace for creation, accepting exactly the name grammar;
/// the wildcard `*` is rejected here because it is only a query.
pub fn validate_namespace(namespace: &str) -> (r: Result<(), crate::error::ServerError>)
    ensures
        r.is_ok() == valid_name(namespace@),
        r is Err ==> r->Err_0 is InvalidInput,
{
    if is_valid_name(namespace) {
        Ok(())
    } else {
        Err(crate::error::ServerError::InvalidInput(
            "namespace must be 1-63 alphanumeric, '-' or '_' characters and start with an alphanumeric".to_owned(),
        ))
    }
}

} // verus!
