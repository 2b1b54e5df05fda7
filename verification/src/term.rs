//! Validation of a terminal name for resolution.
//!
//! Resolving a terminal by name hands the name to the native library as a
//! null-terminated byte string.  A name whose own bytes contain a null
//! cannot be represented that way; from the caller's perspective such a
//! name does not identify a usable terminal, so it fails with the same
//! `NotFound` error as a name the database does not know.

use vstd::prelude::*;
use vstd::string::StringSliceAdditionalSpecFns;

use crate::error::TermError;

verus! {

/// Turns a terminal name into the null-terminated byte string handed to
/// the native resolution call: the name's own bytes followed by a single
/// null terminator.  A name containing an embedded null byte cannot be so
/// represented and fails with `NotFound` carrying that name.
pub fn term_name_bytes(name: &str) -> (r: Result<Vec<u8>, TermError>)
    ensures
        name.spec_bytes().contains(0) ==> (r matches Err(TermError::NotFound(s)) && s@ == name@),
        !name.spec_bytes().contains(0) ==> (r matches Ok(v) && v@ == name.spec_bytes().push(0)),
{
    let bytes: &[u8] = name.as_bytes();
    let n: usize = bytes.len();
    let mut i: usize = 0;
    while i < n
        invariant
            i <= n,
            n == bytes@.len(),
            bytes@ == name.spec_bytes(),
            forall|j: int| 0 <= j < i ==> bytes@[j] != 0,
        decreases n - i,
    {
        if *vstd::slice::slice_index_get(bytes, i) == 0 {
            assert(name.spec_bytes().contains(0));
            return Err(TermError::from_name(name));
        }
        i = i + 1;
    }
    assert(!name.spec_bytes().contains(0)) by {
        if name.spec_bytes().contains(0) {
            let k = choose|k: int| 0 <= k < name.spec_bytes().len() && name.spec_bytes()[k] == 0;
            assert(bytes@[k] != 0);
        }
    }
    let mut v: Vec<u8> = vstd::slice::slice_to_vec(bytes);
    v.push(0);
    Ok(v)
}

} // verus!
