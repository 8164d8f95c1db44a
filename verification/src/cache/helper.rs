//! The id of a project.
use vstd::prelude::*;

use crate::external::{sha256_hex, sha256_hex_of};

verus! {

/// The id of the project rooted at `root_dir`: the SHA-256 digest of the path in lower-case
/// hexadecimal.
pub fn project_hash_of(root_dir: &str) -> (r: String)
    ensures
        r@ == sha256_hex_of(root_dir@),
        r@.len() == 64,
{
    sha256_hex(root_dir)
}

} // verus!
