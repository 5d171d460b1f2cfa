//! The failures of the account state that this crate gives a name to.

use vstd::prelude::*;
use crate::primitives::B256;

verus! {

/// Why the account state refused a request.
#[derive(Clone, Copy, Debug, PartialEq, Eq)]
pub enum DatabaseError {
    /// There is no checkpoint to go back to.
    CannotRevert,
    /// No contract has code with this hash.
    InvalidCodeHash(B256),
    /// The state has never had this root.
    InvalidStateRoot(B256),
}

} // verus!
