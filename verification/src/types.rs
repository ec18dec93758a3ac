//! Plain values shared by the vault's modules.
use vstd::prelude::*;

verus! {

/// An account or contract address. The vault only compares addresses and
/// uses them as keys, so one is held as the integer that identifies it.
#[derive(Debug, Clone, Copy, PartialEq, Eq, Structural)]
pub struct Addr(pub u64);

} // verus!
