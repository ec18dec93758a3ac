use vstd::prelude::*;

verus! {

/// Version carried by every event payload; payloads only grow by appending
/// fields, and each change of shape bumps this number.
pub const EVENT_SCHEMA_VERSION: u32 = 2;

} // verus!
