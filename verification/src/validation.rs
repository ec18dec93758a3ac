//! Checks applied to inputs at the contract boundary.
use crate::error::Error;
use crate::types::Addr;
use vstd::prelude::*;

verus! {

/// Whether a byte is ASCII whitespace (space, tab, line feed, form feed or
/// carriage return).
pub open spec fn is_blank_byte(b: u8) -> bool {
    b == 0x20 || b == 0x09 || b == 0x0A || b == 0x0C || b == 0x0D
}

/// Whether a text holds nothing but whitespace (the empty text included).
pub open spec fn is_blank(text: Seq<u8>) -> bool {
    forall|i: int| 0 <= i < text.len() ==> #[trigger] is_blank_byte(text[i])
}

/// Refuses an empty or whitespace-only text (given as its UTF-8 bytes).
pub fn reject_empty_string(text: &[u8]) -> (r: Result<(), Error>)
    ensures
        r == if is_blank(text@) {
            Err::<(), Error>(Error::InvalidInput)
        } else {
            Ok::<(), Error>(())
        },
{
    let mut i: usize = 0;
    while i < text.len()
        invariant
            0 <= i <= text@.len(),
            forall|j: int| 0 <= j < i ==> #[trigger] is_blank_byte(text@[j]),
        decreases text@.len() - i,
    {
        let b = text[i];
        if !(b == 0x20 || b == 0x09 || b == 0x0A || b == 0x0C || b == 0x0D) {
            assert(!is_blank_byte(text@[i as int]));
            return Ok(());
        }
        i = i + 1;
    }
    Err(Error::InvalidInput)
}

/// Refuses the contract's own address where an outside address is expected.
pub fn reject_contract_self(current_contract: Addr, addr: Addr) -> (r: Result<(), Error>)
    ensures
        r == if addr == current_contract {
            Err::<(), Error>(Error::InvalidInput)
        } else {
            Ok::<(), Error>(())
        },
{
    if addr == current_contract {
        Err(Error::InvalidInput)
    } else {
        Ok(())
    }
}

} // verus!
