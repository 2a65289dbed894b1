//! Shared identifiers and engine-wide constants.

use vstd::prelude::*;

verus! {

/// Size in bytes of every page image.
pub const PAGE_SIZE: usize = 4096;

/// Sentinel page id marking the end of a page chain.
pub const INVALID_PAGE_ID: u32 = 0xffff_ffff;

/// Sentinel transaction id; a tuple whose `xmax` holds it is live.
pub const INVALID_TRANSACTION_ID: u32 = 0xffff_ffff;

#[derive(Clone, Copy, Debug, PartialEq, Eq, Structural)]
pub struct PageID(pub u32);

#[derive(Clone, Copy, Debug, PartialEq, Eq, Structural)]
pub struct TransactionID(pub u32);

#[derive(Clone, Copy, Debug, PartialEq, Eq, Structural)]
pub struct LSN(pub u64);

/// Row identifier: the page a tuple lives on and its slot within that page.
/// Slots are never reused, so a `Rid` is stable for the life of the slot.
#[derive(Clone, Copy, Debug, PartialEq, Eq, Structural)]
pub struct Rid {
    pub page_id: PageID,
    pub slot_index: u32,
}

} // verus!
