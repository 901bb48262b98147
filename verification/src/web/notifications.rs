//! Change notifications sent by the database.

use vstd::prelude::*;

verus! {

/// What happened to a row.
#[derive(Debug, Clone, Copy, PartialEq, Eq)]
pub enum PayloadVariant {
    Insert { new_id: u64 },
    Update { old_id: u64, new_id: u64 },
    Delete { old_id: u64 },
}

/// A change to a row of `table`.
#[derive(Debug, Clone)]
pub struct Payload {
    pub table: String,
    pub variant: PayloadVariant,
}

} // verus!
