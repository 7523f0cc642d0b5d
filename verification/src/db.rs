//! The names of the backing store's tables and of its one counter cell.

use vstd::prelude::*;

verus! {

/// The top-level keys the backing store is laid out under: two flat tables,
/// a ban table, and the shared post counter.
pub enum Keys {
    Boards,
    Threads,
    BannedIps,
    PostCount,
}

/// The store-level name of each key.
pub open spec fn key_name_of(k: Keys) -> Seq<char> {
    match k {
        Keys::Boards => "boards"@,
        Keys::Threads => "threads"@,
        Keys::BannedIps => "banned_ips"@,
        Keys::PostCount => "post_count"@,
    }
}

impl Keys {
    /// The name this key has in the backing store.
    pub fn key_name(&self) -> (r: &'static str)
        ensures
            r@ == key_name_of(*self),
    {
        match self {
            Keys::Boards => "boards",
            Keys::Threads => "threads",
            Keys::BannedIps => "banned_ips",
            Keys::PostCount => "post_count",
        }
    }
}

} // verus!
