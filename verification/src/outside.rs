use vstd::prelude::*;

use valence::prelude::{BlockKind, ItemKind};

verus! {

/// What `str::to_lowercase` gives for a text: each character's lowercase form
/// under Unicode's rules (a function of the text alone).
pub uninterp spec fn lowercase(s: Seq<char>) -> Seq<char>;

/// The raw id (`ItemKind::to_raw`) of the item kind whose snake_case name is `name`,
/// if there is one.
pub uninterp spec fn item_kind_id(name: Seq<char>) -> Option<u16>;

/// The raw id (`BlockKind::to_raw`) of the block kind whose snake_case name is
/// `name`, if there is one.
pub uninterp spec fn block_kind_id(name: Seq<char>) -> Option<u16>;

/// Calls `str::to_lowercase`. The contract claims only that the result is the one
/// named by `lowercase` for the given text; the Unicode case rules are not stated.
#[verifier::external_body]
pub(crate) fn to_lowercase(s: &str) -> (lower: String)
    ensures
        lower@ == lowercase(s@),
{
    s.to_lowercase()
}

/// Calls valence's `ItemKind::from_str` and gives the raw id of the kind found.
/// The contract claims that the result is the one named by `item_kind_id` for the
/// given name; the table of names is not stated.
#[verifier::external_body]
pub(crate) fn lookup_item_kind(name: &str) -> (id: Option<u16>)
    ensures
        id == item_kind_id(name@),
{
    match ItemKind::from_str(name) {
        Some(kind) => Some(kind.to_raw()),
        None => None,
    }
}

/// Calls valence's `BlockKind::from_str` and gives the raw id of the kind found.
/// The contract claims that the result is the one named by `block_kind_id` for the
/// given name; the table of names is not stated.
#[verifier::external_body]
pub(crate) fn lookup_block_kind(name: &str) -> (id: Option<u16>)
    ensures
        id == block_kind_id(name@),
{
    match BlockKind::from_str(name) {
        Some(kind) => Some(kind.to_raw()),
        None => None,
    }
}

} // verus!
