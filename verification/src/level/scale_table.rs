//! A lookup table from scale groups to accumulators, kept in the hash map of
//! the engine's utility crate.
//!
//! Nothing in this file is proved: the table is the engine's, and what is
//! said of it here is taken from its source.

use vstd::prelude::*;

verus! {

/// A `bevy::utils::HashMap` (the `hashbrown` map with the engine's hasher)
/// from a group's ordinal to the raw value of its accumulator. Verus does not
/// look inside; what the table holds is named by [`table_entries`].
#[verifier::external_body]
pub struct ScaleTable {
    map: bevy::utils::HashMap<u8, i64>,
}

/// The entries of a table: for each ordinal that has one, the raw accumulator
/// stored under it.
pub uninterp spec fn table_entries(table: ScaleTable) -> Map<u8, i64>;

/// Calls `Default::default` of `bevy::utils::HashMap`. Claims that the new
/// map has no entry.
#[verifier::external_body]
pub(crate) fn table_new() -> (table: ScaleTable)
    ensures
        table_entries(table) == (Map::<u8, i64>::empty()),
{
    ScaleTable { map: bevy::utils::HashMap::default() }
}

/// Calls `HashMap::insert`. Claims that afterwards `ordinal` maps to `raw`,
/// whether or not the table held an entry under the same ordinal before, and
/// that every other entry is as it was.
#[verifier::external_body]
pub(crate) fn table_insert(table: &mut ScaleTable, ordinal: u8, raw: i64)
    ensures
        table_entries(*final(table)) == table_entries(*old(table)).insert(ordinal, raw),
{
    table.map.insert(ordinal, raw);
}

/// Calls `HashMap::get`. Claims that it returns the value stored under
/// `ordinal`, or `None` where the table has no entry for it.
#[verifier::external_body]
pub(crate) fn table_get(table: &ScaleTable, ordinal: u8) -> (found: Option<i64>)
    ensures
        found == (if table_entries(*table).dom().contains(ordinal) {
            Some(table_entries(*table)[ordinal])
        } else {
            None
        }),
{
    table.map.get(&ordinal).copied()
}

} // verus!
