//! The closed set of logical entity categories and their fixed mapping to
//! physical partition (column family) names.

use vstd::prelude::*;

verus! {

/// One kind of stored entity. Each category maps 1:1 to exactly one physical
/// partition of the storage engine for the lifetime of a data directory.
#[derive(Clone, Copy, Debug, PartialEq, Eq, Structural)]
pub enum StorageCategory {
    Block,
    Receipt,
    SignedTransaction,
    Wal,
}

/// The stable partition name of each category. Renaming or reassigning an
/// entry breaks compatibility with previously written data directories.
pub open spec fn category_name(c: StorageCategory) -> Seq<char> {
    match c {
        StorageCategory::Block => "c1"@,
        StorageCategory::Receipt => "c3"@,
        StorageCategory::SignedTransaction => "c2"@,
        StorageCategory::Wal => "c4"@,
    }
}

/// Resolves a category to the stable name of its physical partition.
pub fn map_category(c: StorageCategory) -> (s: &'static str)
    ensures
        s@ == category_name(c),
{
    match c {
        StorageCategory::Block => "c1",
        StorageCategory::Receipt => "c3",
        StorageCategory::SignedTransaction => "c2",
        StorageCategory::Wal => "c4",
    }
}

/// Distinct categories resolve to distinct partition names, so no two
/// categories ever share a physical key space.
pub proof fn lemma_category_names_distinct(c1: StorageCategory, c2: StorageCategory)
    requires
        c1 != c2,
    ensures
        category_name(c1) != category_name(c2),
{
    reveal_strlit("c1");
    reveal_strlit("c2");
    reveal_strlit("c3");
    reveal_strlit("c4");
    assert("c1"@[1] == '1');
    assert("c2"@[1] == '2');
    assert("c3"@[1] == '3');
    assert("c4"@[1] == '4');
}

} // verus!
