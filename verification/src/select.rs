//! Picking records out of a list.

use vstd::prelude::*;

use crate::info::{major_version, Installation};
use crate::text::{contains, lowercase};

verus! {

/// By what records are picked out of a list.
pub enum Criterion {
    /// The version states this major version.
    Version(u32),
    /// The supplier holds this text, whatever the case of either.
    Supplier(Seq<char>),
    /// The architecture is exactly this text.
    Architecture(Seq<char>),
}

impl Criterion {
    /// Whether the criterion picks `record`.
    pub open spec fn admits(self, record: Installation) -> bool {
        match self {
            Criterion::Version(major) => major_version(record.version) == Some(major),
            Criterion::Supplier(text) => contains(lowercase(record.suppliers), lowercase(text)),
            Criterion::Architecture(text) => record.architecture == text,
        }
    }
}

/// The positions of the records that a criterion admits, in rising order.
pub open spec fn positions(list: Seq<Installation>, criterion: Criterion) -> Seq<int>
    decreases list.len(),
{
    if list.len() == 0 {
        Seq::empty()
    } else {
        let before = positions(list.drop_last(), criterion);
        if criterion.admits(list.last()) {
            before.push(list.len() - 1)
        } else {
            before
        }
    }
}

/// How many records of `list` a criterion admits.
pub open spec fn count(list: Seq<Installation>, criterion: Criterion) -> nat
    decreases list.len(),
{
    if list.len() == 0 {
        0
    } else if criterion.admits(list.last()) {
        count(list.drop_last(), criterion) + 1
    } else {
        count(list.drop_last(), criterion)
    }
}

/// The records that a criterion admits, in the order of the list.
pub open spec fn select(list: Seq<Installation>, criterion: Criterion) -> Seq<Installation> {
    positions(list, criterion).map_values(|i: int| list[i])
}

/// What `positions` holds: exactly the positions of the admitted records,
/// each once, in rising order.
pub proof fn lemma_positions(list: Seq<Installation>, criterion: Criterion)
    ensures
        positions(list, criterion).len() <= list.len(),
        forall|k: int|
            0 <= k < positions(list, criterion).len() ==> 0 <= #[trigger] positions(
                list,
                criterion,
            )[k] < list.len() && criterion.admits(list[positions(list, criterion)[k]]),
        forall|j: int, k: int|
            0 <= j < k < positions(list, criterion).len() ==> positions(list, criterion)[j]
                < positions(list, criterion)[k],
        forall|i: int|
            0 <= i < list.len() && criterion.admits(#[trigger] list[i]) ==> positions(
                list,
                criterion,
            ).contains(i),
    decreases list.len(),
{
    if list.len() > 0 {
        let shorter = list.drop_last();
        let before = positions(shorter, criterion);
        lemma_positions(shorter, criterion);
        assert forall|k: int| 0 <= k < before.len() implies list[before[k]]
            == shorter[before[k]] by {}
        assert forall|i: int|
            0 <= i < list.len() && criterion.admits(#[trigger] list[i]) implies positions(
            list,
            criterion,
        ).contains(i) by {
            if i < list.len() - 1 {
                assert(shorter[i] == list[i]);
                let k = choose|k: int| 0 <= k < before.len() && before[k] == i;
                assert(positions(list, criterion)[k] == i);
            } else {
                assert(positions(list, criterion)[before.len() as int] == i);
            }
        }
    }
}

/// Going one record further in a list adds that record to the selection if
/// the criterion admits it, and changes nothing else.
pub proof fn lemma_select_step(list: Seq<Installation>, criterion: Criterion, i: int)
    requires
        0 <= i < list.len(),
    ensures
        positions(list.take(i + 1), criterion) == if criterion.admits(list[i]) {
            positions(list.take(i), criterion).push(i)
        } else {
            positions(list.take(i), criterion)
        },
        select(list.take(i + 1), criterion) == if criterion.admits(list[i]) {
            select(list.take(i), criterion).push(list[i])
        } else {
            select(list.take(i), criterion)
        },
{
    let longer = list.take(i + 1);
    let shorter = list.take(i);
    assert(longer.drop_last() =~= shorter);
    assert(longer.last() == list[i]);
    lemma_positions(shorter, criterion);
    let before = positions(shorter, criterion);
    assert forall|k: int| 0 <= k < before.len() implies longer[before[k]]
        == shorter[before[k]] by {}
    if criterion.admits(list[i]) {
        assert(select(longer, criterion) =~= select(shorter, criterion).push(list[i]));
    } else {
        assert(select(longer, criterion) =~= select(shorter, criterion));
    }
}

/// The selection holds only admitted records, and as many as the list has.
pub proof fn lemma_select(list: Seq<Installation>, criterion: Criterion)
    ensures
        select(list, criterion).len() == count(list, criterion),
        select(list, criterion).len() <= list.len(),
        forall|k: int|
            0 <= k < select(list, criterion).len() ==> criterion.admits(
                #[trigger] select(list, criterion)[k],
            ),
{
    lemma_positions(list, criterion);
    lemma_count(list, criterion);
}

/// There are as many positions as admitted records.
pub proof fn lemma_count(list: Seq<Installation>, criterion: Criterion)
    ensures
        positions(list, criterion).len() == count(list, criterion),
    decreases list.len(),
{
    if list.len() > 0 {
        lemma_count(list.drop_last(), criterion);
    }
}

} // verus!
