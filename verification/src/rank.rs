//! The order in which installations are listed.

use vstd::prelude::*;

use crate::info::{distinct_paths, knows, rank, Installation, JavaInfo};
use crate::model::Model;
use crate::text::{
    chars_of, lemma_lex_le_antisymmetric, lemma_lex_le_total, lemma_lex_le_transitive, lex_le,
    precedes,
};

verus! {

/// Whether `a` may stand before `b` in a ranking: the higher major version
/// first, and of two with the same the one whose path comes first.
pub open spec fn ranks_before(a: Installation, b: Installation) -> bool {
    rank(a.version) > rank(b.version) || (rank(a.version) == rank(b.version) && lex_le(
        a.path,
        b.path,
    ))
}

/// Whether each record of `list` may stand before all that follow it.
pub open spec fn is_ranked(list: Seq<Installation>) -> bool {
    forall|i: int, j: int| 0 <= i < j < list.len() ==> ranks_before(list[i], list[j])
}

/// How many records at the start of `list` may stand before `record`.
pub open spec fn slot(list: Seq<Installation>, record: Installation) -> int
    decreases list.len(),
{
    if list.len() == 0 || !ranks_before(list[0], record) {
        0
    } else {
        1 + slot(list.skip(1), record)
    }
}

/// `list` in ranking order: the records are put in one by one, each after
/// those that may stand before it.
pub open spec fn ranked(list: Seq<Installation>) -> Seq<Installation>
    decreases list.len(),
{
    if list.len() == 0 {
        Seq::empty()
    } else {
        let before = ranked(list.drop_last());
        let at = slot(before, list.last());
        if 0 <= at <= before.len() {
            before.insert(at, list.last())
        } else {
            before
        }
    }
}

/// What `slot` holds: the records before it may stand before `record`, and the
/// record at it may not.
pub proof fn lemma_slot(list: Seq<Installation>, record: Installation)
    ensures
        0 <= slot(list, record) <= list.len(),
        forall|j: int| 0 <= j < slot(list, record) ==> ranks_before(#[trigger] list[j], record),
        slot(list, record) < list.len() ==> !ranks_before(list[slot(list, record)], record),
    decreases list.len(),
{
    if list.len() == 0 || !ranks_before(list[0], record) {
    } else {
        let rest = list.skip(1);
        lemma_slot(rest, record);
        assert forall|j: int| 0 <= j < slot(list, record) implies ranks_before(
            #[trigger] list[j],
            record,
        ) by {
            if j > 0 {
                assert(list[j] == rest[j - 1]);
            }
        }
        if slot(rest, record) < rest.len() {
            assert(list[slot(list, record)] == rest[slot(rest, record)]);
        }
    }
}

/// `slot` is the only index with such records before it and no such record at
/// it.
pub proof fn lemma_slot_is(list: Seq<Installation>, record: Installation, at: int)
    requires
        0 <= at <= list.len(),
        forall|j: int| 0 <= j < at ==> ranks_before(#[trigger] list[j], record),
        at < list.len() ==> !ranks_before(list[at], record),
    ensures
        slot(list, record) == at,
    decreases list.len(),
{
    if list.len() == 0 || !ranks_before(list[0], record) {
    } else {
        let rest = list.skip(1);
        assert forall|j: int| 0 <= j < at - 1 implies ranks_before(#[trigger] rest[j], record) by {
            assert(rest[j] == list[j + 1]);
        }
        if at < list.len() {
            assert(rest[at - 1] == list[at]);
        }
        lemma_slot_is(rest, record, at - 1);
    }
}

/// Of two records one may stand before the other.
pub proof fn lemma_ranks_before_total(a: Installation, b: Installation)
    ensures
        ranks_before(a, b) || ranks_before(b, a),
{
    lemma_lex_le_total(a.path, b.path);
}

/// What may stand before a record may stand before all that the record may
/// stand before.
pub proof fn lemma_ranks_before_transitive(a: Installation, b: Installation, c: Installation)
    requires
        ranks_before(a, b),
        ranks_before(b, c),
    ensures
        ranks_before(a, c),
{
    if rank(a.version) == rank(b.version) && rank(b.version) == rank(c.version) {
        lemma_lex_le_transitive(a.path, b.path, c.path);
    }
}

/// A ranking is ranked.
pub proof fn lemma_ranked_is_ranked(list: Seq<Installation>)
    ensures
        is_ranked(ranked(list)),
        ranked(list).len() == list.len(),
    decreases list.len(),
{
    if list.len() > 0 {
        let record = list.last();
        let before = ranked(list.drop_last());
        let at = slot(before, record);
        let after = ranked(list);
        lemma_ranked_is_ranked(list.drop_last());
        lemma_slot(before, record);
        assert(after == before.insert(at, record));
        assert forall|i: int, j: int| 0 <= i < j < after.len() implies ranks_before(
            after[i],
            after[j],
        ) by {
            if j > at {
                lemma_ranks_before_total(before[at], record);
                if j - 1 > at {
                    lemma_ranks_before_transitive(record, before[at], before[j - 1]);
                }
                if i < at {
                    lemma_ranks_before_transitive(before[i], record, before[j - 1]);
                }
            }
        }
    }
}

/// A ranking holds what the list holds, and as often.
pub proof fn lemma_ranked_is_permutation(list: Seq<Installation>)
    ensures
        ranked(list).to_multiset() == list.to_multiset(),
    decreases list.len(),
{
    broadcast use vstd::seq_lib::group_to_multiset_ensures;

    if list.len() > 0 {
        let shorter = list.drop_last();
        let record = list.last();
        let before = ranked(shorter);
        lemma_ranked_is_permutation(shorter);
        lemma_slot(before, record);
        vstd::seq_lib::to_multiset_insert(before, slot(before, record), record);
        assert(list =~= shorter.push(record));
        assert(list.to_multiset() =~= shorter.to_multiset().insert(record));
    }
}

/// A ranking knows the paths that the list knows.
pub proof fn lemma_ranked_knows(list: Seq<Installation>, path: Seq<char>)
    ensures
        knows(ranked(list), path) == knows(list, path),
    decreases list.len(),
{
    if list.len() > 0 {
        let shorter = list.drop_last();
        let record = list.last();
        let before = ranked(shorter);
        let at = slot(before, record);
        let after = ranked(list);
        lemma_ranked_knows(shorter, path);
        lemma_slot(before, record);
        assert(after == before.insert(at, record));
        if knows(after, path) {
            let i = choose|i: int| 0 <= i < after.len() && #[trigger] after[i].path == path;
            if i == at {
                assert(list[list.len() - 1].path == path);
            } else {
                let b = if i < at {
                    i
                } else {
                    i - 1
                };
                assert(before[b].path == path);
                let s = choose|s: int| 0 <= s < shorter.len() && #[trigger] shorter[s].path == path;
                assert(list[s].path == path);
            }
        }
        if knows(list, path) {
            let i = choose|i: int| 0 <= i < list.len() && #[trigger] list[i].path == path;
            if i == list.len() - 1 {
                assert(after[at].path == path);
            } else {
                assert(shorter[i].path == path);
                let b = choose|b: int| 0 <= b < before.len() && #[trigger] before[b].path == path;
                if b < at {
                    assert(after[b].path == path);
                } else {
                    assert(after[b + 1].path == path);
                }
            }
        }
    }
}

/// Ranking leaves distinct paths distinct.
pub proof fn lemma_ranked_distinct(list: Seq<Installation>)
    requires
        distinct_paths(list),
    ensures
        distinct_paths(ranked(list)),
    decreases list.len(),
{
    if list.len() > 0 {
        let shorter = list.drop_last();
        let record = list.last();
        let before = ranked(shorter);
        let at = slot(before, record);
        let after = ranked(list);
        assert(distinct_paths(shorter)) by {
            assert forall|i: int, j: int| 0 <= i < j < shorter.len() implies
                #[trigger] shorter[i].path != #[trigger] shorter[j].path by {
                assert(list[i].path != list[j].path);
            }
        }
        lemma_ranked_distinct(shorter);
        lemma_ranked_knows(shorter, record.path);
        lemma_slot(before, record);
        assert(after == before.insert(at, record));
        assert(!knows(before, record.path)) by {
            if knows(shorter, record.path) {
                let s = choose|s: int|
                    0 <= s < shorter.len() && #[trigger] shorter[s].path == record.path;
                assert(list[s].path != list[list.len() - 1].path);
            }
        }
        assert forall|i: int, j: int| 0 <= i < j < after.len() implies #[trigger] after[i].path
            != #[trigger] after[j].path by {
            let bi = if i < at {
                i
            } else {
                i - 1
            };
            let bj = if j < at {
                j
            } else {
                j - 1
            };
            if i == at {
                assert(before[bj].path != record.path);
            } else if j == at {
                assert(before[bi].path != record.path);
            } else {
                assert(before[bi].path != before[bj].path);
            }
        }
    }
}

/// Two records that may each stand before the other rank alike and have
/// the same path.
pub proof fn lemma_ranks_before_antisymmetric(a: Installation, b: Installation)
    requires
        ranks_before(a, b),
        ranks_before(b, a),
    ensures
        rank(a.version) == rank(b.version),
        a.path == b.path,
{
    lemma_lex_le_antisymmetric(a.path, b.path);
}

/// Records with distinct paths have one ranking: two ranked lists that hold
/// the same records, each as often, are the same list.
pub proof fn lemma_ranking_is_unique(s: Seq<Installation>, t: Seq<Installation>)
    requires
        is_ranked(s),
        is_ranked(t),
        distinct_paths(s),
        s.to_multiset() == t.to_multiset(),
    ensures
        s == t,
    decreases s.len(),
{
    broadcast use vstd::seq_lib::group_to_multiset_ensures;

    assert(s.len() == t.len()) by {
        s.to_multiset_ensures();
        t.to_multiset_ensures();
    }
    if s.len() == 0 {
        assert(s =~= t);
    } else {
        assert(s.contains(s[0]));
        assert(t.to_multiset().count(s[0]) > 0);
        assert(t.contains(s[0]));
        let k = choose|k: int| 0 <= k < t.len() && t[k] == s[0];
        assert(t.contains(t[0]));
        assert(s.to_multiset().count(t[0]) > 0);
        assert(s.contains(t[0]));
        let j = choose|j: int| 0 <= j < s.len() && s[j] == t[0];
        if k > 0 && j > 0 {
            lemma_ranks_before_antisymmetric(s[0], t[0]);
            assert(s[0].path == s[j].path);
        }
        assert(s[0] == t[0]);
        let s_rest = s.skip(1);
        let t_rest = t.skip(1);
        assert(s.remove(0) =~= s_rest);
        assert(t.remove(0) =~= t_rest);
        assert(s_rest.to_multiset() =~= t_rest.to_multiset());
        assert(is_ranked(s_rest)) by {
            assert forall|i: int, j: int| 0 <= i < j < s_rest.len() implies ranks_before(
                s_rest[i],
                s_rest[j],
            ) by {
                assert(ranks_before(s[i + 1], s[j + 1]));
            }
        }
        assert(is_ranked(t_rest)) by {
            assert forall|i: int, j: int| 0 <= i < j < t_rest.len() implies ranks_before(
                t_rest[i],
                t_rest[j],
            ) by {
                assert(ranks_before(t[i + 1], t[j + 1]));
            }
        }
        assert(distinct_paths(s_rest)) by {
            assert forall|i: int, j: int| 0 <= i < j < s_rest.len() implies
                #[trigger] s_rest[i].path != #[trigger] s_rest[j].path by {
                assert(s[i + 1].path != s[j + 1].path);
            }
        }
        lemma_ranking_is_unique(s_rest, t_rest);
        assert(s =~= seq![s[0]] + s_rest);
        assert(t =~= seq![t[0]] + t_rest);
    }
}

/// Whether `a` may stand before `b` in a ranking.
pub fn comes_before(a: &JavaInfo, b: &JavaInfo) -> (r: bool)
    ensures
        r == ranks_before(a@, b@),
{
    let rank_a: u32 = match a.get_major_version() {
        Some(major) => major,
        None => 0,
    };
    let rank_b: u32 = match b.get_major_version() {
        Some(major) => major,
        None => 0,
    };
    if rank_a != rank_b {
        rank_a > rank_b
    } else {
        let path_a = chars_of(a.path.as_str());
        let path_b = chars_of(b.path.as_str());
        precedes(path_a.as_slice(), path_b.as_slice())
    }
}

/// The given installations in ranking order.
pub fn rank_installations(found: &Vec<JavaInfo>) -> (out: Vec<JavaInfo>)
    ensures
        out.model() == ranked(found.model()),
{
    let mut out: Vec<JavaInfo> = Vec::new();
    let mut i: usize = 0;
    proof {
        assert(found.model().take(0) =~= Seq::<Installation>::empty());
        assert(out.model() =~= Seq::<Installation>::empty());
    }
    while i < found.len()
        invariant
            i <= found@.len(),
            out.model() == ranked(found.model().take(i as int)),
        decreases found@.len() - i,
    {
        let record = found[i].clone();
        let mut at: usize = 0;
        while at < out.len() && comes_before(&out[at], &record)
            invariant
                at <= out@.len(),
                forall|j: int| 0 <= j < at ==> ranks_before(#[trigger] out.model()[j], record@),
            decreases out@.len() - at,
        {
            at += 1;
        }
        let ghost before = out.model();
        proof {
            lemma_slot_is(before, record@, at as int);
            assert(found.model().take(i + 1).drop_last() =~= found.model().take(i as int));
            assert(found.model().take(i + 1).last() == record@);
        }
        out.insert(at, record);
        proof {
            assert(out.model() =~= before.insert(at as int, record@));
        }
        i += 1;
    }
    proof {
        assert(found.model().take(i as int) =~= found.model());
    }
    out
}

} // verus!
