use vstd::prelude::*;
use crate::sql::{
    delete_all_statements, delete_by_ids_statements, delete_in_sql, delete_where_statements, lex_table,
    opt_stmt, reconcile_sql, vec_table,
};

verus! {

/// The identifiers present in the primary table, the vector index and the
/// lexical index, in that order.
pub type Indexes = (Set<i64>, Set<i64>, Set<i64>);

/// The three structures hold the same identifiers.
pub open spec fn lockstep(s: Indexes) -> bool {
    s.0 == s.1 && s.1 == s.2
}

/// Inserting rows `new`: the insert trigger copies each into both indexes.
pub open spec fn after_insert(s: Indexes, new: Set<i64>) -> Indexes {
    (s.0 + new, s.1 + new, s.2 + new)
}

/// The statements of a delete by identifiers: the table, then each index.
pub open spec fn after_delete_ids(s: Indexes, ids: Set<i64>) -> Indexes {
    (s.0 - ids, s.1 - ids, s.2 - ids)
}

/// The statements of a delete by metadata: the matching rows leave the table
/// (and, by the delete trigger, both indexes); then each index drops the rows
/// that the table no longer has.
pub open spec fn after_delete_where(s: Indexes, matched: Set<i64>) -> Indexes {
    let p = s.0 - matched;
    (p, (s.1 - matched).intersect(p), (s.2 - matched).intersect(p))
}

/// The statements of a delete of everything.
pub open spec fn after_delete_all(s: Indexes) -> Indexes {
    (Set::empty(), Set::empty(), Set::empty())
}

/// A write batch runs in one transaction: committed, all its rows are there;
/// rolled back (`None`), nothing of it is.
pub open spec fn after_batch(s: Indexes, committed: Option<Set<i64>>) -> Indexes {
    match committed {
        Some(new) => after_insert(s, new),
        None => s,
    }
}

/// Every write keeps the table and both indexes in lockstep.
pub proof fn lemma_writes_keep_lockstep(s: Indexes, new: Set<i64>, ids: Set<i64>, matched: Set<i64>)
    requires
        lockstep(s),
    ensures
        lockstep(after_insert(s, new)),
        lockstep(after_delete_ids(s, ids)),
        lockstep(after_delete_where(s, matched)),
        lockstep(after_delete_all(s)),
        lockstep(after_batch(s, Some(new))),
        lockstep(after_batch(s, None)),
{
    let p = s.0 - matched;
    assert((s.1 - matched).intersect(p) =~= p);
}

/// A delete by metadata leaves no index row without its table row, whatever
/// state it starts from.
pub proof fn lemma_delete_where_leaves_no_orphan(s: Indexes, matched: Set<i64>)
    ensures
        after_delete_where(s, matched).1 <= after_delete_where(s, matched).0,
        after_delete_where(s, matched).2 <= after_delete_where(s, matched).0,
{
}

/// Deleting the same identifiers twice ends where deleting them once does.
pub proof fn lemma_delete_ids_idempotent(s: Indexes, ids: Set<i64>)
    ensures
        after_delete_ids(after_delete_ids(s, ids), ids) == after_delete_ids(s, ids),
{
    assert(after_delete_ids(after_delete_ids(s, ids), ids) =~~= after_delete_ids(s, ids));
}

/// A batch that was rolled back leaves every structure as it was.
pub proof fn lemma_failed_batch_changes_nothing(s: Indexes)
    ensures
        after_batch(s, None) == s,
        after_batch(s, None).0 == s.0 && after_batch(s, None).1 == s.1 && after_batch(s, None).2 == s.2,
{
}

/// The tables that a store's statements name: the primary table `t`, then
/// the indexes that the store keeps (`hv`: vector, `hl`: lexical).
pub open spec fn statement_targets(t: Seq<char>, hv: bool, hl: bool) -> Seq<Seq<char>> {
    seq![t] + opt_stmt(hv, vec_table(t)) + opt_stmt(hl, lex_table(t))
}

/// The delete statements of a store are one per target, in target order.
pub proof fn lemma_statements_follow_targets(t: Seq<char>, n: nat, cond: Seq<char>, hv: bool, hl: bool)
    ensures
        delete_by_ids_statements(t, n, hv, hl) == statement_targets(t, hv, hl).map_values(
            |x: Seq<char>| delete_in_sql(x, n),
        ),
        delete_all_statements(t, hv, hl) == statement_targets(t, hv, hl).map_values(
            |x: Seq<char>| "DELETE FROM "@ + x,
        ),
        delete_where_statements(t, cond, hv, hl) == seq!["DELETE FROM "@ + t + " WHERE "@ + cond]
            + statement_targets(t, hv, hl).drop_first().map_values(|x: Seq<char>| reconcile_sql(x, t)),
{
    assert(delete_by_ids_statements(t, n, hv, hl) =~= statement_targets(t, hv, hl).map_values(
        |x: Seq<char>| delete_in_sql(x, n),
    ));
    assert(delete_all_statements(t, hv, hl) =~= statement_targets(t, hv, hl).map_values(
        |x: Seq<char>| "DELETE FROM "@ + x,
    ));
    assert(statement_targets(t, hv, hl).drop_first() =~= opt_stmt(hv, vec_table(t)) + opt_stmt(hl, lex_table(t)));
    assert(delete_where_statements(t, cond, hv, hl) =~= seq!["DELETE FROM "@ + t + " WHERE "@ + cond]
        + statement_targets(t, hv, hl).drop_first().map_values(|x: Seq<char>| reconcile_sql(x, t)));
}

/// What deleting the rows `ids` from `target` does: from the primary table
/// the delete trigger carries it to both indexes; from an index it touches
/// that index alone.
pub open spec fn delete_rows(s: Indexes, target: Seq<char>, t: Seq<char>, ids: Set<i64>) -> Indexes {
    if target == t {
        (s.0 - ids, s.1 - ids, s.2 - ids)
    } else if target == vec_table(t) {
        (s.0, s.1 - ids, s.2)
    } else if target == lex_table(t) {
        (s.0, s.1, s.2 - ids)
    } else {
        s
    }
}

/// Running one delete per target, in order.
pub open spec fn run_deletes(s: Indexes, targets: Seq<Seq<char>>, t: Seq<char>, ids: Set<i64>) -> Indexes
    decreases targets.len(),
{
    if targets.len() == 0 {
        s
    } else {
        run_deletes(delete_rows(s, targets[0], t, ids), targets.drop_first(), t, ids)
    }
}

proof fn lemma_targets_differ(t: Seq<char>)
    ensures
        t != vec_table(t),
        t != lex_table(t),
        vec_table(t) != lex_table(t),
{
    reveal_strlit("vec_");
    reveal_strlit("bm25_");
    assert(vec_table(t).len() == t.len() + 4);
    assert(lex_table(t).len() == t.len() + 5);
}

/// The statements of a delete by identifiers, run on a store with both
/// indexes, remove those identifiers from the table and from each index.
pub proof fn lemma_delete_by_ids_statements_effect(s: Indexes, t: Seq<char>, ids: Set<i64>)
    ensures
        run_deletes(s, statement_targets(t, true, true), t, ids) == after_delete_ids(s, ids),
{
    lemma_targets_differ(t);
    let ts = statement_targets(t, true, true);
    assert(ts =~= seq![t, vec_table(t), lex_table(t)]);
    assert(ts.drop_first() =~= seq![vec_table(t), lex_table(t)]);
    assert(ts.drop_first().drop_first() =~= seq![lex_table(t)]);
    assert(ts.drop_first().drop_first().drop_first() =~= Seq::<Seq<char>>::empty());
    let s1 = delete_rows(s, t, t, ids);
    let s2 = delete_rows(s1, vec_table(t), t, ids);
    let s3 = delete_rows(s2, lex_table(t), t, ids);
    let t1 = ts.drop_first();
    let t2 = t1.drop_first();
    let t3 = t2.drop_first();
    assert(run_deletes(s3, t3, t, ids) == s3);
    assert(run_deletes(s2, t2, t, ids) == run_deletes(s3, t3, t, ids));
    assert(run_deletes(s1, t1, t, ids) == run_deletes(s2, t2, t, ids));
    assert(run_deletes(s, ts, t, ids) == run_deletes(s1, t1, t, ids));
    assert(s3 =~~= after_delete_ids(s, ids));
}

/// Running a store's delete by identifiers twice ends where running it once
/// does, and a store in lockstep stays in lockstep.
pub proof fn lemma_delete_by_ids_statements_idempotent(s: Indexes, t: Seq<char>, ids: Set<i64>)
    ensures
        run_deletes(
            run_deletes(s, statement_targets(t, true, true), t, ids),
            statement_targets(t, true, true),
            t,
            ids,
        ) == run_deletes(s, statement_targets(t, true, true), t, ids),
        lockstep(s) ==> lockstep(run_deletes(s, statement_targets(t, true, true), t, ids)),
{
    lemma_delete_by_ids_statements_effect(s, t, ids);
    lemma_delete_by_ids_statements_effect(after_delete_ids(s, ids), t, ids);
    lemma_delete_ids_idempotent(s, ids);
    if lockstep(s) {
        lemma_writes_keep_lockstep(s, Set::empty(), ids, Set::empty());
    }
}

/// What the reconciling statement on `target` does: the index keeps only the
/// rows that the primary table still has.
pub open spec fn reconcile_rows(s: Indexes, target: Seq<char>, t: Seq<char>) -> Indexes {
    if target == vec_table(t) {
        (s.0, s.1.intersect(s.0), s.2)
    } else if target == lex_table(t) {
        (s.0, s.1, s.2.intersect(s.0))
    } else {
        s
    }
}

/// Running one reconciling statement per index, in order.
pub open spec fn run_reconciles(s: Indexes, targets: Seq<Seq<char>>, t: Seq<char>) -> Indexes
    decreases targets.len(),
{
    if targets.len() == 0 {
        s
    } else {
        run_reconciles(reconcile_rows(s, targets[0], t), targets.drop_first(), t)
    }
}

/// The statements of a delete by metadata, run on a store with both indexes
/// where they match the rows `matched`: the first deletes from the table (and
/// by the trigger from both indexes), the others reconcile each index; a
/// store in lockstep stays in lockstep.
pub proof fn lemma_delete_where_statements_effect(s: Indexes, t: Seq<char>, matched: Set<i64>)
    ensures
        run_reconciles(delete_rows(s, t, t, matched), statement_targets(t, true, true).drop_first(), t)
            == after_delete_where(s, matched),
        lockstep(s) ==> lockstep(after_delete_where(s, matched)),
{
    lemma_targets_differ(t);
    let ts = statement_targets(t, true, true).drop_first();
    assert(ts =~= seq![vec_table(t), lex_table(t)]);
    let t1 = ts.drop_first();
    let t2 = t1.drop_first();
    assert(t1 =~= seq![lex_table(t)]);
    assert(t2 =~= Seq::<Seq<char>>::empty());
    let s0 = delete_rows(s, t, t, matched);
    let s1 = reconcile_rows(s0, vec_table(t), t);
    let s2 = reconcile_rows(s1, lex_table(t), t);
    assert(run_reconciles(s2, t2, t) == s2);
    assert(run_reconciles(s1, t1, t) == run_reconciles(s2, t2, t));
    assert(run_reconciles(s0, ts, t) == run_reconciles(s1, t1, t));
    assert(s2 =~~= after_delete_where(s, matched));
    if lockstep(s) {
        lemma_writes_keep_lockstep(s, Set::empty(), Set::empty(), matched);
    }
}

} // verus!
