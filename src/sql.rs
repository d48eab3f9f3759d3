use vstd::prelude::*;
use crate::ident::valid_identifier;

verus! {

/// The decimal digits of `n`, most significant first, with no leading zero.
pub open spec fn decimal(n: nat) -> Seq<char>
    decreases n,
{
    if n < 10 {
        seq!["0123456789"@[n as int]]
    } else {
        decimal(n / 10) + seq!["0123456789"@[(n % 10) as int]]
    }
}

/// Writes `n` in decimal.
pub fn decimal_string(n: u64) -> (r: String)
    ensures
        r@ == decimal(n as nat),
    decreases n,
{
    let digits = "0123456789";
    proof {
        reveal_strlit("0123456789");
    }
    let d = (n % 10) as usize;
    let last = digits.substring_char(d, d + 1);
    assert(last@ =~= seq![digits@[d as int]]);
    if n < 10 {
        String::from_str(last)
    } else {
        let mut s = decimal_string(n / 10);
        s.append(last);
        s
    }
}

/// `n` anonymous parameters separated by commas.
pub open spec fn placeholders(n: nat) -> Seq<char>
    decreases n,
{
    if n == 0 {
        Seq::empty()
    } else if n == 1 {
        "?"@
    } else {
        placeholders((n - 1) as nat) + ",?"@
    }
}

/// Writes `n` anonymous parameters separated by commas.
pub fn placeholder_list(n: usize) -> (r: String)
    ensures
        r@ == placeholders(n as nat),
{
    let mut s = String::new();
    let mut i: usize = 0;
    while i < n
        invariant
            i <= n,
            s@ == placeholders(i as nat),
        decreases n - i,
    {
        if i == 0 {
            s.append("?");
        } else {
            s.append(",?");
        }
        i = i + 1;
    }
    s
}

/// The vector index's name for the primary table `t`.
pub open spec fn vec_table(t: Seq<char>) -> Seq<char> {
    "vec_"@ + t
}

/// The lexical index's name for the primary table `t`.
pub open spec fn lex_table(t: Seq<char>) -> Seq<char> {
    "bm25_"@ + t
}

pub open spec fn create_primary_sql(t: Seq<char>) -> Seq<char> {
    "CREATE TABLE IF NOT EXISTS "@ + t
        + " (rowid INTEGER PRIMARY KEY AUTOINCREMENT, text TEXT, metadata BLOB, text_embedding BLOB)"@
}

pub open spec fn create_vec_sql(t: Seq<char>, dims: nat) -> Seq<char> {
    "CREATE VIRTUAL TABLE IF NOT EXISTS "@ + vec_table(t) + " USING vec0(text_embedding float["@
        + decimal(dims) + "])"@
}

pub open spec fn create_lex_sql(t: Seq<char>) -> Seq<char> {
    "CREATE VIRTUAL TABLE IF NOT EXISTS "@ + lex_table(t) + " USING fts5(text, metadata)"@
}

/// `s` where `c` holds, nothing otherwise.
pub open spec fn opt(c: bool, s: Seq<char>) -> Seq<char> {
    if c {
        s
    } else {
        Seq::empty()
    }
}

/// The one statement `s` where `c` holds, none otherwise.
pub open spec fn opt_stmt(c: bool, s: Seq<char>) -> Seq<Seq<char>> {
    if c {
        seq![s]
    } else {
        Seq::empty()
    }
}

/// Copies each new row into the indexes that the store has (`hv`: the vector
/// index, `hl`: the lexical index).
pub open spec fn insert_trigger_sql(t: Seq<char>, hv: bool, hl: bool) -> Seq<char> {
    "CREATE TRIGGER IF NOT EXISTS "@ + t + "_insert_trigger AFTER INSERT ON "@ + t + " BEGIN"@
        + opt(
        hv,
        " INSERT INTO "@ + vec_table(t)
            + " (rowid, text_embedding) VALUES (new.rowid, new.text_embedding);"@,
    ) + opt(
        hl,
        " INSERT INTO "@ + lex_table(t)
            + " (rowid, text, metadata) VALUES (new.rowid, new.text, new.metadata);"@,
    ) + " END"@
}

/// Removes each deleted row from the indexes that the store has.
pub open spec fn delete_trigger_sql(t: Seq<char>, hv: bool, hl: bool) -> Seq<char> {
    "CREATE TRIGGER IF NOT EXISTS "@ + t + "_delete_trigger AFTER DELETE ON "@ + t + " BEGIN"@
        + opt(hv, " DELETE FROM "@ + vec_table(t) + " WHERE rowid = old.rowid;"@) + opt(
        hl,
        " DELETE FROM "@ + lex_table(t) + " WHERE rowid = old.rowid;"@,
    ) + " END"@
}

/// The statements that create the schema of table `t`, in order: the table,
/// the indexes that the store has, the two triggers.
pub open spec fn create_statements(t: Seq<char>, dims: nat, hv: bool, hl: bool) -> Seq<Seq<char>> {
    seq![create_primary_sql(t)] + opt_stmt(hv, create_vec_sql(t, dims)) + opt_stmt(
        hl,
        create_lex_sql(t),
    ) + seq![insert_trigger_sql(t, hv, hl), delete_trigger_sql(t, hv, hl)]
}

pub open spec fn insert_sql(t: Seq<char>) -> Seq<char> {
    "INSERT INTO "@ + t + " (text, metadata, text_embedding) VALUES (?, ?, ?) RETURNING rowid"@
}

pub open spec fn delete_in_sql(x: Seq<char>, n: nat) -> Seq<char> {
    "DELETE FROM "@ + x + " WHERE rowid IN ("@ + placeholders(n) + ")"@
}

/// Deleting `n` identifiers from `t`, then from each index with the same parameters.
pub open spec fn delete_by_ids_statements(t: Seq<char>, n: nat, hv: bool, hl: bool) -> Seq<Seq<char>> {
    seq![delete_in_sql(t, n)] + opt_stmt(hv, delete_in_sql(vec_table(t), n)) + opt_stmt(
        hl,
        delete_in_sql(lex_table(t), n),
    )
}

/// Removes the rows of index `x` whose identifier is gone from `t`.
pub open spec fn reconcile_sql(x: Seq<char>, t: Seq<char>) -> Seq<char> {
    "DELETE FROM "@ + x + " WHERE rowid NOT IN (SELECT rowid FROM "@ + t + ")"@
}

/// Deleting the rows of `t` that satisfy `cond`, then the orphans of each index.
pub open spec fn delete_where_statements(t: Seq<char>, cond: Seq<char>, hv: bool, hl: bool) -> Seq<
    Seq<char>,
> {
    seq!["DELETE FROM "@ + t + " WHERE "@ + cond] + opt_stmt(hv, reconcile_sql(vec_table(t), t))
        + opt_stmt(hl, reconcile_sql(lex_table(t), t))
}

pub open spec fn delete_all_statements(t: Seq<char>, hv: bool, hl: bool) -> Seq<Seq<char>> {
    seq!["DELETE FROM "@ + t] + opt_stmt(hv, "DELETE FROM "@ + vec_table(t)) + opt_stmt(
        hl,
        "DELETE FROM "@ + lex_table(t),
    )
}

/// Nearest neighbours of a query vector among the rows that satisfy `cond`;
/// parameters: the vector, the candidate count, those of `cond`, the limit.
pub open spec fn vector_search_sql(t: Seq<char>, cond: Seq<char>) -> Seq<char> {
    "SELECT e.rowid, e.text, e.metadata, v.distance FROM "@ + t + " e INNER JOIN "@
        + vec_table(t)
        + " v ON v.rowid = e.rowid WHERE v.text_embedding MATCH ? AND k = ? AND "@ + cond
        + " ORDER BY v.distance LIMIT ?"@
}

/// Ranked term matches among the rows that satisfy `cond`, best first
/// (the engine's rank is lower for a better match); parameters: the query,
/// those of `cond`, the limit.
pub open spec fn keyword_search_sql(t: Seq<char>, cond: Seq<char>) -> Seq<char> {
    "SELECT rowid, text, metadata, bm25("@ + lex_table(t) + ") AS score FROM "@ + lex_table(t)
        + " WHERE "@ + lex_table(t) + " MATCH ? AND "@ + cond + " ORDER BY score LIMIT ?"@
}

} // verus!
