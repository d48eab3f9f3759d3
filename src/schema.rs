use vstd::prelude::*;
use crate::error::StoreError;
use crate::filter::{
    compile_filter, filter_params, filter_sql, filter_supported, metadata_column, param_views,
    predicate_view, CompiledFilter, Predicate, SqlParam,
};
use crate::ident::{is_valid_identifier, valid_identifier};
use crate::sql::{
    create_lex_sql, create_primary_sql, create_statements, create_vec_sql, decimal, decimal_string,
    delete_all_statements, delete_by_ids_statements, delete_in_sql, delete_trigger_sql,
    delete_where_statements, insert_sql, insert_trigger_sql, keyword_search_sql, lex_table, opt,
    opt_stmt, placeholder_list, placeholders, reconcile_sql, vec_table, vector_search_sql,
};

verus! {

/// The texts of a list of statements.
pub open spec fn texts(v: Seq<String>) -> Seq<Seq<char>> {
    v.map_values(|s: String| s@)
}

/// Which indexes a store keeps beside its table.
#[derive(Debug, Clone, Copy, PartialEq, Eq, Structural)]
pub enum Backend {
    /// A vector index only.
    Vector,
    /// A lexical index only.
    Lexical,
    /// Both indexes, queried apart or fused.
    Hybrid,
}

impl Backend {
    pub open spec fn has_vector(self) -> bool {
        self != Backend::Lexical
    }

    pub open spec fn has_lexical(self) -> bool {
        self != Backend::Vector
    }

    pub fn vector(self) -> (r: bool)
        ensures
            r == self.has_vector(),
    {
        self != Backend::Lexical
    }

    pub fn lexical(self) -> (r: bool)
        ensures
            r == self.has_lexical(),
    {
        self != Backend::Vector
    }
}

/// What a schema is: a table name, the dimensionality of its vectors, and
/// the indexes it keeps.
pub struct SchemaView {
    pub table: Seq<char>,
    pub dims: nat,
    pub backend: Backend,
}

/// The validated names and sizes that every statement of a store is made from.
pub struct Schema {
    table: String,
    dims: u32,
    backend: Backend,
}

impl View for Schema {
    type V = SchemaView;

    closed spec fn view(&self) -> SchemaView {
        SchemaView { table: self.table@, dims: self.dims as nat, backend: self.backend }
    }
}

impl Schema {
    /// A schema holds an identifier, and a positive dimensionality where it
    /// keeps a vector index.
    pub open spec fn wf(&self) -> bool {
        valid_identifier(self@.table) && (self@.backend.has_vector() ==> self@.dims > 0)
    }

    pub open spec fn hv(&self) -> bool {
        self@.backend.has_vector()
    }

    pub open spec fn hl(&self) -> bool {
        self@.backend.has_lexical()
    }

    /// Checks the table name and, where vectors are kept, the dimensionality.
    pub fn new(table: &str, dims: u32, backend: Backend) -> (r: Result<Schema, StoreError>)
        ensures
            r is Ok <==> (valid_identifier(table@) && (backend.has_vector() ==> dims > 0)),
            r is Err ==> r == Err::<Schema, StoreError>(StoreError::Schema),
            r matches Ok(s) ==> s.wf() && s@.table == table@ && s@.dims == dims as nat
                && s@.backend == backend,
    {
        if (backend.vector() && dims == 0) || !is_valid_identifier(table) {
            return Err(StoreError::Schema);
        }
        let s = Schema { table: String::from_str(table), dims, backend };
        assert(s@.table == table@);
        Ok(s)
    }

    pub fn table(&self) -> (r: &str)
        ensures
            r@ == self@.table,
    {
        self.table.as_str()
    }

    pub fn dims(&self) -> (r: u32)
        ensures
            r as nat == self@.dims,
    {
        self.dims
    }

    pub fn backend(&self) -> (r: Backend)
        ensures
            r == self@.backend,
    {
        self.backend
    }

    /// The statements that create the table, its indexes and the triggers
    /// that keep them in step; each may be run again without effect.
    pub fn create_statements(&self) -> (r: Vec<String>)
        ensures
            texts(r@) == create_statements(self@.table, self@.dims, self.hv(), self.hl()),
    {
        let t = self.table.as_str();
        let hv = self.backend.vector();
        let hl = self.backend.lexical();
        let ghost tv = self@.table;
        let mut r: Vec<String> = Vec::new();

        let mut a = String::from_str("CREATE TABLE IF NOT EXISTS ");
        a.append(t);
        a.append(" (rowid INTEGER PRIMARY KEY AUTOINCREMENT, text TEXT, metadata BLOB, text_embedding BLOB)");
        assert(a@ =~= create_primary_sql(tv));
        r.push(a);
        let ghost r1 = texts(r@);
        assert(r1 =~= seq![create_primary_sql(tv)]);

        if hv {
            let d = decimal_string(self.dims as u64);
            let mut b = String::from_str("CREATE VIRTUAL TABLE IF NOT EXISTS ");
            b.append("vec_");
            b.append(t);
            b.append(" USING vec0(text_embedding float[");
            b.append(d.as_str());
            b.append("])");
            assert(b@ =~= create_vec_sql(tv, self@.dims));
            r.push(b);
        }
        let ghost r2 = texts(r@);
        assert(r2 =~= r1 + opt_stmt(hv, create_vec_sql(tv, self@.dims)));

        if hl {
            let mut c = String::from_str("CREATE VIRTUAL TABLE IF NOT EXISTS ");
            c.append("bm25_");
            c.append(t);
            c.append(" USING fts5(text, metadata)");
            assert(c@ =~= create_lex_sql(tv));
            r.push(c);
        }
        let ghost r3 = texts(r@);
        assert(r3 =~= r2 + opt_stmt(hl, create_lex_sql(tv)));

        let mut e = String::from_str("CREATE TRIGGER IF NOT EXISTS ");
        e.append(t);
        e.append("_insert_trigger AFTER INSERT ON ");
        e.append(t);
        e.append(" BEGIN");
        let ghost e0 = e@;
        if hv {
            e.append(" INSERT INTO ");
            e.append("vec_");
            e.append(t);
            e.append(" (rowid, text_embedding) VALUES (new.rowid, new.text_embedding);");
        }
        let ghost e1 = e@;
        assert(e1 =~= e0 + opt(
            hv,
            " INSERT INTO "@ + vec_table(tv) + " (rowid, text_embedding) VALUES (new.rowid, new.text_embedding);"@,
        ));
        if hl {
            e.append(" INSERT INTO ");
            e.append("bm25_");
            e.append(t);
            e.append(" (rowid, text, metadata) VALUES (new.rowid, new.text, new.metadata);");
        }
        let ghost e2 = e@;
        assert(e2 =~= e1 + opt(
            hl,
            " INSERT INTO "@ + lex_table(tv) + " (rowid, text, metadata) VALUES (new.rowid, new.text, new.metadata);"@,
        ));
        e.append(" END");
        assert(e@ =~= insert_trigger_sql(tv, hv, hl));
        r.push(e);

        let mut f = String::from_str("CREATE TRIGGER IF NOT EXISTS ");
        f.append(t);
        f.append("_delete_trigger AFTER DELETE ON ");
        f.append(t);
        f.append(" BEGIN");
        let ghost f0 = f@;
        if hv {
            f.append(" DELETE FROM ");
            f.append("vec_");
            f.append(t);
            f.append(" WHERE rowid = old.rowid;");
        }
        let ghost f1 = f@;
        assert(f1 =~= f0 + opt(hv, " DELETE FROM "@ + vec_table(tv) + " WHERE rowid = old.rowid;"@));
        if hl {
            f.append(" DELETE FROM ");
            f.append("bm25_");
            f.append(t);
            f.append(" WHERE rowid = old.rowid;");
        }
        let ghost f2 = f@;
        assert(f2 =~= f1 + opt(hl, " DELETE FROM "@ + lex_table(tv) + " WHERE rowid = old.rowid;"@));
        f.append(" END");
        assert(f@ =~= delete_trigger_sql(tv, hv, hl));
        r.push(f);
        assert(texts(r@) =~= create_statements(tv, self@.dims, hv, hl));
        r
    }

    /// The statement that inserts one row (content, metadata, embedding) and
    /// returns its identifier; the triggers fill the indexes in the same step.
    pub fn insert_statement(&self) -> (r: String)
        ensures
            r@ == insert_sql(self@.table),
    {
        let mut s = String::from_str("INSERT INTO ");
        s.append(self.table.as_str());
        s.append(" (text, metadata, text_embedding) VALUES (?, ?, ?) RETURNING rowid");
        s
    }

    fn delete_in(&self, prefix: &str, ph: &String, n: usize) -> (r: String)
        requires
            ph@ == placeholders(n as nat),
        ensures
            r@ == delete_in_sql(prefix@ + self@.table, n as nat),
    {
        let mut s = String::from_str("DELETE FROM ");
        s.append(prefix);
        s.append(self.table.as_str());
        s.append(" WHERE rowid IN (");
        s.append(ph.as_str());
        s.append(")");
        assert(s@ =~= delete_in_sql(prefix@ + self@.table, n as nat));
        s
    }

    /// The statements that delete `n` identifiers from the table and from
    /// each index; each takes the identifiers as its parameters.
    pub fn delete_by_ids_statements(&self, n: usize) -> (r: Vec<String>)
        ensures
            texts(r@) == delete_by_ids_statements(self@.table, n as nat, self.hv(), self.hl()),
    {
        let ghost tv = self@.table;
        let ph = placeholder_list(n);
        let mut r: Vec<String> = Vec::new();
        r.push(self.delete_in("", &ph, n));
        proof {
            reveal_strlit("");
            assert(""@ + tv =~= tv);
        }
        let ghost r1 = texts(r@);
        assert(r1 =~= seq![delete_in_sql(tv, n as nat)]);
        if self.backend.vector() {
            r.push(self.delete_in("vec_", &ph, n));
        }
        let ghost r2 = texts(r@);
        assert(r2 =~= r1 + opt_stmt(self.hv(), delete_in_sql(vec_table(tv), n as nat)));
        if self.backend.lexical() {
            r.push(self.delete_in("bm25_", &ph, n));
        }
        assert(texts(r@) =~= r2 + opt_stmt(self.hl(), delete_in_sql(lex_table(tv), n as nat)));
        r
    }

    fn delete_from(&self, prefix: &str) -> (r: String)
        ensures
            r@ == "DELETE FROM "@ + (prefix@ + self@.table),
    {
        let mut s = String::from_str("DELETE FROM ");
        s.append(prefix);
        s.append(self.table.as_str());
        s
    }

    /// The statements that empty the table and each index.
    pub fn delete_all_statements(&self) -> (r: Vec<String>)
        ensures
            texts(r@) == delete_all_statements(self@.table, self.hv(), self.hl()),
    {
        let ghost tv = self@.table;
        let mut r: Vec<String> = Vec::new();
        r.push(self.delete_from(""));
        proof {
            reveal_strlit("");
            assert(""@ + tv =~= tv);
        }
        let ghost r1 = texts(r@);
        assert(r1 =~= seq!["DELETE FROM "@ + tv]);
        if self.backend.vector() {
            r.push(self.delete_from("vec_"));
        }
        let ghost r2 = texts(r@);
        assert(r2 =~= r1 + opt_stmt(self.hv(), "DELETE FROM "@ + vec_table(tv)));
        if self.backend.lexical() {
            r.push(self.delete_from("bm25_"));
        }
        assert(texts(r@) =~= r2 + opt_stmt(self.hl(), "DELETE FROM "@ + lex_table(tv)));
        r
    }

    fn reconcile(&self, prefix: &str) -> (r: String)
        ensures
            r@ == reconcile_sql(prefix@ + self@.table, self@.table),
    {
        let mut s = String::from_str("DELETE FROM ");
        s.append(prefix);
        s.append(self.table.as_str());
        s.append(" WHERE rowid NOT IN (SELECT rowid FROM ");
        s.append(self.table.as_str());
        s.append(")");
        s
    }

    /// The statements that delete the rows whose metadata satisfies `cond`,
    /// then the index rows left without a row in the table; only the first
    /// takes `cond`'s parameters.
    pub fn delete_where_statements(&self, cond: &CompiledFilter) -> (r: Vec<String>)
        ensures
            texts(r@) == delete_where_statements(self@.table, cond.sql@, self.hv(), self.hl()),
    {
        let ghost tv = self@.table;
        let mut s = String::from_str("DELETE FROM ");
        s.append(self.table.as_str());
        s.append(" WHERE ");
        s.append(cond.sql.as_str());
        let mut r: Vec<String> = Vec::new();
        r.push(s);
        let ghost r1 = texts(r@);
        assert(r1 =~= seq!["DELETE FROM "@ + tv + " WHERE "@ + cond.sql@]);
        if self.backend.vector() {
            r.push(self.reconcile("vec_"));
        }
        let ghost r2 = texts(r@);
        assert(r2 =~= r1 + opt_stmt(self.hv(), reconcile_sql(vec_table(tv), tv)));
        if self.backend.lexical() {
            r.push(self.reconcile("bm25_"));
        }
        assert(texts(r@) =~= r2 + opt_stmt(self.hl(), reconcile_sql(lex_table(tv), tv)));
        r
    }

    /// The query for nearest neighbours among the rows that satisfy `cond`,
    /// where the store keeps a vector index.
    pub fn vector_search_statement(&self, cond: &CompiledFilter) -> (r: Option<String>)
        ensures
            r is Some <==> self.hv(),
            r matches Some(q) ==> q@ == vector_search_sql(self@.table, cond.sql@),
    {
        if !self.backend.vector() {
            return None;
        }
        let t = self.table.as_str();
        let mut s = String::from_str("SELECT e.rowid, e.text, e.metadata, v.distance FROM ");
        s.append(t);
        s.append(" e INNER JOIN ");
        s.append("vec_");
        s.append(t);
        s.append(" v ON v.rowid = e.rowid WHERE v.text_embedding MATCH ? AND k = ? AND ");
        s.append(cond.sql.as_str());
        s.append(" ORDER BY v.distance LIMIT ?");
        assert(s@ =~= vector_search_sql(self@.table, cond.sql@));
        Some(s)
    }

    /// The query for ranked term matches among the rows that satisfy `cond`,
    /// where the store keeps a lexical index.
    pub fn keyword_search_statement(&self, cond: &CompiledFilter) -> (r: Option<String>)
        ensures
            r is Some <==> self.hl(),
            r matches Some(q) ==> q@ == keyword_search_sql(self@.table, cond.sql@),
    {
        if !self.backend.lexical() {
            return None;
        }
        let t = self.table.as_str();
        let mut s = String::from_str("SELECT rowid, text, metadata, bm25(");
        s.append("bm25_");
        s.append(t);
        s.append(") AS score FROM ");
        s.append("bm25_");
        s.append(t);
        s.append(" WHERE ");
        s.append("bm25_");
        s.append(t);
        s.append(" MATCH ? AND ");
        s.append(cond.sql.as_str());
        s.append(" ORDER BY score LIMIT ?");
        assert(s@ =~= keyword_search_sql(self@.table, cond.sql@));
        Some(s)
    }

    /// The statements and parameters that delete the rows whose metadata
    /// satisfies `pred`; an empty filter holds of every row, so it empties
    /// the table and its indexes.
    pub fn delete_by_metadata_statements(&self, pred: &Predicate) -> (r: Result<
        (Vec<String>, Vec<SqlParam>),
        StoreError,
    >)
        ensures
            r is Ok <==> filter_supported(predicate_view(pred@)),
            r is Err ==> r == Err::<(Vec<String>, Vec<SqlParam>), StoreError>(StoreError::Filter),
            r matches Ok(p) ==> texts(p.0@) == delete_where_statements(
                self@.table,
                filter_sql(metadata_column(None), predicate_view(pred@)),
                self.hv(),
                self.hl(),
            ) && param_views(p.1@) == filter_params(predicate_view(pred@)),
    {
        match compile_filter(pred, None) {
            Err(e) => Err(e),
            Ok(c) => {
                let stmts = self.delete_where_statements(&c);
                Ok((stmts, c.params))
            },
        }
    }
}

/// The columns of the primary table, in order.
pub open spec fn primary_columns() -> Seq<Seq<char>> {
    seq!["rowid"@, "text"@, "metadata"@, "text_embedding"@]
}

/// Decides whether a primary table already in the database, given by its
/// column names in order (none where it does not exist), can be used: it
/// must have exactly the columns this store writes.
pub fn check_existing_columns(columns: &Vec<String>) -> (r: Result<(), StoreError>)
    ensures
        r is Ok <==> (columns@.len() == 0 || texts(columns@) == primary_columns()),
        r is Err ==> r == Err::<(), StoreError>(StoreError::Schema),
{
    if columns.len() == 0 {
        return Ok(());
    }
    let expected = vec![
        String::from_str("rowid"),
        String::from_str("text"),
        String::from_str("metadata"),
        String::from_str("text_embedding"),
    ];
    assert(texts(expected@) =~= primary_columns());
    if columns.len() != expected.len() {
        return Err(StoreError::Schema);
    }
    let mut i: usize = 0;
    while i < columns.len()
        invariant
            columns@.len() == expected@.len(),
            texts(expected@) == primary_columns(),
            i <= columns@.len(),
            forall|j: int| 0 <= j < i ==> columns@[j]@ == expected@[j]@,
        decreases columns.len() - i,
    {
        if !columns[i].eq(&expected[i]) {
            assert(texts(columns@)[i as int] != primary_columns()[i as int]);
            return Err(StoreError::Schema);
        }
        i = i + 1;
    }
    assert(texts(columns@) =~= texts(expected@));
    Ok(())
}

} // verus!
