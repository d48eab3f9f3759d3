use hybrid_store::filter::{compile_filter, FilterValue, Scalar, SqlParam};
use hybrid_store::schema::{Backend, Schema};
use hybrid_store::store::keyword_query;
use rusqlite::types::Value;
use rusqlite::{params_from_iter, Connection};

fn bind(p: &[SqlParam]) -> Vec<Value> {
    p.iter()
        .map(|x| match x {
            SqlParam::Text(s) => Value::Text(s.clone()),
            SqlParam::Int(i) => Value::Integer(*i),
        })
        .collect()
}

/// An in-memory store whose vector index is a plain table, so that the
/// schema's triggers run without the vector extension.
fn open(schema: &Schema) -> Connection {
    let db = Connection::open_in_memory().unwrap();
    let stmts = schema.create_statements();
    db.execute(&stmts[0], ()).unwrap();
    db.execute(
        &format!("CREATE TABLE vec_{} (rowid INTEGER PRIMARY KEY, text_embedding BLOB)", schema.table()),
        (),
    )
    .unwrap();
    for s in &stmts[2..] {
        db.execute(s, ()).unwrap();
    }
    db
}

fn insert(db: &mut Connection, schema: &Schema, docs: &[(&str, &str)]) -> Vec<i64> {
    let tx = db.transaction().unwrap();
    let mut ids = Vec::new();
    for (text, meta) in docs {
        let id: i64 = tx
            .query_row(&schema.insert_statement(), (text, meta, "[0.0,1.0]"), |r| r.get(0))
            .unwrap();
        ids.push(id);
    }
    tx.commit().unwrap();
    ids
}

fn ids_of(db: &Connection, table: &str) -> Vec<i64> {
    let mut st = db.prepare(&format!("SELECT rowid FROM {} ORDER BY rowid", table)).unwrap();
    st.query_map((), |r| r.get(0)).unwrap().map(|x| x.unwrap()).collect()
}

fn in_lockstep(db: &Connection) -> bool {
    let p = ids_of(db, "docs");
    p == ids_of(db, "vec_docs") && p == ids_of(db, "bm25_docs")
}

fn delete_ids(db: &mut Connection, schema: &Schema, ids: &[i64]) {
    let tx = db.transaction().unwrap();
    for s in schema.delete_by_ids_statements(ids.len()) {
        tx.execute(&s, params_from_iter(ids.iter())).unwrap();
    }
    tx.commit().unwrap();
}

#[test]
fn keyword_search_finds_paris_first() {
    let schema = Schema::new("docs", 2, Backend::Hybrid).unwrap();
    let mut db = open(&schema);
    insert(&mut db, &schema, &[("The weather is mild today.", "{}"), ("Capital of France is Paris.", "{}")]);
    let cond = compile_filter(&vec![], None).unwrap();
    let mut params = vec![Value::Text(keyword_query(None, "capital of France?"))];
    params.extend(bind(&cond.params));
    params.push(Value::Integer(2));
    let mut st = db.prepare(&schema.keyword_search_statement(&cond).unwrap()).unwrap();
    let rows: Vec<(String, f64)> = st
        .query_map(params_from_iter(params), |r| Ok((r.get(1)?, r.get(3)?)))
        .unwrap()
        .map(|x| x.unwrap())
        .collect();
    assert!(!rows.is_empty());
    assert_eq!(rows[0].0, "Capital of France is Paris.");
    // the engine's rank is lower for a better match: the relevance is its negation
    let score = 1.0 / (1.0 + rows[0].1.exp());
    assert!(score > 0.0 && score < 1.0);
}

#[test]
fn indexes_stay_in_lockstep() {
    let schema = Schema::new("docs", 2, Backend::Hybrid).unwrap();
    let mut db = open(&schema);
    let ids = insert(&mut db, &schema, &[("a", "{\"lang\":\"en\"}"), ("b", "{\"lang\":\"fr\"}"), ("c", "{}")]);
    assert_eq!(ids, vec![1, 2, 3]);
    assert!(in_lockstep(&db));
    delete_ids(&mut db, &schema, &[2]);
    assert!(in_lockstep(&db));
    assert_eq!(ids_of(&db, "docs"), vec![1, 3]);
    let (stmts, params) = schema
        .delete_by_metadata_statements(&vec![("lang".to_string(), FilterValue::Equals(Scalar::Text("en".to_string())))])
        .unwrap();
    let tx = db.transaction().unwrap();
    tx.execute(&stmts[0], params_from_iter(bind(&params))).unwrap();
    for s in &stmts[1..] {
        tx.execute(s, ()).unwrap();
    }
    tx.commit().unwrap();
    assert_eq!(ids_of(&db, "docs"), vec![3]);
    assert!(in_lockstep(&db));
    let tx = db.transaction().unwrap();
    for s in schema.delete_all_statements() {
        tx.execute(&s, ()).unwrap();
    }
    tx.commit().unwrap();
    assert!(ids_of(&db, "docs").is_empty());
    assert!(in_lockstep(&db));
}

#[test]
fn deleting_twice_is_deleting_once() {
    let schema = Schema::new("docs", 2, Backend::Hybrid).unwrap();
    let mut db = open(&schema);
    insert(&mut db, &schema, &[("a", "{}"), ("b", "{}")]);
    delete_ids(&mut db, &schema, &[1]);
    let once = (ids_of(&db, "docs"), ids_of(&db, "vec_docs"), ids_of(&db, "bm25_docs"));
    delete_ids(&mut db, &schema, &[1]);
    let twice = (ids_of(&db, "docs"), ids_of(&db, "vec_docs"), ids_of(&db, "bm25_docs"));
    assert_eq!(once, twice);
    assert_eq!(once.0, vec![2]);
}

#[test]
fn failed_batch_leaves_nothing() {
    let schema = Schema::new("docs", 2, Backend::Hybrid).unwrap();
    let mut db = open(&schema);
    {
        let tx = db.transaction().unwrap();
        for t in ["a", "b"] {
            tx.query_row(&schema.insert_statement(), (t, "{}", "[0.0,1.0]"), |r| r.get::<_, i64>(0))
                .unwrap();
        }
        // the batch fails before its commit: dropping the transaction rolls it back
    }
    assert!(ids_of(&db, "docs").is_empty());
    assert!(in_lockstep(&db));
}

#[test]
fn lexical_store_runs_without_vectors() {
    let schema = Schema::new("docs", 0, Backend::Lexical).unwrap();
    let mut db = Connection::open_in_memory().unwrap();
    for s in schema.create_statements() {
        db.execute(&s, ()).unwrap();
    }
    insert(&mut db, &schema, &[("red apples", "{\"kind\":\"fruit\"}"), ("green cars", "{\"kind\":\"car\"}")]);
    assert_eq!(ids_of(&db, "docs"), ids_of(&db, "bm25_docs"));
    delete_ids(&mut db, &schema, &[1]);
    assert_eq!(ids_of(&db, "docs"), vec![2]);
    assert_eq!(ids_of(&db, "bm25_docs"), vec![2]);
}

fn keyword(db: &Connection, schema: &Schema, query: &str, filter: &hybrid_store::filter::Predicate) -> Vec<String> {
    let cond = compile_filter(filter, None).unwrap();
    let mut params = vec![Value::Text(query.to_string())];
    params.extend(bind(&cond.params));
    params.push(Value::Integer(10));
    let mut st = db.prepare(&schema.keyword_search_statement(&cond).unwrap()).unwrap();
    let rows: Vec<String> = st.query_map(params_from_iter(params), |r| r.get(1)).unwrap().map(|x| x.unwrap()).collect();
    rows
}

#[test]
fn keyword_search_applies_the_filter() {
    let schema = Schema::new("docs", 0, Backend::Lexical).unwrap();
    let mut db = Connection::open_in_memory().unwrap();
    for s in schema.create_statements() {
        db.execute(&s, ()).unwrap();
    }
    insert(
        &mut db,
        &schema,
        &[
            ("apple pie recipe", "{\"lang\":\"en\",\"tag\":\"a\"}"),
            ("apple tarte recette", "{\"lang\":\"fr\",\"tag\":\"b\"}"),
            ("apple strudel", "{\"lang\":\"de\",\"tag\":\"c\"}"),
        ],
    );
    let en = vec![("lang".to_string(), FilterValue::Equals(Scalar::Text("en".to_string())))];
    assert_eq!(keyword(&db, &schema, "apple", &en), vec!["apple pie recipe".to_string()]);
    let ab = vec![(
        "tag".to_string(),
        FilterValue::OneOf(vec![Scalar::Text("a".to_string()), Scalar::Text("b".to_string())]),
    )];
    let mut got = keyword(&db, &schema, "apple", &ab);
    got.sort();
    assert_eq!(got, vec!["apple pie recipe".to_string(), "apple tarte recette".to_string()]);
    assert_eq!(keyword(&db, &schema, "apple", &vec![]).len(), 3);
}

#[test]
fn empty_metadata_filter_deletes_everything() {
    let schema = Schema::new("docs", 2, Backend::Hybrid).unwrap();
    let mut db = open(&schema);
    insert(&mut db, &schema, &[("a", "{\"lang\":\"en\"}"), ("b", "{}")]);
    let (stmts, params) = schema.delete_by_metadata_statements(&vec![]).unwrap();
    let tx = db.transaction().unwrap();
    tx.execute(&stmts[0], params_from_iter(bind(&params))).unwrap();
    for s in &stmts[1..] {
        tx.execute(s, ()).unwrap();
    }
    tx.commit().unwrap();
    assert!(ids_of(&db, "docs").is_empty());
    assert!(in_lockstep(&db));
}
