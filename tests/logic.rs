use hybrid_store::error::StoreError;
use hybrid_store::filter::{compile_filter, metadata_satisfies, FilterValue, Scalar, SqlParam};
use hybrid_store::fusion::{fuse_rankings, fuse_top, ranks_over, Fused, RRF_K};
use hybrid_store::hits::{select_hits, Hit};
use hybrid_store::ident::is_valid_identifier;
use hybrid_store::ingest::{batch_bounds, check_embeddings};
use hybrid_store::schema::{check_existing_columns, Backend, Schema};
use hybrid_store::splitter::{
    tokenizer_from_lowercase, PlainTextSplitter, SplitterOptions, TextSplitterError, Tokenizer,
};
use hybrid_store::sql::{decimal_string, placeholder_list};
use hybrid_store::store::{candidate_count, keyword_prompt, keyword_query, plain_terms, StoreBuilder};

fn text(s: &str) -> Scalar {
    Scalar::Text(s.to_string())
}

fn eq(key: &str, v: Scalar) -> (String, FilterValue) {
    (key.to_string(), FilterValue::Equals(v))
}

fn hit(id: i64, content: &str, metadata: &str, attrs: Vec<(&str, Scalar)>) -> Hit {
    Hit {
        id,
        content: content.to_string(),
        metadata: metadata.to_string(),
        attrs: attrs.into_iter().map(|(k, v)| (k.to_string(), v)).collect(),
    }
}

#[test]
fn identifiers() {
    assert!(is_valid_identifier("documents"));
    assert!(is_valid_identifier("Docs_2024"));
    assert!(!is_valid_identifier(""));
    assert!(!is_valid_identifier("docs; DROP TABLE x"));
    assert!(!is_valid_identifier("my-table"));
    assert!(!is_valid_identifier("tablé"));
}

#[test]
fn decimals_and_placeholders() {
    assert_eq!(decimal_string(0), "0");
    assert_eq!(decimal_string(7), "7");
    assert_eq!(decimal_string(1536), "1536");
    assert_eq!(decimal_string(u64::MAX), "18446744073709551615");
    assert_eq!(placeholder_list(0), "");
    assert_eq!(placeholder_list(1), "?");
    assert_eq!(placeholder_list(3), "?,?,?");
}

#[test]
fn schema_rejects_bad_settings() {
    assert!(matches!(Schema::new("docs", 0, Backend::Hybrid), Err(StoreError::Schema)));
    assert!(matches!(Schema::new("bad name", 3, Backend::Hybrid), Err(StoreError::Schema)));
    assert!(matches!(Schema::new("", 3, Backend::Hybrid), Err(StoreError::Schema)));
    let s = Schema::new("docs", 3, Backend::Hybrid).unwrap();
    assert_eq!(s.table(), "docs");
    assert_eq!(s.dims(), 3);
}

#[test]
fn schema_statements() {
    let s = Schema::new("docs", 3, Backend::Hybrid).unwrap();
    let c = s.create_statements();
    assert_eq!(c.len(), 5);
    assert_eq!(
        c[0],
        "CREATE TABLE IF NOT EXISTS docs (rowid INTEGER PRIMARY KEY AUTOINCREMENT, text TEXT, metadata BLOB, text_embedding BLOB)"
    );
    assert_eq!(c[1], "CREATE VIRTUAL TABLE IF NOT EXISTS vec_docs USING vec0(text_embedding float[3])");
    assert_eq!(c[2], "CREATE VIRTUAL TABLE IF NOT EXISTS bm25_docs USING fts5(text, metadata)");
    assert_eq!(
        c[3],
        "CREATE TRIGGER IF NOT EXISTS docs_insert_trigger AFTER INSERT ON docs BEGIN INSERT INTO vec_docs (rowid, text_embedding) VALUES (new.rowid, new.text_embedding); INSERT INTO bm25_docs (rowid, text, metadata) VALUES (new.rowid, new.text, new.metadata); END"
    );
    assert_eq!(
        c[4],
        "CREATE TRIGGER IF NOT EXISTS docs_delete_trigger AFTER DELETE ON docs BEGIN DELETE FROM vec_docs WHERE rowid = old.rowid; DELETE FROM bm25_docs WHERE rowid = old.rowid; END"
    );
    assert_eq!(
        s.insert_statement(),
        "INSERT INTO docs (text, metadata, text_embedding) VALUES (?, ?, ?) RETURNING rowid"
    );
    assert_eq!(
        s.delete_by_ids_statements(2),
        vec![
            "DELETE FROM docs WHERE rowid IN (?,?)".to_string(),
            "DELETE FROM vec_docs WHERE rowid IN (?,?)".to_string(),
            "DELETE FROM bm25_docs WHERE rowid IN (?,?)".to_string(),
        ]
    );
    assert_eq!(
        s.delete_all_statements(),
        vec!["DELETE FROM docs".to_string(), "DELETE FROM vec_docs".to_string(), "DELETE FROM bm25_docs".to_string()]
    );
}

#[test]
fn filter_compiles_to_bound_parameters() {
    let empty = compile_filter(&vec![], None).unwrap();
    assert_eq!(empty.sql, "1=1");
    assert!(empty.params.is_empty());

    let f = compile_filter(&vec![eq("lang", text("en"))], None).unwrap();
    assert_eq!(f.sql, "json_extract(metadata, ?) = ?");
    assert!(matches!(&f.params[..], [SqlParam::Text(p), SqlParam::Text(v)] if p == "$.lang" && v == "en"));

    let g = compile_filter(
        &vec![
            ("tag".to_string(), FilterValue::OneOf(vec![text("a"), text("b")])),
            eq("draft", Scalar::Bool(true)),
            eq("year", Scalar::Int(2024)),
        ],
        Some("e"),
    )
    .unwrap();
    assert_eq!(
        g.sql,
        "json_extract(e.metadata, ?) IN (?,?) AND json_extract(e.metadata, ?) = ? AND json_extract(e.metadata, ?) = ?"
    );
    assert_eq!(g.params.len(), 7);
    assert!(matches!(&g.params[4], SqlParam::Int(1)));
    assert!(matches!(&g.params[6], SqlParam::Int(2024)));
}

#[test]
fn filter_rejects_unsupported_shapes() {
    assert!(matches!(
        compile_filter(&vec![("x".to_string(), FilterValue::Unsupported)], None),
        Err(StoreError::Filter)
    ));
    assert!(matches!(compile_filter(&vec![eq("a') OR 1=1 --", text("x"))], None), Err(StoreError::Filter)));
    assert!(matches!(compile_filter(&vec![eq("lang", text("en"))], Some("e f")), Err(StoreError::Filter)));
}

#[test]
fn metadata_filter_semantics() {
    let en = vec![("lang".to_string(), text("en")), ("tag".to_string(), text("b"))];
    let fr = vec![("lang".to_string(), text("fr")), ("tag".to_string(), text("c"))];
    let lang_en = vec![eq("lang", text("en"))];
    assert!(metadata_satisfies(&en, &lang_en));
    assert!(!metadata_satisfies(&fr, &lang_en));
    assert!(!metadata_satisfies(&vec![], &lang_en));
    assert!(metadata_satisfies(&vec![], &vec![]));
    let tag_ab = vec![("tag".to_string(), FilterValue::OneOf(vec![text("a"), text("b")]))];
    assert!(metadata_satisfies(&en, &tag_ab));
    assert!(!metadata_satisfies(&fr, &tag_ab));
    let flag = vec![("ok".to_string(), Scalar::Int(1))];
    assert!(metadata_satisfies(&flag, &vec![eq("ok", Scalar::Bool(true))]));
}

#[test]
fn filtered_search_returns_only_matching_documents() {
    let hits = vec![
        hit(1, "one", "{\"lang\":\"fr\"}", vec![("lang", text("fr"))]),
        hit(2, "two", "{\"lang\":\"en\"}", vec![("lang", text("en"))]),
        hit(3, "three", "{}", vec![]),
        hit(4, "four", "{\"lang\":\"en\"}", vec![("lang", text("en"))]),
    ];
    let r = select_hits(&hits, &vec![eq("lang", text("en"))], 10);
    assert_eq!(r, vec![1, 3]);
    let tags = vec![
        hit(1, "a", "{\"tag\":\"a\"}", vec![("tag", text("a"))]),
        hit(2, "c", "{\"tag\":\"c\"}", vec![("tag", text("c"))]),
        hit(3, "b", "{\"tag\":\"b\"}", vec![("tag", text("b"))]),
    ];
    let pred = vec![("tag".to_string(), FilterValue::OneOf(vec![text("a"), text("b")]))];
    assert_eq!(select_hits(&tags, &pred, 10), vec![0, 2]);
}

#[test]
fn duplicate_documents_collapse() {
    let hits = vec![
        hit(1, "Paris is the capital", "{\"a\":1}", vec![]),
        hit(2, "Berlin", "{}", vec![]),
        hit(3, "Paris is the capital", "{\"a\":1}", vec![]),
        hit(4, "Rome", "{}", vec![]),
    ];
    let r = select_hits(&hits, &vec![], 4);
    assert_eq!(r, vec![0, 1, 3]);
    assert!(r.len() <= 4);
    assert_eq!(select_hits(&hits, &vec![], 2), vec![0, 1]);
    assert_eq!(select_hits(&hits, &vec![], 0), Vec::<usize>::new());
    let same_text = vec![hit(1, "x", "{\"a\":1}", vec![]), hit(2, "x", "{\"a\":2}", vec![])];
    assert_eq!(select_hits(&same_text, &vec![], 5), vec![0, 1]);
}

#[test]
fn fusion_scores_and_order() {
    let r = fuse_rankings(&vec![10, 20], &vec![10, 30], RRF_K);
    assert_eq!(r.len(), 3);
    assert_eq!(r[0].id, 10);
    assert_eq!(r[0].vec_rank, Some(1));
    assert_eq!(r[0].lex_rank, Some(1));
    assert_eq!((r[0].score_num, r[0].score_den), (122, 3721));
    let mut rest: Vec<i64> = r[1..].iter().map(|f| f.id).collect();
    rest.sort();
    assert_eq!(rest, vec![20, 30]);
    for f in &r[1..] {
        assert_eq!((f.score_num, f.score_den), (1, 62));
    }
}

#[test]
fn agreement_outranks_single_path() {
    let r = fuse_rankings(&vec![7, 1], &vec![2, 1], RRF_K);
    assert_eq!(r[0].id, 1);
    let both = Fused { id: 1, vec_rank: Some(1), lex_rank: Some(1), score_num: 122, score_den: 3721 };
    let one = Fused { id: 2, vec_rank: Some(1), lex_rank: None, score_num: 1, score_den: 61 };
    assert!(ranks_over(&both, &one));
    assert!(!ranks_over(&one, &both));
}

#[test]
fn fusion_of_empty_and_one_sided_lists() {
    assert!(fuse_rankings(&vec![], &vec![], RRF_K).is_empty());
    let r = fuse_rankings(&vec![], &vec![5, 6], RRF_K);
    assert_eq!(r.iter().map(|f| f.id).collect::<Vec<_>>(), vec![5, 6]);
    assert_eq!(r[0].vec_rank, None);
    assert_eq!(r[1].lex_rank, Some(2));
    let d = fuse_rankings(&vec![4, 4, 5], &vec![], RRF_K);
    assert_eq!(d.len(), 2);
    assert_eq!(d[1].vec_rank, Some(3));
}

#[test]
fn batches_cover_the_documents() {
    assert_eq!(batch_bounds(5, 2), vec![(0, 2), (2, 4), (4, 5)]);
    assert_eq!(batch_bounds(4, 2), vec![(0, 2), (2, 4)]);
    assert_eq!(batch_bounds(0, 3), Vec::<(usize, usize)>::new());
    assert_eq!(batch_bounds(3, 100), vec![(0, 3)]);
}

#[test]
fn embedding_checks() {
    assert!(check_embeddings(2, &vec![3, 3], 3).is_ok());
    assert!(matches!(check_embeddings(3, &vec![3, 3], 3), Err(StoreError::EmbeddingCountMismatch)));
    assert!(matches!(check_embeddings(2, &vec![3, 4], 3), Err(StoreError::EmbeddingDimension)));
    assert!(check_embeddings(0, &vec![], 3).is_ok());
}

#[test]
fn builder_checks_settings() {
    assert!(matches!(StoreBuilder::new().vector_dimensions(3).build(), Err(StoreError::MissingConnection)));
    assert!(matches!(StoreBuilder::new().connection_url(":memory:").build(), Err(StoreError::Schema)));
    assert!(matches!(
        StoreBuilder::new().connection_url(":memory:").vector_dimensions(-1).build(),
        Err(StoreError::Schema)
    ));
    assert!(matches!(
        StoreBuilder::new().connection_url(":memory:").table("x y").vector_dimensions(3).build(),
        Err(StoreError::Schema)
    ));
    let c = StoreBuilder::new().connection_url(":memory:").vector_dimensions(3).build().unwrap();
    assert_eq!(c.schema.table(), "documents");
    assert_eq!(c.rrf_k, 60);
    assert_eq!(c.over_fetch, 2);
    assert_eq!(candidate_count(5, 2), 10);
    assert_eq!(candidate_count(usize::MAX, 2), usize::MAX);
}

#[test]
fn splitter_chunks_text() {
    let s = PlainTextSplitter::new(SplitterOptions::new().with_chunk_size(10).with_trim_chunks(true));
    let chunks = s.split_text("Some text\n\nfrom a\ndocument").unwrap();
    assert_eq!(chunks, vec!["Some text", "from a", "document"]);
    let bad = PlainTextSplitter::new(SplitterOptions::new().with_chunk_size(4).with_chunk_overlap(4));
    assert!(matches!(bad.split_text("abc"), Err(TextSplitterError::InvalidSplitterOptions)));
    let zero = PlainTextSplitter::new(SplitterOptions::new().with_chunk_size(0));
    assert!(matches!(zero.split_text("abc"), Err(TextSplitterError::InvalidSplitterOptions)));
    assert_eq!(PlainTextSplitter::default().splitter_options.chunk_size, 512);
}

#[test]
fn keyword_rewrite_falls_back_to_the_query() {
    assert_eq!(keyword_query(Some("capital France".to_string()), "what is the capital of France?"), "capital France");
    assert_eq!(keyword_query(Some("\"capital\", France!".to_string()), "q"), " capital   France ");
    assert_eq!(keyword_query(None, "capital of France?"), "capital of France ");
    assert_eq!(keyword_query(Some(String::new()), "capital of France"), "capital of France");
    assert_eq!(plain_terms("Élysée-Palast 2024!"), "Élysée Palast 2024 ");
    assert_eq!(plain_terms(""), "");
    let p = keyword_prompt("capital of France?");
    assert!(p.starts_with("Extract the keywords"));
    assert!(p.ends_with("Question: capital of France?"));
}

#[test]
fn tokenizer_names() {
    let s = PlainTextSplitter::default();
    assert_eq!(s.get_tokenizer_from_str("CL100K_BASE"), Some(Tokenizer::Cl100kBase));
    assert_eq!(s.get_tokenizer_from_str("Gpt2"), Some(Tokenizer::Gpt2));
    assert_eq!(s.get_tokenizer_from_str("p50k_edit"), Some(Tokenizer::P50kEdit));
    assert_eq!(s.get_tokenizer_from_str("unknown"), None);
    assert_eq!(tokenizer_from_lowercase(&"r50k_base".to_string()), Some(Tokenizer::R50kBase));
    assert_eq!(tokenizer_from_lowercase(&"P50K_BASE".to_string()), None);
}

#[test]
fn backends_keep_only_their_indexes() {
    assert!(Schema::new("docs", 0, Backend::Lexical).is_ok());
    assert!(matches!(Schema::new("docs", 0, Backend::Vector), Err(StoreError::Schema)));
    let v = Schema::new("docs", 4, Backend::Vector).unwrap();
    let c = v.create_statements();
    assert_eq!(c.len(), 4);
    assert_eq!(c[1], "CREATE VIRTUAL TABLE IF NOT EXISTS vec_docs USING vec0(text_embedding float[4])");
    assert_eq!(
        c[3],
        "CREATE TRIGGER IF NOT EXISTS docs_delete_trigger AFTER DELETE ON docs BEGIN DELETE FROM vec_docs WHERE rowid = old.rowid; END"
    );
    assert_eq!(
        v.delete_by_ids_statements(1),
        vec!["DELETE FROM docs WHERE rowid IN (?)".to_string(), "DELETE FROM vec_docs WHERE rowid IN (?)".to_string()]
    );
    let empty = compile_filter(&vec![], None).unwrap();
    assert!(v.keyword_search_statement(&empty).is_none());
    assert_eq!(
        v.vector_search_statement(&empty).unwrap(),
        "SELECT e.rowid, e.text, e.metadata, v.distance FROM docs e INNER JOIN vec_docs v ON v.rowid = e.rowid WHERE v.text_embedding MATCH ? AND k = ? AND 1=1 ORDER BY v.distance LIMIT ?"
    );
    let l = Schema::new("notes", 0, Backend::Lexical).unwrap();
    let c = l.create_statements();
    assert_eq!(c.len(), 4);
    assert_eq!(c[1], "CREATE VIRTUAL TABLE IF NOT EXISTS bm25_notes USING fts5(text, metadata)");
    assert!(l.vector_search_statement(&empty).is_none());
    assert_eq!(
        l.keyword_search_statement(&empty).unwrap(),
        "SELECT rowid, text, metadata, bm25(bm25_notes) AS score FROM bm25_notes WHERE bm25_notes MATCH ? AND 1=1 ORDER BY score LIMIT ?"
    );
    assert_eq!(
        l.delete_all_statements(),
        vec!["DELETE FROM notes".to_string(), "DELETE FROM bm25_notes".to_string()]
    );
    let (stmts, params) = l
        .delete_by_metadata_statements(&vec![eq("lang", text("en"))])
        .unwrap();
    assert_eq!(
        stmts,
        vec![
            "DELETE FROM notes WHERE json_extract(metadata, ?) = ?".to_string(),
            "DELETE FROM bm25_notes WHERE rowid NOT IN (SELECT rowid FROM notes)".to_string(),
        ]
    );
    assert_eq!(params.len(), 2);
    let (all, none) = l.delete_by_metadata_statements(&vec![]).unwrap();
    assert_eq!(
        all,
        vec![
            "DELETE FROM notes WHERE 1=1".to_string(),
            "DELETE FROM bm25_notes WHERE rowid NOT IN (SELECT rowid FROM notes)".to_string(),
        ]
    );
    assert!(none.is_empty());
    assert!(matches!(
        l.delete_by_metadata_statements(&vec![("x".to_string(), FilterValue::Unsupported)]),
        Err(StoreError::Filter)
    ));
}

#[test]
fn lexical_builder_needs_no_dimensionality() {
    let c = StoreBuilder::new().connection_url("db.sqlite").backend(Backend::Lexical).build().unwrap();
    assert_eq!(c.schema.backend(), Backend::Lexical);
    assert_eq!(c.schema.dims(), 0);
    assert_eq!(c.connection_url, "db.sqlite");
}

#[test]
fn fused_results_keep_the_best_within_the_limit() {
    let r = fuse_top(&vec![1, 2, 3], &vec![3, 4], RRF_K, 2);
    assert_eq!(r.len(), 2);
    assert_eq!(r[0].id, 3);
    assert_eq!((r[0].score_num, r[0].score_den), (124, 3843));
    assert_eq!(r[1].id, 1);
    assert_eq!(fuse_top(&vec![1, 2], &vec![2], RRF_K, 10).len(), 2);
    assert!(fuse_top(&vec![1, 2], &vec![2], RRF_K, 0).is_empty());
}

#[test]
fn existing_tables_must_have_the_store_shape() {
    assert!(check_existing_columns(&vec![]).is_ok());
    let good: Vec<String> = ["rowid", "text", "metadata", "text_embedding"].iter().map(|s| s.to_string()).collect();
    assert!(check_existing_columns(&good).is_ok());
    let short: Vec<String> = ["rowid", "text"].iter().map(|s| s.to_string()).collect();
    assert!(matches!(check_existing_columns(&short), Err(StoreError::Schema)));
    let other: Vec<String> = ["rowid", "body", "metadata", "text_embedding"].iter().map(|s| s.to_string()).collect();
    assert!(matches!(check_existing_columns(&other), Err(StoreError::Schema)));
}
