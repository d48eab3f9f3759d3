use vstd::prelude::*;
use crate::error::StoreError;
use crate::fusion::RRF_K;
use crate::ident::valid_identifier;
use crate::ingest::DEFAULT_BATCH_SIZE;
use crate::schema::{Backend, Schema};

verus! {

/// How many candidates a search asks the vector index for, per result wanted.
pub const DEFAULT_OVER_FETCH: usize = 2;

/// Everything a store is opened with, checked.
pub struct StoreConfig {
    pub connection_url: String,
    pub schema: Schema,
    pub batch_size: usize,
    pub rrf_k: u64,
    pub over_fetch: usize,
}

/// Collects the settings of a store.
pub struct StoreBuilder {
    pub connection_url: Option<String>,
    pub table: String,
    pub vector_dimensions: i32,
    pub backend: Backend,
}

impl StoreBuilder {
    /// No connection, the table `documents`, no dimensionality yet, both indexes.
    pub fn new() -> (r: StoreBuilder)
        ensures
            r.connection_url is None,
            r.table@ == "documents"@,
            r.vector_dimensions == 0,
            r.backend == Backend::Hybrid,
    {
        StoreBuilder {
            connection_url: None,
            table: String::from_str("documents"),
            vector_dimensions: 0,
            backend: Backend::Hybrid,
        }
    }

    pub fn backend(self, backend: Backend) -> (r: StoreBuilder)
        ensures
            r.connection_url == self.connection_url,
            r.table == self.table,
            r.vector_dimensions == self.vector_dimensions,
            r.backend == backend,
    {
        StoreBuilder { backend, ..self }
    }

    pub fn connection_url(self, url: &str) -> (r: StoreBuilder)
        ensures
            r.connection_url matches Some(u) && u@ == url@,
            r.table == self.table,
            r.vector_dimensions == self.vector_dimensions,
            r.backend == self.backend,
    {
        StoreBuilder { connection_url: Some(String::from_str(url)), ..self }
    }

    pub fn table(self, table: &str) -> (r: StoreBuilder)
        ensures
            r.connection_url == self.connection_url,
            r.table@ == table@,
            r.vector_dimensions == self.vector_dimensions,
            r.backend == self.backend,
    {
        StoreBuilder { table: String::from_str(table), ..self }
    }

    pub fn vector_dimensions(self, vector_dimensions: i32) -> (r: StoreBuilder)
        ensures
            r.connection_url == self.connection_url,
            r.table == self.table,
            r.vector_dimensions == vector_dimensions,
            r.backend == self.backend,
    {
        StoreBuilder { vector_dimensions, ..self }
    }

    /// Checks the settings: a connection is needed, the table must be an
    /// identifier and, where vectors are kept, the dimensionality positive.
    /// The batch size, the fusion offset and the over-fetch factor take their
    /// defaults.
    pub fn build(self) -> (r: Result<StoreConfig, StoreError>)
        ensures
            self.connection_url is None ==> r == Err::<StoreConfig, StoreError>(
                StoreError::MissingConnection,
            ),
            self.connection_url is Some ==> (r is Ok <==> (valid_identifier(self.table@) && (
            self.backend.has_vector() ==> self.vector_dimensions > 0))),
            self.connection_url is Some && r is Err ==> r == Err::<StoreConfig, StoreError>(
                StoreError::Schema,
            ),
            r matches Ok(c) ==> {
                &&& self.connection_url == Some(c.connection_url)
                &&& c.schema.wf()
                &&& c.schema@.table == self.table@
                &&& c.schema@.dims == if self.vector_dimensions > 0 {
                    self.vector_dimensions as nat
                } else {
                    0
                }
                &&& c.schema@.backend == self.backend
                &&& c.batch_size == DEFAULT_BATCH_SIZE
                &&& c.rrf_k == RRF_K
                &&& c.over_fetch == DEFAULT_OVER_FETCH
            },
    {
        let url = match self.connection_url {
            None => return Err(StoreError::MissingConnection),
            Some(u) => u,
        };
        if self.backend.vector() && self.vector_dimensions <= 0 {
            return Err(StoreError::Schema);
        }
        let dims: u32 = if self.vector_dimensions > 0 { self.vector_dimensions as u32 } else { 0 };
        let schema = Schema::new(self.table.as_str(), dims, self.backend)?;
        Ok(StoreConfig {
            connection_url: url,
            schema,
            batch_size: DEFAULT_BATCH_SIZE,
            rrf_k: RRF_K,
            over_fetch: DEFAULT_OVER_FETCH,
        })
    }
}

/// How many candidates to ask an index for: `factor` per result, at most
/// the largest `usize`.
pub fn candidate_count(limit: usize, factor: usize) -> (r: usize)
    ensures
        r as int == if limit * factor <= usize::MAX { limit * factor } else { usize::MAX as int },
{
    match limit.checked_mul(factor) {
        Some(n) => n,
        None => usize::MAX,
    }
}

/// Whether `c` is a letter or a digit, as `char::is_alphanumeric` says.
pub uninterp spec fn is_alnum(c: char) -> bool;

/// Relies on `char::is_alphanumeric`: the answer depends on the character alone.
#[verifier::external_body]
fn alphanumeric(c: char) -> (r: bool)
    ensures
        r == is_alnum(c),
{
    c.is_alphanumeric()
}

/// `s` with every character that is not a letter or a digit turned into a
/// space, so that the full-text engine reads it as plain terms.
pub open spec fn search_terms(s: Seq<char>) -> Seq<char> {
    s.map_values(|c: char| if is_alnum(c) { c } else { ' ' })
}

/// Turns every character of `s` that is not a letter or a digit into a space.
pub fn plain_terms(s: &str) -> (r: String)
    ensures
        r@ == search_terms(s@),
{
    let n = s.unicode_len();
    let mut r = String::new();
    proof {
        reveal_strlit(" ");
    }
    let mut i: usize = 0;
    while i < n
        invariant
            n == s@.len(),
            i <= n,
            " "@ == seq![' '],
            r@ == search_terms(s@).take(i as int),
        decreases n - i,
    {
        let c = s.get_char(i);
        if alphanumeric(c) {
            let one = s.substring_char(i, i + 1);
            assert(one@ =~= seq![c]);
            r.append(one);
        } else {
            r.append(" ");
        }
        assert(search_terms(s@).take(i + 1) =~= search_terms(s@).take(i as int).push(
            search_terms(s@)[i as int],
        ));
        i = i + 1;
    }
    assert(search_terms(s@).take(n as int) =~= search_terms(s@));
    r
}

/// The terms searched on the lexical path: the keywords that the query was
/// rewritten into, or the query itself where the rewrite failed or gave
/// nothing; in either case with every character that is not a letter or a
/// digit turned into a space.
pub fn keyword_query(rewritten: Option<String>, raw: &str) -> (r: String)
    ensures
        r@ == search_terms(
            match rewritten {
                Some(k) => if k@.len() > 0 {
                    k@
                } else {
                    raw@
                },
                None => raw@,
            },
        ),
{
    match rewritten {
        Some(k) => {
            if k.as_str().unicode_len() > 0 {
                plain_terms(k.as_str())
            } else {
                plain_terms(raw)
            }
        },
        None => plain_terms(raw),
    }
}

/// The request sent to the keyword-extraction service for `query`.
pub open spec fn keyword_prompt_text(query: Seq<char>) -> Seq<char> {
    "Extract the keywords of this question for a full-text search. Answer with few keywords, separated by spaces, in the language of the question.\nQuestion: "@
        + query
}

/// Builds the request sent to the keyword-extraction service for `query`.
pub fn keyword_prompt(query: &str) -> (r: String)
    ensures
        r@ == keyword_prompt_text(query@),
{
    let mut s = String::from_str(
        "Extract the keywords of this question for a full-text search. Answer with few keywords, separated by spaces, in the language of the question.\nQuestion: ",
    );
    s.append(query);
    s
}

} // verus!
