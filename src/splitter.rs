use vstd::prelude::*;
use crate::schema::texts;

verus! {

/// The chunks that text-splitter cuts `text` into, with chunks of at most
/// `capacity` characters overlapping by `overlap`, trimmed or not.
pub uninterp spec fn text_chunks(text: Seq<char>, capacity: nat, overlap: nat, trim: bool) -> Seq<
    Seq<char>,
>;

/// Relies on `text_splitter::ChunkConfig::new`, `with_overlap`, `with_trim`
/// and `text_splitter::TextSplitter::chunks`: for an overlap below the
/// capacity the configuration is accepted, and the chunks depend on the
/// text and the three settings alone.
#[verifier::external_body]
fn chunks_of(text: &str, capacity: usize, overlap: usize, trim: bool) -> (r: Vec<String>)
    requires
        overlap < capacity,
    ensures
        texts(r@) == text_chunks(text@, capacity as nat, overlap as nat, trim),
{
    match text_splitter::ChunkConfig::new(capacity).with_overlap(overlap) {
        Ok(config) => text_splitter::TextSplitter::new(config.with_trim(trim)).chunks(text).map(
            |c| c.to_string(),
        ).collect(),
        Err(_) => Vec::new(),
    }
}

/// Why a text could not be split.
#[derive(Debug, Clone, Copy, PartialEq, Eq, Structural)]
pub enum TextSplitterError {
    /// The chunk size is zero, or the overlap is not below it.
    InvalidSplitterOptions,
}

/// How text is cut into chunks: the most characters in a chunk, how many
/// characters neighbouring chunks share, and whether chunks are trimmed.
#[derive(Debug, Clone, Copy, PartialEq, Eq, Structural)]
pub struct SplitterOptions {
    pub chunk_size: usize,
    pub chunk_overlap: usize,
    pub trim_chunks: bool,
}

impl SplitterOptions {
    pub fn new() -> (r: SplitterOptions)
        ensures
            r.chunk_size == 512,
            r.chunk_overlap == 0,
            !r.trim_chunks,
    {
        SplitterOptions { chunk_size: 512, chunk_overlap: 0, trim_chunks: false }
    }

    pub fn with_chunk_size(self, chunk_size: usize) -> (r: SplitterOptions)
        ensures
            r == (SplitterOptions { chunk_size, ..self }),
    {
        SplitterOptions { chunk_size, ..self }
    }

    pub fn with_chunk_overlap(self, chunk_overlap: usize) -> (r: SplitterOptions)
        ensures
            r == (SplitterOptions { chunk_overlap, ..self }),
    {
        SplitterOptions { chunk_overlap, ..self }
    }

    pub fn with_trim_chunks(self, trim_chunks: bool) -> (r: SplitterOptions)
        ensures
            r == (SplitterOptions { trim_chunks, ..self }),
    {
        SplitterOptions { trim_chunks, ..self }
    }
}

impl Default for SplitterOptions {
    fn default() -> (r: SplitterOptions)
        ensures
            r == SplitterOptions::new_spec(),
    {
        SplitterOptions::new()
    }
}

impl SplitterOptions {
    pub open spec fn new_spec() -> SplitterOptions {
        SplitterOptions { chunk_size: 512, chunk_overlap: 0, trim_chunks: false }
    }
}

/// Splits plain text into chunks by characters.
pub struct PlainTextSplitter {
    pub splitter_options: SplitterOptions,
}

impl PlainTextSplitter {
    pub fn new(options: SplitterOptions) -> (r: PlainTextSplitter)
        ensures
            r.splitter_options == options,
    {
        PlainTextSplitter { splitter_options: options }
    }

    /// The chunks of `text`, or an error where the options admit no chunking.
    pub fn split_text(&self, text: &str) -> (r: Result<Vec<String>, TextSplitterError>)
        ensures
            r is Err <==> (self.splitter_options.chunk_size == 0
                || self.splitter_options.chunk_overlap >= self.splitter_options.chunk_size),
            r is Err ==> r == Err::<Vec<String>, TextSplitterError>(
                TextSplitterError::InvalidSplitterOptions,
            ),
            r matches Ok(v) ==> texts(v@) == text_chunks(
                text@,
                self.splitter_options.chunk_size as nat,
                self.splitter_options.chunk_overlap as nat,
                self.splitter_options.trim_chunks,
            ),
    {
        let o = self.splitter_options;
        if o.chunk_size == 0 || o.chunk_overlap >= o.chunk_size {
            return Err(TextSplitterError::InvalidSplitterOptions);
        }
        Ok(chunks_of(text, o.chunk_size, o.chunk_overlap, o.trim_chunks))
    }
}

impl Default for PlainTextSplitter {
    fn default() -> (r: PlainTextSplitter)
        ensures
            r.splitter_options == SplitterOptions::new_spec(),
    {
        PlainTextSplitter::new(SplitterOptions::new())
    }
}

/// The lower-case form of `s`, as `str::to_lowercase` gives it.
pub uninterp spec fn lower_of(s: Seq<char>) -> Seq<char>;

/// Relies on `str::to_lowercase`: the result depends on the characters alone.
#[verifier::external_body]
fn lowercase(s: &str) -> (r: String)
    ensures
        r@ == lower_of(s@),
{
    s.to_lowercase()
}

/// The byte-pair encodings a token count can be taken with.
#[derive(Debug, Clone, Copy, PartialEq, Eq, Structural)]
pub enum Tokenizer {
    Cl100kBase,
    P50kBase,
    R50kBase,
    P50kEdit,
    Gpt2,
}

/// The encoding that a lower-case name stands for.
pub open spec fn tokenizer_named(s: Seq<char>) -> Option<Tokenizer> {
    if s == "cl100k_base"@ {
        Some(Tokenizer::Cl100kBase)
    } else if s == "p50k_base"@ {
        Some(Tokenizer::P50kBase)
    } else if s == "r50k_base"@ {
        Some(Tokenizer::R50kBase)
    } else if s == "p50k_edit"@ {
        Some(Tokenizer::P50kEdit)
    } else if s == "gpt2"@ {
        Some(Tokenizer::Gpt2)
    } else {
        None
    }
}

/// The encoding named by `name`, already in lower case.
pub fn tokenizer_from_lowercase(name: &String) -> (r: Option<Tokenizer>)
    ensures
        r == tokenizer_named(name@),
{
    if *name == String::from_str("cl100k_base") {
        Some(Tokenizer::Cl100kBase)
    } else if *name == String::from_str("p50k_base") {
        Some(Tokenizer::P50kBase)
    } else if *name == String::from_str("r50k_base") {
        Some(Tokenizer::R50kBase)
    } else if *name == String::from_str("p50k_edit") {
        Some(Tokenizer::P50kEdit)
    } else if *name == String::from_str("gpt2") {
        Some(Tokenizer::Gpt2)
    } else {
        None
    }
}

impl PlainTextSplitter {
    /// The encoding named by `s`, in any case.
    pub fn get_tokenizer_from_str(&self, s: &str) -> (r: Option<Tokenizer>)
        ensures
            r == tokenizer_named(lower_of(s@)),
    {
        tokenizer_from_lowercase(&lowercase(s))
    }
}

} // verus!
