use vstd::prelude::*;

verus! {

/// The errors that the store reports.
#[derive(Debug, Clone, Copy, PartialEq, Eq, Structural)]
pub enum StoreError {
    /// A table name or a dimensionality that no schema can be made of.
    Schema,
    /// No connection was configured.
    MissingConnection,
    /// The embedding service failed.
    Embedding,
    /// The embedding service returned a vector count other than the document count.
    EmbeddingCountMismatch,
    /// A vector's length differs from the configured dimensionality.
    EmbeddingDimension,
    /// A filter refers to a value shape that the compiler does not support.
    Filter,
}

} // verus!
