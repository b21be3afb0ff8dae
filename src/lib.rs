//! An in-memory property graph with a lazy, pull-based traversal engine.
//!
//! `graph` holds the store, `pipes` the traversal steps, `query` the
//! builder and the engine that drives the steps, `value` the property
//! values.

pub mod value;
pub mod graph;
pub mod pipes;
pub mod query;

pub use value::{Value, Properties, values_equal, copy_value, get_property, properties_filter};
pub use graph::{
    Vertex, Edge, Graph, GraphError, VertexPredicate, EdgeFilter, VertexFilter, filter_vertex,
    filter_edge,
};
pub use pipes::{
    Gremlin, MaybeGremlin, SimpleTraversalDir, Pipe, VertexPipe, SimpleTraversalPipe, PropertyPipe,
    UniquePipe, FilterPipe, TakePipe, AsPipe, BackPipe, ExceptPipe, MergePipe,
};
pub use query::{Query, QueryResult, to_results};
