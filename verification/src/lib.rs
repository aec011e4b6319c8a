//! Core of a columnar query engine: plan arena, in-memory executor and the
//! building blocks of the streaming engine, each with a contract that Verus proves.

pub mod text;
pub mod error;
pub mod datatypes;
pub mod physical_types;
pub mod schema;
pub mod series;
pub mod frame;
pub mod arrays;
pub mod binview;
pub mod fixed_size_list;
pub mod ops;
pub mod bits;
pub mod floor_div;
pub mod extension;
pub mod cast;
pub mod horizontal;
pub mod executor;
pub mod streaming;
pub mod multi_scan;
pub mod morsel;
pub mod arena;
pub mod constants;
pub mod path;
pub mod aexpr;
pub mod dsl;
pub mod client;
pub mod scan;
pub mod table_functions;
pub mod type_coercion;
pub mod ipc;
pub mod warning;
pub mod config;
pub mod udf;
pub mod utils_error;
pub mod function_registry;
pub mod predicate;
pub mod connector;
pub mod permits;
pub mod sink;
pub mod graph;
pub mod python_error;
pub mod python_source;
