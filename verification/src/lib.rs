//! A query engine over rows, and the state machine that builds documents
//! out of the segments of an interchange.
//!
//! A query is cut into tokens ([`tokenizer`]) and parsed into a condition
//! ([`parser`], [`ast`]); a condition is evaluated on a row ([`eval`],
//! [`row`]); an executor filters, projects, orders and cuts the rows of a
//! source, or computes statistics over them ([`executor`], [`ordering`],
//! [`aggregation`], [`reader`]). A line of an interchange is read as a
//! segment ([`segment`]), and the segments are assembled into documents,
//! each of which is kept or dropped by a condition on its rows
//! ([`builder`], [`document`]).
//!
//! Numbers are binary64 values held by their encoding ([`number`]). The
//! library compares them; it does no arithmetic on them and reads no
//! decimal text as one: where it needs either, it takes it from its caller.
pub mod aggregation;
pub mod ast;
pub mod builder;
pub mod config;
pub mod document;
pub mod error;
pub mod eval;
pub mod executor;
pub mod format;
pub mod json;
pub mod model;
pub mod number;
pub mod ordering;
pub mod parser;
pub mod reader;
pub mod row;
pub mod row_builder;
pub mod segment;
pub mod text;
pub mod tokenizer;
pub mod xml;
