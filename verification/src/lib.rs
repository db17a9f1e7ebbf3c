//! The protocol layer of a server for knowledge organization systems: an HTTP front end
//! to a graph store, with the query and update protocol, and to a text index, with a
//! search that is answered from both.
//!
//! Nothing here reads from the network, and nothing here stores or searches. Each
//! module decides what a request asks for and how it is answered, over plain values;
//! the server around it reads, sends, stores and searches, and reports back. Of the
//! engines the parsers alone are called here, behind contracts that are taken on trust:
//! the decoder of form-encoded text, the parsers of queries, updates and IRIs, and the
//! table of the formats for query results.

pub mod cors;
pub mod engine;
pub mod format;
pub mod http;
pub mod index;
pub mod init;
pub mod negotiation;
pub mod nesting;
pub mod number;
pub mod params;
pub mod router;
pub mod scope;
pub mod score;
pub mod search;
pub mod sparql;
pub mod store;
pub mod stream;
pub mod text;
pub mod update;
