//! Migration of legacy network-interface descriptors into a normalized
//! connection model: mapping, controller resolution, state assembly and the
//! merge of a static DNS policy.

pub mod text;
pub mod search;
pub mod model;
pub mod addr;
pub mod ident;
pub mod policy;
pub mod interface;
pub mod fields;
pub mod paths;
pub mod mapper;
pub mod reader;
pub mod resolve;
pub mod resolve_laws;
pub mod state;
pub mod loopback;
pub mod dns;
pub mod migrate;
pub mod migrate_laws;
