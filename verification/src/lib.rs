//! Agreement on parachain candidates among the validators of a relay chain.
//!
//! Validators are split into groups by parachain. Within one relay-chain slot
//! they exchange signed statements about candidates; the statement table turns
//! them into validity and availability tallies, records equivocation, and
//! names the candidates that may be included in the next relay block.

pub mod account_db;
pub mod batch;
pub mod candidate;
pub mod codec;
pub mod collation;
pub mod context;
pub mod crypto;
pub mod dynamic_inclusion;
pub mod error;
pub mod group_info;
pub mod inherents;
pub mod misbehavior;
pub mod primitives;
pub mod producer;
pub mod proposer;
pub mod shared_table;
pub mod statement;
pub mod table;
pub mod table_laws;
pub mod vec_map;

pub use error::Error;
pub use group_info::GroupInfo;
pub use producer::{ProducedStatements, StatementProducer};
pub use proposer::{CreateProposal, Proposer};
pub use shared_table::{SharedTable, StatementSource};
pub use statement::sign_table_statement;
