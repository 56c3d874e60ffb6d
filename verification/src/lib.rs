//! Verified rules of a Keryx node: store prefixes, storage presets, block-body admission,
//! service-bond standing, AI-request validity, IBD decisions and progress reporting.

pub mod registry;
pub mod rocksdb_preset;
pub mod hash;
pub mod body;
pub mod service_bond;
pub mod ai_rules;
pub mod coin_age;
pub mod ibd;
pub mod progress;
pub mod streams;
pub mod service_ledger;
pub mod service_rewards;
pub mod virtual_rules;
pub mod virtual_parents;
