//! A crowdfunding ledger: campaign records kept in account data, and the
//! three authorised transitions over them (create, donate, withdraw).

pub mod codec;
pub mod record;
pub mod ledger;
pub mod lemmas;
