//! The statements that the service runs on its database, and what it makes of the rows.

pub mod activation_store;
pub mod cr_service;
pub mod dct_accessor;
pub mod dispatch_store;
pub mod fanout;
pub mod fanout_laws;
pub mod governance;
pub mod jsonb;
pub mod loader;
pub mod match_config_store;
pub mod match_group;
pub mod md_accessor;
pub mod offset_laws;
pub mod query;
pub mod queue_laws;
pub mod scan_store;
pub mod statement_laws;
