//! Connectors for relational databases.
pub mod catalog;
pub mod catalog_laws;
pub mod catalog_text_laws;
pub mod connection_laws;
pub mod cursor;
pub mod filter;
pub mod filter_laws;
pub mod grouping;
pub mod identifier;
pub mod identity;
pub mod limits;
pub mod metadata;
pub mod mysql;
pub mod mysql_catalog;
pub mod mysql_options;
pub mod mysql_values;
pub mod native;
pub mod numeric;
pub mod oracle;
pub mod oracle_values;
pub mod outcome;
pub mod outline;
pub mod plan;
pub mod plan_laws;
pub mod postgres;
pub mod postgres_values;
pub mod registry;
pub mod sql_server;
pub mod sql_server_catalog;
pub mod statement;
pub mod statement_laws;
pub mod transaction;
pub mod value_laws;
