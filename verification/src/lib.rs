//! A small service that hands out mail aliases: users, domains and aliases are
//! kept in three tables, and an address table ties each alias to a user and a
//! domain.  This crate holds the verified core: the rows and tables, the SQL
//! requests that each table operation sends, the decoding of what comes back,
//! the cleaning of form input, and the decisions of each web request.

pub mod text;
pub mod error;
pub mod row;
pub mod table;
pub mod base;
pub mod webapi;
