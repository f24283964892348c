//! Entity-relational mapping.
//!
//! A *component* is a record type stored in a table of its own, one row
//! for each entity that has it; an *archetype* is a record assembled from
//! the components of one entity. This crate writes the statements that
//! store and fetch them and decodes the rows that come back:
//!
//! - [`cte`] composes table expressions and lowers them to one `select`;
//! - [`row`] reads a row cell by cell, so that decoders which share the
//!   cursor need not know each other's widths;
//! - [`component`] and [`archetype`] describe the records, bind their
//!   values to statements and read them from rows;
//! - [`entity`] collects the statements written for one entity;
//! - [`condition`] and [`reflect`] compile conditions on named columns;
//! - [`backend`] puts these together into what is asked of a database;
//! - [`declaration`] and [`derive`] read a type's declaration into a
//!   component or an archetype.
//!
//! Nothing here talks to a database: statements are handed out as text
//! with the values to bind, and rows are taken as lists of values.
//!
//! The order of columns is the contract that holds the parts together: a
//! statement projects the entity and then the columns of its table
//! expression ([`projection::projected_columns`]), a record's members are
//! fetched under the columns from which they are read
//! ([`archetype::member_columns`]), and what is written and fetched is
//! read back as it was written ([`component::component_round_trip`],
//! [`archetype::round_trip::archetype_round_trip`]).

pub mod archetype;
pub mod backend;
pub mod component;
pub mod condition;
pub mod cte;
pub mod declaration;
pub mod derive;
pub mod driver;
pub mod entity;
pub mod field;
pub mod projection;
pub mod reflect;
pub mod row;
pub mod text;
pub mod value;
