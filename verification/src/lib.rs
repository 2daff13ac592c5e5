pub mod comm;
pub mod components;
pub mod config;
pub mod coordinator;
pub mod error;
pub mod grouping;
pub mod hashtag;
pub mod image;
pub mod lexical;
pub mod migrate;
pub mod models;
pub mod note_store;
pub mod page;
pub mod rows;
pub mod sqlite;
pub mod statement;
pub mod system;
pub mod tag_store;
pub mod text;
