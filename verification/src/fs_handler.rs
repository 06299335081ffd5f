pub mod errors;
pub mod strategy;
pub mod item;
pub mod payload_request;
pub mod json_struct;
pub mod collection;
pub mod payload_collection;
pub mod fs_read;
pub mod fs_resolve;
pub mod lexer;
pub mod component;
