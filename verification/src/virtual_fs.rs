pub mod errors;
pub mod general;
pub mod runtime;
pub mod read_strategies;
pub mod states;
pub mod storage;
pub mod payloads;
pub mod iterator;
pub mod async_strategies;
pub mod resolver;
pub mod builder;
pub mod messages;
