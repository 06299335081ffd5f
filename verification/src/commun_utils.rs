pub mod errors;
pub mod fs_strategies;
pub mod collection;
pub mod scan;
pub mod iterable;
