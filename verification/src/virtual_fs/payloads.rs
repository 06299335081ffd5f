pub mod payload;
pub mod json_struct;
