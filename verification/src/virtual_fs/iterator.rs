pub mod utils;
pub mod cached_data;
pub mod collections;
pub mod file_info_reader;
pub mod tcp_shared;
