pub mod ask;
pub mod error;
pub mod weigh_in;
