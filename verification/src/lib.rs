pub mod analyze;
pub mod cli;
pub mod date;
pub mod error;
pub mod grade;
pub mod init;
pub mod models;
pub mod order;
pub mod sql;
pub mod table;
pub mod utils;

