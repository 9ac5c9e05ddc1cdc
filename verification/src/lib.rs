pub mod alist;
pub mod database;
pub mod listener;
pub mod log;
pub mod model;
pub mod pooled;
pub mod push;
pub mod scheduler;
pub mod threaded;
pub mod types;
