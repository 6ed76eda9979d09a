pub mod model;
pub mod text;
pub mod headers;
pub mod sync;
pub mod app;
pub mod http;
pub mod keys;
pub mod storage;
pub mod ssh;
pub mod laws;
