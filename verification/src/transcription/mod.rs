pub mod chunked_batch;
pub mod chunking;
pub mod laws;
pub mod reply;
pub mod requests;
pub mod split;
