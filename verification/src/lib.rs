pub mod archive;
pub mod batch;
pub mod codes;
pub mod error;
pub mod fetch;
pub mod model;
pub mod orchestrator;
pub mod parse;
pub mod shared;
pub mod song;
