pub mod calendar;
pub mod commands;
pub mod config;
pub mod download;
pub mod error;
pub mod exec;
pub mod login;
pub mod merge;
pub mod model;
pub mod paths;
pub mod probe;
pub mod probe_doc;
pub mod text;
pub mod thumbs;
pub mod tool_download;
pub mod transcode;

pub use error::{CoreError, IoErrorKind};
pub use model::transition;
