pub mod arguments;
pub mod credentials;
pub mod git;
pub mod parsers;
pub mod text;
pub mod version;
pub mod workflow;
