//! Resolution of release assets for a platform and architecture, and the
//! decisions behind unpacking a downloaded archive.
pub mod download;
pub mod extract;
pub mod extract_laws;
pub mod github;
pub mod github_laws;
pub mod platform;
pub mod platform_laws;
pub mod text;
pub mod text_laws;
