//! Creates a new post for a Zola site: resolves the tool's configuration,
//! turns the collected title, tags and body into a front-matter document, and
//! derives where that document is written.

pub mod config;
pub mod draft;
pub mod errors;
pub mod post;
pub mod text;

pub use draft::{get_tags, get_title};
pub use post::post_file;
