//! Metadata management for comic-book archives: the `ComicInfo.xml` codec,
//! page reconciliation, single-entry archive rewriting and the decision logic
//! of the file-watch supervisor.

pub mod text;
pub mod types;
pub mod number;
pub mod page;
pub mod reconcile;
pub mod watch;
pub mod registry;
pub mod xml;
pub mod info;
pub mod parse;
pub mod archive;
pub mod response;
pub mod laws;
