//! A focused web crawler framework.
//!
//! A [`router::PageRouter`] maps URLs to page processors, one table of path
//! templates per host. The same table decides which links found on a page are
//! followed. A [`worker::Worker`] turns it into a bounded, deduplicated,
//! depth-first traversal that starts from one seed URL.
pub mod document;
pub mod download_helper;
pub mod frontier;
pub mod page_process;
pub mod raspy;
pub mod raspy_config;
pub mod router;
pub mod text;
pub mod url_parts;
pub mod worker;
