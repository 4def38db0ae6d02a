//! What a page is turned into, and which pages follow it.
pub mod add_next_urls;
pub mod next_page;
pub mod page_process;
