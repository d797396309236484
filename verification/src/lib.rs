//! Harvests image posts from a paginated syndication feed.
//!
//! The crate holds the parts that decide and compute: the feed state machine,
//! the search for an image link in a post's HTML body, the rewriting of link
//! shapes, the geometry and assembly of the 512x512 thumbnail, and the cursor
//! logic that drives pagination. Transport and storage are left to the caller.

pub mod driver;
pub mod error;
pub mod feed;
pub mod html;
pub mod link;
pub mod raster;
pub mod reader;
pub mod report;
pub mod save;
pub mod text;
pub mod thumbnail;
