//! Resolution and download planning for a short-form video link: extracting
//! the media identifier from a canonical URL, pulling the three asset URLs
//! out of the metadata response, naming the destination files, and
//! accounting for a chunked byte stream as it is written to disk.

pub mod fetcher;
pub mod json_value;
pub mod plan;
pub mod resolver;
