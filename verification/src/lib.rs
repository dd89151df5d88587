//! Resolving a TikTok share link into a media stream on disk: the page
//! parsing, playlist handling, retry policy and reporting, with every
//! function's behaviour stated in its contract.

pub mod address;
pub mod cli;
pub mod downloader;
pub mod error;
pub mod json;
pub mod page;
pub mod pipeline;
pub mod playlist;
pub mod scraper;
pub mod text;
