//! Fetching pages and images from sites that may sit behind a challenge page.
pub mod challenge;
pub mod client;
pub mod cookie;
pub mod image;
pub mod ratelimit;
pub mod solver;
