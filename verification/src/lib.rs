//! Manga sources: reading the pages of manga sites, and fetching them past challenge pages.
pub mod dates;
pub mod dom;
pub mod error;
pub mod guyalib;
pub mod mangalife;
pub mod models;
pub mod networking;
pub mod preferences;
pub mod text;
pub mod urls;
pub mod weebcentral;
pub mod wpmangareader;
