//! The decisions of a polite wallpaper downloader: which settings are in force,
//! which articles and images a page names, where each image goes, which images
//! are fetched again, and what the user is told about it.
//!
//! The logic here is verified. Three functions that only call out are believed
//! instead, as their doc comments say: [`expansion`] calls `shellexpand`,
//! [`site`] calls `scraper`, and [`device`] calls `str::to_lowercase`. Fetching
//! pages, touching the disk and drawing progress bars is left to the program
//! around the library. What the operations promise, in the terms of their inputs
//! and results, is collected in [`laws`].

pub mod article;
pub mod device;
pub mod discovery;
pub mod download;
pub mod expansion;
pub mod laws;
pub mod links;
pub mod lookup;
pub mod paths;
pub mod report;
pub mod settings;
pub mod site;
pub mod text;
