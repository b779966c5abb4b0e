pub mod clock;
pub mod config;
pub mod git;
pub mod models;
pub mod osuapi;
pub mod scrape;
pub mod text;
