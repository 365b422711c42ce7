//! The decisions behind a locally served model: the Lemonade client, the
//! registry of test thread stores, and the layout of the mention popup.

pub mod area;
pub mod canvas;
pub mod cli;
pub mod client;
pub mod config;
pub mod error;
pub mod http;
pub mod json;
pub mod mention;
pub mod popup;
pub mod ready;
pub mod registry;
pub mod startup;
pub mod style;
pub mod text;
