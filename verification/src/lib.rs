//! Core of a static site generator: Markdown documents with optional front
//! matter are turned into HTML pages through one shared template.

pub mod config;
pub mod front_matter;
pub mod generator;
pub mod markdown;
pub mod page;
pub mod paths;
pub mod report;
pub mod run;
pub mod template;
pub mod text;
