//! Verified core of the img2pdf tool: option parsing, page ranges, schedulers,
//! pixel filters and PDF framing.

mod text;
pub mod constants;
pub mod models;
pub mod config;
pub mod progress;
pub mod scheduler;
pub mod image_ops;
pub mod blank;
pub mod pdf2img;
pub mod paths;
pub mod pdf;
pub mod pipeline;
pub mod tools;
pub mod superres;
pub mod scantailor;
pub mod tone;
pub mod project;
pub mod image_processor;
pub mod cli;
pub mod stages;
pub mod form;
pub mod cli_forms;
