//! A minimal static-site generator: the build plan that turns a directory of
//! markdown documents into HTML pages, the rendering of one page, and the
//! request decisions of the preview server.

pub mod config;
pub mod preview;
pub mod render;
pub mod site;
pub mod text;
