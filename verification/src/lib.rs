//! The verified logic of a LuCI web-admin toolset: `kb-port`, which reads a
//! LuCI JavaScript form description and generates an HTML template and a Rust
//! settings module for it; the process list shown by the admin pages; and the
//! SQM settings page.
pub mod text;
pub mod num;
pub mod form;
pub mod html;
pub mod rustgen;
pub mod procs;
pub mod sqm;
