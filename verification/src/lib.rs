//! SuperShot's verified core: raster operations on captured screenshots,
//! the edit history of the preview window, the capture-time rules and the
//! runtime path resolution.

pub mod advice;
pub mod annotate;
pub mod capture;
pub mod codec;
pub mod config;
pub mod doctor;
pub mod editing;
pub mod flow;
pub mod history;
pub mod i18n;
pub mod os_release;
pub mod raster;
pub mod text;
pub mod window;
