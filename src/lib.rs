//! Resized image derivatives: naming, the reprocessing guard, the resize
//! engine, configuration parsing and the per-size fan-out.

pub mod text;
pub mod naming;
pub mod config;
pub mod resize;
pub mod dispatch;
pub mod request;
