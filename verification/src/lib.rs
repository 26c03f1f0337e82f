//! Composes the deployment manifest of a service from layered sources,
//! checks it against the rules that a usable manifest meets, and adds up the
//! resources that manifests ask for, by service, squad, tribe and region.
//!
//! Quantities are whole numbers: CPU in millicores, memory in bytes. Sums
//! stop at `u64::MAX` instead of wrapping around.

pub mod compose;
pub mod config;
pub mod error;
pub mod fold;
pub mod get;
pub mod group;
pub mod implicits;
pub mod manifest;
pub mod merge;
pub mod order;
pub mod quantity;
pub mod report;
pub mod secrets;
pub mod strmap;
pub mod text;
pub mod top;
pub mod totals;
pub mod usage;
pub mod verify;
