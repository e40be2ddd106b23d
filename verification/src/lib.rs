//! Verified core of a Gaussian-splatting viewer that plays trained DASH models:
//! the PLY loader, the sidecar wire protocol and frame checks, and the viewer's
//! input and redraw decisions.
pub mod bake;
pub mod bytes;
pub mod dash;
pub mod ply;
pub mod text;
pub mod viewer;

pub use dash::{DashFrame, DashSessionConfig, GAUSSIAN3D_STRIDE};
pub use ply::parse_gaussian_ply_bytes;
