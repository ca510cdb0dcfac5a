//! Masked ray bundles for tracing an optical path difference through a
//! sampled refractive-index field.

pub mod cfd;
pub mod error;
pub mod mask;
pub mod outside;
pub mod ray_tracing;
pub mod scalar;
pub mod table;

pub use cfd::{Shepard, SpatialIndex, TemperatureVelocityField};
pub use error::Error;
pub use ray_tracing::RayTracer;
pub use scalar::{Scalar, Vec3};
pub use table::FromCompressedCsv;
