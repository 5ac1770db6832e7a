//! Device-resident bootstrapping keys: parameters, partitioning across
//! accelerator devices, the distribution pipeline and the accessor surface.

pub mod params;
pub mod partition;
pub mod width;
pub mod key;
pub mod distribution;
