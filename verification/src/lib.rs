//! Readers' decoding logic for scientific data files: the HDF5 LZ4 filter
//! and the CF (Climate and Forecast) conventions used by NetCDF.

pub mod cf;
pub mod error;
pub mod lz4;
pub mod text;
pub mod types;
