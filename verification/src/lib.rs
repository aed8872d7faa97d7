//! Build-time resolution of a libtorch installation: locating the library,
//! detecting its GPU capabilities, parsing CUDA architecture lists, and
//! turning all of that into compiler and linker configuration.

pub mod arch;
pub mod cargo_directives;
pub mod ccbuild;
pub mod config;
pub mod cpp_ext;
pub mod cuda;
pub mod cuda_ext;
pub mod download;
pub mod errors;
pub mod library;
pub mod platform;
pub mod probe;
pub mod strutil;
