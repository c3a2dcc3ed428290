//! chipsmith: a declarative FPGA build system for Intel Quartus, as a
//! verified library. The modules hold everything that decides or computes;
//! spawning processes, touching the filesystem and the network is left to the
//! caller.

pub mod plan;
pub mod download;
pub mod error;
pub mod ghdl;
pub mod install;
pub mod manifest;
pub mod nixos;
pub mod path;
pub mod process;
pub mod product;
pub mod qsf;
pub mod runner;
pub mod scaffold;
pub mod sim;
pub mod strmap;
pub mod text;
pub mod timing;
pub mod toolchain;
