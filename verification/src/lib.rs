//! A library for turning a Rust project's build results into a NuGet package.
//!
//! Three stages, run in order: render a `.nuspec` specification document from
//! the project's metadata, assemble a `.nupkg` archive holding that document
//! and one binary per compiled target, and derive the path the archive is
//! saved to. The archive itself is produced by the `zip` crate; everything
//! around that call is verified.

pub mod archive;
pub mod buf;
pub mod error;
pub mod nuspec;
pub mod pack;
pub mod save;

pub use buf::Buf;
pub use error::NugetError;
pub use nuspec::{format_nuspec, CargoConfig, Nuspec, NugetDependencies, NugetDependency, NugetSpecArgs};
pub use pack::{pack_nupkg, CargoBuildOutput, NugetLib, NugetPackArgs, Nupkg};
pub use save::NugetSaveArgs;
