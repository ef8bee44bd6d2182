//! Loads the source files of a packaged Deno module from its compressed
//! tarball, for a documentation engine that asks for modules by specifier.
pub mod unpack;
pub mod archive;
pub mod loader;
pub mod upload;
pub mod path;
