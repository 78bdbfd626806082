//! Classification of site-source file paths.
//!
//! A path such as `pages/guides/intro.en-US.md` names a file in a
//! content-authoring tree: a root segment gives the content kind
//! (`includes`, `layouts` or `pages`), optional intermediate segments give a
//! directory, and the final segment splits into a base name, an optional
//! locale suffix and a file extension that gives the file format.
//! [`file::FileInfo`] parses one such path into a descriptor that keeps the
//! original string as its single owned buffer and records the components as
//! character ranges into it; [`file::File`] pairs a descriptor with the
//! file's raw content and an optional metadata block.

pub mod grammar;
mod scan;
pub mod file;

pub use file::{File, FileFormat, FileInfo, FileInfoError, FileKind, FileLocale, Meta};
