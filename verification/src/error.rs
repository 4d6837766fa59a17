use vstd::prelude::*;

verus! {

/// Raised when a raw path's file name has no extension, or an extension
/// other than the designated log extension.
#[derive(Debug, Clone)]
pub struct BadExtensionError {
    pub message: String,
}

/// Reserved for failures tied to the file name itself; part of the public
/// error surface.
#[derive(Debug, Clone)]
pub struct FileNameError {
    pub message: String,
}

/// The error type of the library: either the raw path failed validation, or
/// an underlying file-system or clock operation failed, with its cause.
#[derive(Debug, Clone)]
pub enum LogError {
    InvalidExtension(BadExtensionError),
    IoError(String),
}

} // verus!
