use vstd::prelude::*;

verus! {

/// Why a build failed.  Failures of the file system, of the YAML reader, of
/// the template engine and of the copier carry their message.
#[derive(Debug)]
pub enum BuildError {
    ContentNotFound,
    IOError(String),
    FrontMatterNotFound,
    FrontMatterNotClosed,
    MetadataFormatError(String),
    ErrorBuildingFile(String, Box<BuildError>),
    TemplateError(String),
    CopyError(String),
}

} // verus!
