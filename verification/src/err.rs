//! What can go wrong while a theme is loaded.

use vstd::prelude::*;

verus! {

/// A failure of loading a theme. Lookups never fail: they find a path or they do not.
#[derive(Debug)]
pub enum ThemeError {
    /// The theme directory holds no descriptor.
    ThemeIndexMissing { path: String },
    /// The descriptor is there and cannot be parsed.
    InvalidIndex { path: String, source: tini::Error },
    /// The descriptor parses and lacks what every theme must declare.
    InvalidTheme { reason: Option<String> },
    ThemeNotFound,
    /// A directory could not be listed, for another reason than absence or permissions.
    TraverseDir,
    /// The chain of inherited themes is deeper than the limit.
    CycleDetected,
}

impl ThemeError {
    /// A one-line description of the failure.
    pub fn message(&self) -> (text: &'static str)
        ensures
            text@ == match *self {
                ThemeError::ThemeIndexMissing { .. } => "icon theme index is missing"@,
                ThemeError::InvalidIndex { .. } => "icon theme index is invalid"@,
                ThemeError::InvalidTheme { .. } => "invalid theme"@,
                ThemeError::ThemeNotFound => "theme not found"@,
                ThemeError::TraverseDir => "error at icon dir traversing"@,
                ThemeError::CycleDetected => "inheritance cycle detected"@,
            },
    {
        match self {
            ThemeError::ThemeIndexMissing { .. } => "icon theme index is missing",
            ThemeError::InvalidIndex { .. } => "icon theme index is invalid",
            ThemeError::InvalidTheme { .. } => "invalid theme",
            ThemeError::ThemeNotFound => "theme not found",
            ThemeError::TraverseDir => "error at icon dir traversing",
            ThemeError::CycleDetected => "inheritance cycle detected",
        }
    }
}

} // verus!
