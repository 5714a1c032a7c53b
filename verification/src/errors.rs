//! Error taxonomy of the pipeline.
//!
//! Every construction-time error is fatal: the pipeline refuses to start.
//! A runtime frame error aborts the affected channel's stream.

use vstd::prelude::*;

verus! {

/// What went wrong, with the offending name where one exists.
#[derive(Debug)]
pub enum DfError {
    /// A required configuration key is absent or unparsable.
    ConfigError(String),
    /// A model or configuration file is missing.
    ArtifactNotFound(String),
    /// A declared port name is missing from a graph (fatal, unlike the
    /// tolerated missing constant-state port).
    PortNotFound(String),
    /// Shape or type inference over a graph found a contradiction.
    ShapeInference(String),
    /// Streaming conversion of a graph failed.
    StreamConversion(String),
    /// A `step` call saw a tensor whose shape does not match the bound
    /// template.
    FrameShapeMismatch,
}

/// The variant of a [`DfError`], comparable in tests.
#[derive(Clone, Copy, PartialEq, Eq, Structural, Debug)]
pub enum DfErrorKind {
    ConfigError,
    ArtifactNotFound,
    PortNotFound,
    ShapeInference,
    StreamConversion,
    FrameShapeMismatch,
}

impl DfError {
    /// The variant of this error.
    pub fn kind(&self) -> (k: DfErrorKind)
        ensures
            k == self.spec_kind(),
    {
        match self {
            DfError::ConfigError(_) => DfErrorKind::ConfigError,
            DfError::ArtifactNotFound(_) => DfErrorKind::ArtifactNotFound,
            DfError::PortNotFound(_) => DfErrorKind::PortNotFound,
            DfError::ShapeInference(_) => DfErrorKind::ShapeInference,
            DfError::StreamConversion(_) => DfErrorKind::StreamConversion,
            DfError::FrameShapeMismatch => DfErrorKind::FrameShapeMismatch,
        }
    }

    /// The variant of this error, for contracts.
    pub open spec fn spec_kind(&self) -> DfErrorKind {
        match self {
            DfError::ConfigError(_) => DfErrorKind::ConfigError,
            DfError::ArtifactNotFound(_) => DfErrorKind::ArtifactNotFound,
            DfError::PortNotFound(_) => DfErrorKind::PortNotFound,
            DfError::ShapeInference(_) => DfErrorKind::ShapeInference,
            DfError::StreamConversion(_) => DfErrorKind::StreamConversion,
            DfError::FrameShapeMismatch => DfErrorKind::FrameShapeMismatch,
        }
    }

    /// The name the error carries: the configuration key, file, or port.
    pub fn name(&self) -> (n: Option<&String>)
        ensures
            match self {
                DfError::ConfigError(s) => n == Some(s),
                DfError::ArtifactNotFound(s) => n == Some(s),
                DfError::PortNotFound(s) => n == Some(s),
                DfError::ShapeInference(s) => n == Some(s),
                DfError::StreamConversion(s) => n == Some(s),
                DfError::FrameShapeMismatch => n is None,
            },
    {
        match self {
            DfError::ConfigError(s) => Some(s),
            DfError::ArtifactNotFound(s) => Some(s),
            DfError::PortNotFound(s) => Some(s),
            DfError::ShapeInference(s) => Some(s),
            DfError::StreamConversion(s) => Some(s),
            DfError::FrameShapeMismatch => None,
        }
    }
}

} // verus!
