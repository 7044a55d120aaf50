//! The library's error type.
//!
//! Every failure the reconstruction and calculation code can report is one of
//! these variants; transport-level failures of the outside collaborators are
//! represented by the callers outside this library and never arise here.

use vstd::prelude::*;

verus! {

/// A failure of the layout, width or navigation logic.
#[derive(Debug, Clone, PartialEq, Eq, Structural)]
pub enum Error {
    /// The window is not attached to any workspace.
    NoWorkspaceId,
    /// No workspace with the requested id exists.
    WorkspaceNotFound,
    /// The workspace is not shown on any output.
    WorkspaceHidden,
    /// No output with the workspace's output name exists.
    OutputNotFound,
    /// The output is disabled and has no current mode.
    OutputDisabled,
    /// The output's current-mode index is out of range of its mode list.
    ModeOutOfRange,
    /// There is no focused window to work from.
    NoFocusedWindow,
    /// The focused window carries no application class.
    WindowHasNoClass,
    /// The focused window carries no process id.
    WindowHasNoPid,
    /// The focused window's application class has no reconstruction rule.
    UnsupportedClass,
}

/// The broad kinds of failure, as the callers distinguish them.
#[derive(Debug, Clone, PartialEq, Eq, Structural)]
pub enum ErrorKind {
    /// Something the operation needed does not exist.
    NotFound,
    /// The data exists but no rule applies to it.
    Unsupported,
    /// A well-formed reply that is semantically invalid.
    Protocol,
}

impl Error {
    /// Which broad kind of failure this is.
    pub open spec fn kind_spec(&self) -> ErrorKind {
        match self {
            Error::NoWorkspaceId => ErrorKind::NotFound,
            Error::WorkspaceNotFound => ErrorKind::NotFound,
            Error::WorkspaceHidden => ErrorKind::NotFound,
            Error::OutputNotFound => ErrorKind::NotFound,
            Error::OutputDisabled => ErrorKind::NotFound,
            Error::ModeOutOfRange => ErrorKind::Protocol,
            Error::NoFocusedWindow => ErrorKind::NotFound,
            Error::WindowHasNoClass => ErrorKind::NotFound,
            Error::WindowHasNoPid => ErrorKind::NotFound,
            Error::UnsupportedClass => ErrorKind::Unsupported,
        }
    }

    /// Which broad kind of failure this is.
    pub fn kind(&self) -> (k: ErrorKind)
        ensures
            k == self.kind_spec(),
    {
        match self {
            Error::NoWorkspaceId => ErrorKind::NotFound,
            Error::WorkspaceNotFound => ErrorKind::NotFound,
            Error::WorkspaceHidden => ErrorKind::NotFound,
            Error::OutputNotFound => ErrorKind::NotFound,
            Error::OutputDisabled => ErrorKind::NotFound,
            Error::ModeOutOfRange => ErrorKind::Protocol,
            Error::NoFocusedWindow => ErrorKind::NotFound,
            Error::WindowHasNoClass => ErrorKind::NotFound,
            Error::WindowHasNoPid => ErrorKind::NotFound,
            Error::UnsupportedClass => ErrorKind::Unsupported,
        }
    }

    /// A human-readable description of the failure.
    pub fn message(&self) -> &'static str {
        match self {
            Error::NoWorkspaceId => "Unknown workspace of window",
            Error::WorkspaceNotFound => "Can not find workspace of window",
            Error::WorkspaceHidden => "Window attached to hidden workspace",
            Error::OutputNotFound => "Can not find output of window",
            Error::OutputDisabled => "Window belongs to disabled output",
            Error::ModeOutOfRange => "Output references an invalid mode",
            Error::NoFocusedWindow => "No focused niri window",
            Error::WindowHasNoClass => "Focused niri window does not have class",
            Error::WindowHasNoPid => "Focused niri window does not have pid",
            Error::UnsupportedClass => "Can not get launching data from this class",
        }
    }
}

} // verus!
