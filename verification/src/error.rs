//! Error types of the buffer, the layout and the renderer's entry points.

use vstd::prelude::*;
use vstd::std_specs::convert::FromSpecImpl;

verus! {

/// The I/O error of the standard library, carried through unopened.
#[verifier::external_type_specification]
#[verifier::external_body]
pub struct ExIoError(std::io::Error);

/// What can go wrong in a buffer or in the buffer manager.
#[derive(Debug)]
pub enum BufferError {
    /// A position or range lies outside the current content.
    InvalidPosition,
    /// No buffer has the given id.
    InvalidId,
    /// The path exists but is not a regular file.
    NotAFile,
    /// The buffer has no usable path.
    InvalidPath,
    /// Reading or writing a file failed.
    IOError(std::io::Error),
}

impl From<std::io::Error> for BufferError {
    fn from(err: std::io::Error) -> (r: Self) {
        BufferError::IOError(err)
    }
}

impl FromSpecImpl<std::io::Error> for BufferError {
    open spec fn obeys_from_spec() -> bool {
        true
    }

    open spec fn from_spec(err: std::io::Error) -> Self {
        BufferError::IOError(err)
    }
}

/// What can go wrong in the layout.
#[derive(Debug)]
pub enum LayoutError {
    /// No pane has the given id.
    IdNotFound,
    /// There is no focused pane.
    PaneNotFound,
    /// The layout has no pane at all.
    NoNode,
    /// The node is a split where a pane was needed.
    NotPane,
    /// The buffer behind a pane reported an error.
    BufferErr(BufferError),
    /// Reading or writing a file failed.
    IOError(std::io::Error),
}

impl From<BufferError> for LayoutError {
    fn from(err: BufferError) -> (r: Self) {
        LayoutError::BufferErr(err)
    }
}

impl FromSpecImpl<BufferError> for LayoutError {
    open spec fn obeys_from_spec() -> bool {
        true
    }

    open spec fn from_spec(err: BufferError) -> Self {
        LayoutError::BufferErr(err)
    }
}

impl From<std::io::Error> for LayoutError {
    fn from(err: std::io::Error) -> (r: Self) {
        LayoutError::IOError(err)
    }
}

impl FromSpecImpl<std::io::Error> for LayoutError {
    open spec fn obeys_from_spec() -> bool {
        true
    }

    open spec fn from_spec(err: std::io::Error) -> Self {
        LayoutError::IOError(err)
    }
}

/// What can go wrong while a frame is drawn.
#[derive(Debug)]
pub enum RenderError {
    BufferErr(BufferError),
    LayoutErr(LayoutError),
}

impl From<BufferError> for RenderError {
    fn from(err: BufferError) -> (r: Self) {
        RenderError::BufferErr(err)
    }
}

impl FromSpecImpl<BufferError> for RenderError {
    open spec fn obeys_from_spec() -> bool {
        true
    }

    open spec fn from_spec(err: BufferError) -> Self {
        RenderError::BufferErr(err)
    }
}

impl From<LayoutError> for RenderError {
    fn from(err: LayoutError) -> (r: Self) {
        RenderError::LayoutErr(err)
    }
}

impl FromSpecImpl<LayoutError> for RenderError {
    open spec fn obeys_from_spec() -> bool {
        true
    }

    open spec fn from_spec(err: LayoutError) -> Self {
        RenderError::LayoutErr(err)
    }
}

} // verus!
