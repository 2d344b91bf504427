//! Compilation orchestration and diagnostic extraction for typeset documents.
//!
//! The library decides; it touches neither files nor processes. Its driver
//! cleans the workspace, writes the source, runs the compiler and looks for
//! the artifact, and reports each outcome to an [`Attempt`], which says what
//! to do next and in the end hands out a [`CompilationResult`].

pub mod attempt;
pub mod compiler;
pub mod diagnostic;
pub mod document;
pub mod export;
pub mod result;
pub mod text;
pub mod workspace;

pub use attempt::{Action, Artifact, Attempt, CompileError, Event, Stage};
pub use diagnostic::{parse_latex_errors, LatexError, Severity};
pub use document::Document;
pub use export::{begin_export, finish_export, ExportAction, ExportError};
pub use result::{assemble_result, CompilationResult};
