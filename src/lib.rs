//! Workspace "mess" inspection: decides which files, excluded directories and
//! dirty repositories a walk over a directory tree reports, and how.
pub mod args;
pub mod ignore;
pub mod repo;
pub mod report;
pub mod text;
pub mod walk;
