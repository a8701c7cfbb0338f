//! The logic of a command line tool for everyday work: where the browsers of a machine are
//! installed and in which versions, how the address of a repository is read, which commands
//! of `git` a short name stands for, and in which development environment a project is
//! opened.
//!
//! Nothing here touches the disk, starts a process or reads the environment. Whoever calls
//! hands in what was seen there as plain values, and gets back what follows from it, with a
//! contract that says exactly what that is.

pub mod browser;
pub mod dot;
pub mod fault;
pub mod git;
pub mod ides;
pub mod path;
pub mod pattern;
pub mod repo;
pub mod shortcuts;
pub mod text;
pub mod utils;
