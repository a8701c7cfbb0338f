//! Discovery of installed web browsers.
//!
//! A search goes in steps. What was seen on the machine is collected in a
//! [`search::Survey`]: the caller runs [`search::prefix_query`], lists the directories that
//! [`search::homebrew_dirs`] names and those that it wants searched besides, looks up the
//! paths of [`search::paths_to_check`] and the patterns of [`search::patterns_to_search`],
//! and runs [`search::version_query`] for each of [`search::candidates`]. From the survey
//! [`search::find_browsers`] makes the list of the browsers, and [`search::find_browser`]
//! takes the first of one kind.

pub mod command;
pub mod error;
pub mod inventory;
pub mod kind;
pub mod laws;
pub mod probe;
pub mod resolve;
pub mod search;
