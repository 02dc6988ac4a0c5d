//! An interactive browser for a remote dataset of country records: the
//! record model, the case-insensitive name search, the stable field sort,
//! the text renderer, and the command loop's state machine, each with a
//! verified contract. Fetching the dataset and console I/O live outside
//! the library.

pub mod record;
pub mod seqs;
pub mod text;
pub mod filter;
pub mod sort;
pub mod format;
pub mod command;
pub mod laws;
