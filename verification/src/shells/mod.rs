//! The shells that the tool knows, and how the one in use is found.
pub mod enums;
pub mod helpers;
pub mod process_table;
pub mod system;
pub mod walks;
pub mod zsh;
