//! An encrypted notepad: notes are lines of text kept in a file sealed with a
//! password-derived key; the library holds the note operations, the paging
//! rules, the settings header and the file format.

pub mod globals;
pub mod text;
pub mod crypto;
pub mod hex;
pub mod encryption;
pub mod notes;
pub mod file;
pub mod colors;
pub mod color_names;
pub mod patterns;
pub mod settings;
pub mod screen;
pub mod menu;
pub mod modes;
pub mod structs;
pub mod input;
pub mod security;
pub mod session;
pub mod arguments;
pub mod paths;
