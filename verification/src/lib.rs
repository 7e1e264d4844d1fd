//! The verified core of a desktop front end for the redumper disc dumping tool:
//! how redumper's output updates the dump state, what the dump files on disk
//! allow, how the sector map is drawn, and the rules behind the user's inputs.
pub mod cleanup;
pub mod drives;
pub mod dump_files;
pub mod images;
pub mod options;
pub mod profile;
pub mod progress;
pub mod script;
pub mod sector_view;
pub mod session;
pub mod stream;
pub mod text;
pub mod theme;
