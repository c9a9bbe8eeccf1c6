pub mod action;
pub mod filebuffers;
pub mod language;
pub mod open_file;
pub mod find_replace;
pub mod loaded_buffers;
pub mod set_language;
