use vstd::prelude::*;

pub mod selection;
pub mod status;
pub mod token;
pub mod filebuffer;
pub mod chars;
pub mod lines;
pub mod bindings;
pub mod context;
pub mod textbuffer;
pub mod action;
pub mod editor;
pub mod paths;
pub mod filebox;
pub mod textbox;
pub mod combobox;
pub mod dialogues;
pub mod instance;
