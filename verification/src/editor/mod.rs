pub mod selection;
pub mod textbox;
pub mod combobox;
