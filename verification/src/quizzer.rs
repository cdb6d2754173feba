pub mod add;
pub mod command;
pub mod fake_interface;
pub mod interface;
pub mod quiz;
pub mod quiz_file;
