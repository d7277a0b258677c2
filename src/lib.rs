pub mod actions;
pub mod compare;
pub mod devices;
pub mod dispatch;
pub mod integration;
pub mod lemmas;
pub mod scenes;
pub mod table;
pub mod types;
