//! The interactive view: its state and popups, key handling and the add / edit form.
//! Drawing and the terminal belong to the caller.
pub mod app;
pub mod event;
pub mod form;
pub mod ui;
