//! Ages of the people you care about: calendar arithmetic, formatting and the
//! state of the people store and its interactive views.
pub mod calendar;
pub mod text;
pub mod zone;
pub mod model;
pub mod age;
pub mod order;
pub mod i18n;
pub mod output;
pub mod table;
pub mod dates;
pub mod store;
pub mod cli;
pub mod avatar;
pub mod tui;
pub mod pixelart;
pub mod commands;
