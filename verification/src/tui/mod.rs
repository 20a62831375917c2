//! Terminal user interface: the state it shows and the decisions it makes
//! on key presses and scan events. Drawing and the event loop live with the
//! caller.

pub mod app;
pub mod events;
pub mod view;
