//! The widget runtime.
//!
//! A `widget::Manager` owns the widgets and their components. A
//! `widget::WidgetBuilder` decorates a new widget with components; a
//! `widget::Context` gives access to them afterwards. Components notify the
//! handlers in their `event::EventHandlers` of events, which schedules one
//! `action::Action` for each handler; `action::Actions` executes the
//! scheduled actions in rounds.

pub mod action;
pub mod button;
pub mod container;
pub mod error;
pub mod event;
pub mod mouse;
pub mod spatial;
pub mod style;
pub mod widget;
