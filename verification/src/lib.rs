//! The verified core of a small game.
//!
//! Its heart is the widget runtime under `ui`: widgets are plain ids to which
//! components are attached, the components talk to each other through
//! events, and every change that an event brings about is scheduled as an
//! action and executed in rounds. The runtime stands on the `arena`, which
//! gives out the ids and recycles them.
//!
//! Beside it stand what the game needs before it can draw anything: the
//! `settings`, the `resource` sets, the `validation` of configuration values,
//! and the checks that the `graphics` subsystem makes on its data.

pub mod arena;
pub mod bounds;
pub mod dimension;
pub mod graphics;
pub mod position;
pub mod resource;
pub mod settings;
pub mod ui;
pub mod validation;
