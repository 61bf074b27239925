//! Verified core of a live visual-synthesis engine.
//!
//! The engine renders a fragment shader into an offscreen target every
//! frame, lets MIDI and OSC controllers drive the shader's parameters, and
//! publishes the frame to one of several sinks or records it. This crate
//! holds what the engine decides; windows, sockets, processes and the
//! graphics context belong to the program around it.
//!
//! - [`store`]: the parameter store, with [`bindings`] for the controller
//!   table, [`params`] for definitions and presets, and [`ideal`] for the
//!   laws of its arithmetic.
//! - [`midi`], [`osc`], [`osc_wire`], [`introspect`]: what reaches the store
//!   from the listeners, and what is answered.
//! - [`profile`]: which preset is active for a shader.
//! - [`output`], [`sinks`], [`pixels`], [`output_config`]: the output router
//!   and the sinks that run a worker.
//! - [`capture`], [`recording`]: the capture pipeline and the recorder.
//! - [`config`], [`assets`], [`events`], [`hotkeys`], [`validate`],
//!   [`logging`], [`presenter`], [`spout`]: configuration, keys, findings
//!   and log lines.
//! - [`text`], [`names`]: text primitives and the table keyed by name.

pub mod text;
pub mod names;
pub mod assets;
pub mod midi;
pub mod params;
pub mod bindings;
pub mod osc;
pub mod store;
pub mod ideal;
pub mod introspect;
pub mod osc_wire;
pub mod profile;
pub mod output;
pub mod output_config;
pub mod sinks;
pub mod pixels;
pub mod capture;
pub mod recording;
pub mod logging;
pub mod validate;
pub mod hotkeys;
pub mod config;
pub mod events;
pub mod presenter;
pub mod spout;
