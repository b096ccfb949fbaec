//! Reactive core of a single-line tab bar hosted in a terminal multiplexer.
//!
//! The library keeps the minimal state needed to render one horizontal strip
//! of numbered tab segments, decides on every host event whether the frame
//! must be redrawn, and translates pointer input into tab-switch commands.
//! All host I/O (event delivery, command execution, styled output) lives
//! outside this crate; the core is pure state transitions.

pub mod controller;
pub mod layout;
pub mod renderer;
pub mod outcome;
