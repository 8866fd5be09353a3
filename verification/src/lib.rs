//! Pomodomate: the rules of a Pomodoro timer, with their contracts.
//!
//! Everything here is pure logic over plain values. Reading and writing
//! files, the terminal, the compositor and the desktop are done by the
//! program around this library.

pub mod config;
pub mod hooks;
pub mod theme;
pub mod text;
pub mod timer;
pub mod clock;
pub mod storage;
pub mod engine;
pub mod idle;
pub mod ui;
pub mod daemon;
pub mod sound;
pub mod app;
