//! Verified core of a League client companion: command-line and process
//! argument parsing, LCU connection bookkeeping, the worker state machines,
//! keyboard-input planning, bitmap encoding and log-line formatting.

pub mod cmdline;
pub mod discovery;
pub mod fullmute;
pub mod ingame;
pub mod keyboard;
pub mod lcu;
pub mod logger;
pub mod text;
pub mod win;
