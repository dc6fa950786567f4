//! A text-mode kernel's logic: the VGA text screen and terminal, the keyboard
//! state, the status line, the splash screen and the system-call interface,
//! each stated over plain values so that the hardware edge can stay outside.
pub mod commands;
pub mod decimal;
pub mod fault;
pub mod keyboard;
pub mod screen;
pub mod rtc;
pub mod splash;
pub mod status;
pub mod syscall;
pub mod terminal;
pub mod timestamp;

pub use fault::alloc_error_handler;
pub use status::{date_status, time_status};
