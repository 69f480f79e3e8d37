//! The core of a panel applet that shows how much memory is in use.
//!
//! - [`format`] turns a byte count into text under a unit standard, a
//!   magnitude prefix and a precision.
//! - [`window`] holds the applet's state and decides, message by message,
//!   what changes and what the host is to do: the popup's life, the user's
//!   settings, and settings changed elsewhere.
//! - [`timer`] decides for the refresh timer.
//! - [`decimal`], [`units`] and [`config`] hold what these build on.

pub mod config;
pub mod decimal;
pub mod format;
pub mod timer;
pub mod units;
pub mod window;

pub use crate::config::CosmicAppletRamConfig;
pub use crate::format::format_bytes;
pub use crate::timer::Timer;
pub use crate::units::{Prefix, Standard};
pub use crate::window::{Command, Message, Window};
