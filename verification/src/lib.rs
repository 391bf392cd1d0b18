//! The host side of the StatusNotifierItem protocol for Linux system trays: what a
//! `StatusNotifierWatcher` and `StatusNotifierHost` on the D-Bus session bus knows and does.
//!
//! The library holds every decision and no I/O. It builds the messages to send and judges the
//! messages that arrive; whoever owns the connection carries them to and fro.

pub mod error;
pub mod host;
pub mod icon;
pub mod item;
pub mod items;
pub mod laws;
pub mod menu;
pub mod message;
pub mod startup;
pub mod text;
pub mod tray;
pub mod value;
pub mod watcher;
pub mod wire;

pub use error::Error;
pub use icon::{from_tuples, IconPixmap};
pub use item::{ItemId, ToolTip, TrayItem};
pub use items::{Items, TrayEvent};
pub use menu::{fire_click as fire_menu_click, MenuItemProps, MenuNode, PropValue};
pub use tray::TrayHost;
