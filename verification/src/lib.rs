//! Verified core of an interactive console menu: page layout, keyboard
//! navigation and frame rendering for a paginated list of labeled options
//! drawn inside a colored box.
//!
//! The core never touches the terminal. A caller asks it for the text of a
//! frame, writes that text, reads a key, and hands the key to
//! [`Menu::handle_key`], which moves the selection and says what to do
//! next.

pub mod ansi;
pub mod color;
pub mod key;
pub mod layout;
pub mod menu;
pub mod nav;
pub mod render;
pub mod text;

pub use key::{Event, Key};
pub use menu::{Menu, MenuOption, MenuProps, Outcome};
