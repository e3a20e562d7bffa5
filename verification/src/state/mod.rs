//! Runtime state: focus, keyboard, mouse, scroll, clipboard and cursors.

pub mod focus;
pub mod keyboard;
pub mod mouse;
pub mod scroll;
pub mod clipboard;
pub mod cursor;
pub mod animate;
pub mod global_keys;
pub mod input;
pub mod drawn_cursor;
