//! Verified core logic of a terminal emulator front end: frame scheduling,
//! input de-duplication, damage tracking, frame planning and CPU blitting.

pub mod base64;
pub mod cli;
pub mod cpu_frame;
pub mod damage;
pub mod frame_plan;
pub mod glyph;
pub mod grid;
pub mod host;
pub mod ime;
pub mod input;
pub mod key_names;
pub mod kitty;
pub mod native_scroll;
pub mod pane_scroll;
pub mod profile;
pub mod pty;
pub mod render;
pub mod surface;
pub mod synthetic_key;
pub mod timing;
