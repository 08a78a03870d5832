//! Touchscreen and mouse independence for the LittleBigMouse mouse hook.
//!
//! After a touch, the first physical mouse movement returns the pointer to
//! where the mouse left it. This crate holds the decisions of the hook
//! callbacks, verified against their contracts:
//! - `policy`: the touch options of a layout (display selection, override
//!   key, application rules) and the per-gesture override state;
//! - `touch`: touch/pen recognition and the two records of a pending return;
//! - `touch_input`: the per-thread state machine of the current hook, fed by
//!   promoted mouse messages and native touchscreen reports;
//! - `mouse`: the callback that handles touch itself and then routes moves;
//! - `hook`: what a callback reads of the world and the work it hands back;
//! - `text`: splitting, trimming and lower-casing of option text.
pub mod hook;
pub mod mouse;
pub mod policy;
pub mod text;
pub mod touch;
pub mod touch_input;
