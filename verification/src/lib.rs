//! Input pipeline of a small split keyboard: key matrix snapshots are resolved
//! through a layered keymap, single-key taps switch the active layer, and the
//! result is a bounded buffer of key codes for the report encoder.

pub mod bytestring;
pub mod gestures;
pub mod icons;
pub mod keycode;
pub mod keys;
pub mod layers;
pub mod resolve;
pub mod scan;

