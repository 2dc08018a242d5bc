//! A manager of one-on-one meetings ("O3s") with direct reports: each meeting has a
//! direct, an optional Thursday date and a list of entries (feedback with a polarity, or
//! topics), each of which may get an output.
//!
//! The library holds the meetings and every decision the program makes on a key press
//! (`manager`), the order in which meetings are listed (`order`), calendar arithmetic
//! (`dates`), the editing of text at a byte cursor (`text`), the texts and areas the
//! screens show (`view`, `layout`), and properties kept by every key press (`laws`).
use vstd::prelude::*;

pub mod dates;
pub mod keys;
pub mod laws;
pub mod layout;
pub mod manager;
pub mod model;
pub mod order;
pub mod text;
pub mod view;

verus! {

} // verus!
