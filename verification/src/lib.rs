//! A slideshow over the entries of one directory.
//!
//! The library holds the decisions of the viewer: which entry is shown next,
//! when the directory has to be listed again, and what a timer tick or a key
//! press does to what is on screen. Reading the directory, asking the user for
//! it and drawing the window are left to the program around it, which hands
//! the library plain values.

pub mod listing;
pub mod cursor;
pub mod picture;
pub mod show;
pub mod startup;
