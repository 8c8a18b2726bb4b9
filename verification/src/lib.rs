//! Core logic of a screen-capture and annotation tool: captured RGBA frames,
//! cropping, the dimmed backdrop shown while a region is selected, and the
//! annotation history with its undo and redo stacks.

pub mod shade;
pub mod capture;
pub mod tools;
pub mod canvas;
pub mod selection;
