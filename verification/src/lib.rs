//! Zim: the editing core of a modal terminal text editor, with its contracts
//! proved by Verus.

pub mod config;
pub mod editor;
pub mod keys;
pub mod text;
pub mod ui;
