//! The input side of a terminal emulator: a table-driven recognizer that turns the
//! bytes a program writes into characters and ECMA-48 control functions, the UTF-8
//! decoder beneath it, and the screen model that applies what they produce.
pub mod recognizer;
pub mod utf8;
pub mod proofs;
pub mod control;
pub mod unicode;
pub mod cell;
pub mod sgr;
pub mod screen;
pub mod geometry;
pub mod input;
