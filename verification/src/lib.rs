//! A small control library for a board with a 5x5 LED matrix and a serial
//! port: a walker that drives a single lit LED clockwise around the border
//! of the matrix, and a line echo service that collects a line of bytes in
//! a bounded buffer and emits it reversed.

pub mod echo;
pub mod walker;
