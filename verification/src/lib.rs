//! Conway's Game of Life on a fixed-size board with a permanent dead frame:
//! the grid, the rule evaluator that yields the changes of one generation, the
//! game that keeps grid and presenter consistent, and the translation of
//! pointer coordinates into grid cells.

pub mod canvas;
pub mod controller;
pub mod coordinate_translator;
pub mod generation;
pub mod generation_calculator;
pub mod grid;
pub mod grid_info;
pub mod input_handler;
pub mod interactive_game;
