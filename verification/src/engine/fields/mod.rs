pub mod a5_cells;
pub mod a5grid;
pub mod buffer;
pub mod decimal;
pub mod field;
pub mod grid_option;
pub mod index;
pub mod laws;
