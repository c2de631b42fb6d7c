pub mod matrix;
pub mod utilities;
