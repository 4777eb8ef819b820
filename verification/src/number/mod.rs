pub mod float;
pub mod float_value;
pub mod math;
pub mod text;
