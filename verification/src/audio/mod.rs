pub mod capture;
pub mod gate;
