pub mod devices;
pub mod house;
