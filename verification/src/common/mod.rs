pub mod location;

pub use location::Location;
pub mod text;
pub mod serialize;
