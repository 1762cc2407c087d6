pub mod text;
pub mod number;
pub mod json;
pub mod extract;
pub mod sky;
pub mod clock;
pub mod weather;
pub mod location;
