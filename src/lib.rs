pub mod bluemap;
pub mod extract;
pub mod fetch;
pub mod geometry;
pub mod markers;
pub mod profiles;
pub mod settings;
pub mod text;
pub mod towny;
