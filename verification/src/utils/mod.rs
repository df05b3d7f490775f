pub mod version;
pub mod path;
pub mod pe;
