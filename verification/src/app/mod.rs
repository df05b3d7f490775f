pub mod github;
pub mod platform;
pub mod model;
pub mod updater;
pub mod db;
