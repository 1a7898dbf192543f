pub mod aggregate;
pub mod extract;
pub mod item;
pub mod manifest;
pub mod record;
pub mod report;
pub mod text;

