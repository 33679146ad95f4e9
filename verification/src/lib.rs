pub mod bridge;
pub mod catalog;
pub mod interface_details;
pub mod projection;
pub mod registry;
pub mod schema;
pub mod sqltext;
pub mod text;
pub mod value;
