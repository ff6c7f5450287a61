pub mod admin;
pub mod broadcast;
pub mod federation;
pub mod instance;
pub mod resolver;
pub mod signature;
pub mod text;
