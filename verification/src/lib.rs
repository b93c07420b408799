pub mod chat_api;
pub mod codec;
pub mod database;
pub mod entity;
pub mod ids;
pub mod migration;
pub mod model;
pub mod paths;
pub mod registry;
pub mod repository;
pub mod text;
pub mod user_api;
pub mod user_data_source;
pub mod user_data_source_impl;
pub mod user_repository;
pub mod version;
pub mod version_code;
