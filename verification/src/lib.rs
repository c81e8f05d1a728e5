use vstd::prelude::*;

pub mod backend;
pub mod backend_service;
pub mod errors;
pub mod table;
pub mod token_engine;
pub mod user_credentials;
pub mod users_storage;
