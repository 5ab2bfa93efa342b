pub mod text;
pub mod session;
pub mod llm;
pub mod graphql;
pub mod routes;
pub mod conversion;
pub mod metadata;
pub mod users;
pub mod auth;
pub mod config;

pub use session::{extract_session_data, generate_basic_context, BasicContext, SessionValues};
