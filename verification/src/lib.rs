pub mod chat_model;
pub mod credentials;
pub mod endpoint;
pub mod errors;
pub mod json;
pub mod response;
pub mod stream;
pub mod strutil;
