//! Wire-format conversion between the native and OpenAI chat dialects.
pub mod json;
pub mod json_text;
pub mod text;
pub mod claude;
pub mod block_json;
pub mod param_remapper;
pub mod schema_cleaner;
pub mod signature_store;
pub mod thinking_utils;
pub mod image_converter;
pub mod web_search;
pub mod claude2oai;
pub mod oai;
pub mod request;
pub mod tokens;
pub mod web_transform;
pub mod reason;
pub mod auth;
