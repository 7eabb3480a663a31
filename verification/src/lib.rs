//! Google Drive as a storage backend.
pub mod always;
pub mod answer_laws;
pub mod base64_text;
pub mod command_laws;
pub mod commands;
pub mod config;
pub mod dispatch;
pub mod drive_laws;
pub mod drive_plans;
pub mod drive_replies;
pub mod drive_requests;
pub mod encoding;
pub mod encoding_laws;
pub mod filesystem_laws;
pub mod gdrive_ops;
pub mod google_laws;
pub mod http;
pub mod json;
pub mod json_laws;
pub mod manifest;
pub mod multipart;
pub mod oauth;
pub mod path;
pub mod persistence;
pub mod plan;
pub mod plan_laws;
pub mod plugin;
pub mod protocol;
pub mod reply_laws;
pub mod request_laws;
pub mod service_laws;
pub mod settings_laws;
pub mod store_laws;
pub mod text;
pub mod text_laws;
pub mod timestamp;
pub mod timestamp_laws;
pub mod trail;
pub mod view_laws;
pub mod wire;
