//! The rules by which a desktop assistant talks to model providers and to a browser: where a request
//! goes and what it asks, what is tried again and with which key, how an answer that comes in pieces
//! is put together, and how commands reach a browser and results come back.

pub mod body_laws;
pub mod bridge;
pub mod bridge_laws;
pub mod call_laws;
pub mod combined_laws;
pub mod combined_stream;
pub mod conversation;
pub mod conversation_laws;
pub mod endpoint;
pub mod failover;
pub mod http;
pub mod http_laws;
pub mod image;
pub mod json;
pub mod json_laws;
pub mod json_text;
pub mod piece_laws;
pub mod provider;
pub mod provider_laws;
pub mod reply;
pub mod reply_laws;
pub mod request;
pub mod request_laws;
pub mod responses;
pub mod responses_laws;
pub mod responses_stream;
pub mod responses_stream_laws;
pub mod retry;
pub mod retry_laws;
pub mod sending_laws;
pub mod sse;
pub mod sse_laws;
pub mod step_laws;
pub mod stream_request;
pub mod tabs;
pub mod text;
pub mod text_laws;
pub mod turn_laws;
pub mod view_laws;
pub mod vision_stream;
