//! Core of a client for a bucket-and-object cloud storage service: credentials
//! and upload tokens, region and domain discovery, request retry and host
//! rotation, and the form, resumable and batch upload engines.

pub mod base64;
pub mod batch_uploader;
pub mod blocks;
pub mod bucket;
pub mod cache_map;
pub mod client;
pub mod config;
pub mod crc32;
pub mod credential;
pub mod digest;
pub mod discovery;
pub mod env;
pub mod error;
pub mod form_uploader;
pub mod http;
pub mod json;
pub mod multipart;
pub mod object;
pub mod object_uploader;
pub mod recorder;
pub mod region;
pub mod resource;
pub mod resumable_uploader;
pub mod retry;
pub mod rob;
pub mod signed_headers;
pub mod string_map;
pub mod text;
pub mod upload_logger;
pub mod upload_manager;
pub mod upload_policy;
pub mod upload_response;
pub mod upload_token;
pub mod uri;
