//! Library core of an Elasticsearch client: connection profiles, credential
//! encryption, request and response handling, and local table management.

pub mod clock;
pub mod models;
pub mod text;
pub mod hexcodec;
pub mod home;
pub mod crypto;
pub mod config;
pub mod chars;
pub mod naming;
pub mod json;
pub mod encoding;
pub mod es;
pub mod duck;
pub mod export;
pub mod cli;
pub mod state;
pub mod sample;
