//! File upload service library: configuration, authentication, request
//! tracing, storage bookkeeping and the upload protocols.
pub mod text;
pub mod config;
pub mod digest;
pub mod auth;
pub mod interceptor;
pub mod health;
pub mod storage;
pub mod service;
pub mod rest;
pub mod driver;
