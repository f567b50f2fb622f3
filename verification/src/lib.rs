//! Request-independent logic of the Recro audio backend: account and
//! credential rules, request throttling, SSRF screening, search-result
//! assembly and stream-target resolution.

pub mod auth;
pub mod status;
pub mod text;
pub mod throttle;
pub mod access;
pub mod security;
pub mod links;
pub mod tracks;
pub mod search;
pub mod title;
pub mod stream;
pub mod numbers;
pub mod google;
pub mod accounts;
pub mod library;
pub mod stats;
pub mod mail;
pub mod config;
pub mod cover;
pub mod requests;
pub mod extractor;
pub mod playback;
pub mod extraction;
