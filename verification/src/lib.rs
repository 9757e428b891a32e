pub mod clock;
pub mod config;
pub mod ip;
pub mod proxy_pool;
pub mod retry;
pub mod sanitize;
pub mod search;
pub mod text;
pub mod output;
pub mod pidfile;
pub mod presentation;
pub mod tui;
pub mod runtime;
pub mod openai;
pub mod serve;
pub mod rest_api;
