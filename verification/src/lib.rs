//! Core logic of a Weibo (weibo.com) desktop client: the domain model, the
//! login and chat state machines, the parsing of the JSON documents that the
//! web API returns, and the HTTP parsing of the capturing proxy.

pub mod domain;
pub mod text;
pub mod http;
pub mod proxy;
pub mod json;
pub mod ws;
pub mod chat;
pub mod qr;
pub mod session;
pub mod cookies;
pub mod timeline;
pub mod audio;
pub mod bot;
pub mod webview;
pub mod bubble;
pub mod terminal;
pub mod ca;
