//! Account, session and application logic of a small authentication service.
pub mod account;
pub mod apps;
pub mod assets;
pub mod authorize;
pub mod avatar;
pub mod config;
pub mod db;
pub mod decimal;
pub mod http;
pub mod logging;
pub mod media;
pub mod password;
pub mod router;
pub mod session;
pub mod text;
pub mod time;
pub mod userinfo;
pub mod validate;
