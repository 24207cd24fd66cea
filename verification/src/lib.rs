//! The rules of a proxy that offers the models of the Z.AI coding plan as OpenAI's and Anthropic's
//! APIs: who may ask, for which models, how many tokens are left, what is sent upstream and what is
//! answered. Files, connections and processes are the business of the program round it.

pub mod accounts;
pub mod anthropic;
pub mod auth;
pub mod bytes;
pub mod calls;
pub mod chat;
pub mod clock;
pub mod codec;
pub mod completion;
pub mod config;
pub mod encoding;
pub mod failure;
pub mod files;
pub mod grants;
pub mod http;
pub mod ids;
pub mod json;
pub mod json_field;
pub mod login;
pub mod models;
pub mod number;
pub mod pairs;
pub mod percent;
pub mod plain;
pub mod quota;
pub mod report;
pub mod request;
pub mod route;
pub mod sse;
pub mod text;
pub mod upstream;
pub mod usage;
